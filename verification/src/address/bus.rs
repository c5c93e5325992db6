//! Where the well-known buses are: what the environment says, and what holds
//! where it says nothing.

use vstd::prelude::*;
use vstd::string::StringSliceAdditionalSpecFns;
use crate::address::transport::{Transport, TransportView};
use crate::address::unix::{Unix, UnixPath, UnixPathView};
use crate::address::{parse_address_list, parse_addresses, Address};
use crate::error::Error;
use crate::utils::append_bytes;

verus! {

/// The bus that started a service.
#[derive(Debug, Clone, Copy, PartialEq, Eq, Structural)]
pub enum BusType {
    /// The bus of the login session.
    Session,
    /// The bus of the system.
    System,
}

/// The bytes of `/var/run/dbus/system_bus_socket`, the path of the socket of
/// the system bus where nothing else is said.
pub open spec fn system_bus_path() -> Seq<u8> {
    seq![
        0x2f, 0x76, 0x61, 0x72, 0x2f, 0x72, 0x75, 0x6e, 0x2f, 0x64, 0x62, 0x75, 0x73, 0x2f, 0x73, 0x79,
        0x73, 0x74, 0x65, 0x6d, 0x5f, 0x62, 0x75, 0x73, 0x5f, 0x73, 0x6f, 0x63, 0x6b, 0x65, 0x74,
    ]
}

/// The bytes of `/bus`, the name of the socket of the session bus in the
/// runtime directory of the user.
pub open spec fn session_bus_name() -> Seq<u8> {
    seq![0x2f, 0x62, 0x75, 0x73]
}

/// The views of the addresses `list`.
pub open spec fn views(list: Seq<Address>) -> Seq<TransportView> {
    list.map_values(|a: Address| a@)
}

/// The addresses of a bus as the environment gives them, or its one address
/// where the environment says nothing: the socket at the path `default`.
pub open spec fn bus_addresses(env: Option<Seq<u8>>, default: Seq<u8>) -> Option<Seq<TransportView>> {
    match env {
        Some(text) => parse_addresses(text),
        None => Some(seq![TransportView::Unix(UnixPathView::File(default))]),
    }
}

/// The addresses of a bus as the text `env` lists them, or the one address
/// of the socket at the path `default` where there is no text.
fn addresses_or(env: Option<&str>, default: Vec<u8>) -> (res: Result<Vec<Address>, Error>)
    ensures
        match bus_addresses(
            match env {
                Some(text) => Some(text.spec_bytes()),
                None => None,
            },
            default@,
        ) {
            Some(vs) => res matches Ok(list) && views(list@) == vs && list@.len() >= 1,
            None => res matches Err(e) && e is Address,
        },
{
    match env {
        Some(text) => parse_address_list(text),
        None => {
            let address = Address::new(Transport::Unix(Unix::new(UnixPath::File(default))));
            let mut list: Vec<Address> = Vec::new();
            list.push(address);
            assert(views(list@) =~= seq![TransportView::Unix(UnixPathView::File(default@))]);
            Ok(list)
        },
    }
}

/// The addresses of the system bus: those that `env`, the value of
/// `DBUS_SYSTEM_BUS_ADDRESS`, lists, or the socket at
/// `/var/run/dbus/system_bus_socket` where that variable is not set.
pub fn system_addresses(env: Option<&str>) -> (res: Result<Vec<Address>, Error>)
    ensures
        match bus_addresses(
            match env {
                Some(text) => Some(text.spec_bytes()),
                None => None,
            },
            system_bus_path(),
        ) {
            Some(vs) => res matches Ok(list) && views(list@) == vs && list@.len() >= 1,
            None => res matches Err(e) && e is Address,
        },
{
    let default: Vec<u8> = vec![
        0x2f, 0x76, 0x61, 0x72, 0x2f, 0x72, 0x75, 0x6e, 0x2f, 0x64, 0x62, 0x75, 0x73, 0x2f, 0x73, 0x79,
        0x73, 0x74, 0x65, 0x6d, 0x5f, 0x62, 0x75, 0x73, 0x5f, 0x73, 0x6f, 0x63, 0x6b, 0x65, 0x74,
    ];
    addresses_or(env, default)
}

/// The addresses of the session bus: those that `env`, the value of
/// `DBUS_SESSION_BUS_ADDRESS`, lists, or the socket `bus` in the runtime
/// directory `runtime_dir` of the user where that variable is not set.
pub fn session_addresses(env: Option<&str>, runtime_dir: &[u8]) -> (res: Result<Vec<Address>, Error>)
    ensures
        match bus_addresses(
            match env {
                Some(text) => Some(text.spec_bytes()),
                None => None,
            },
            runtime_dir@ + session_bus_name(),
        ) {
            Some(vs) => res matches Ok(list) && views(list@) == vs && list@.len() >= 1,
            None => res matches Err(e) && e is Address,
        },
{
    let mut default: Vec<u8> = Vec::new();
    append_bytes(&mut default, runtime_dir);
    let name: Vec<u8> = vec![0x2f, 0x62, 0x75, 0x73];
    append_bytes(&mut default, name.as_slice());
    assert(default@ =~= runtime_dir@ + session_bus_name());
    addresses_or(env, default)
}

/// The addresses of the bus that started this service: those that
/// `address`, the value of `DBUS_STARTER_ADDRESS`, lists; and nothing where
/// that variable is not set, which is where no bus started the service.
pub fn starter_addresses(address: Option<&str>) -> (res: Option<Result<Vec<Address>, Error>>)
    ensures
        match address {
            Some(text) => res matches Some(r) && match parse_addresses(text.spec_bytes()) {
                Some(vs) => r matches Ok(list) && views(list@) == vs && list@.len() >= 1,
                None => r matches Err(e) && e is Address,
            },
            None => res is None,
        },
{
    match address {
        Some(text) => Some(parse_address_list(text)),
        None => None,
    }
}

/// The bus that started this service, as `bus_type`, the value of
/// `DBUS_STARTER_BUS_TYPE`, names it: `session` or `system`.
pub fn starter_bus_type(bus_type: Option<&str>) -> (res: Option<BusType>)
    ensures
        res == match bus_type {
            Some(text) => if text@ == "session"@ {
                Some(BusType::Session)
            } else if text@ == "system"@ {
                Some(BusType::System)
            } else {
                None
            },
            None => None,
        },
{
    match bus_type {
        Some(text) => if same_str(text, "session") {
            Some(BusType::Session)
        } else if same_str(text, "system") {
            Some(BusType::System)
        } else {
            None
        },
        None => None,
    }
}

/// Whether `a` and `b` are the same text.
fn same_str(a: &str, b: &str) -> (same: bool)
    ensures
        same == (a@ == b@),
{
    broadcast use vstd::utf8::encode_utf8_decode_utf8;

    let same = crate::utils::bytes_eq(a.as_bytes(), b.as_bytes());
    proof {
        if a.spec_bytes() == b.spec_bytes() {
            assert(vstd::utf8::decode_utf8(a.spec_bytes()) == a@);
            assert(vstd::utf8::decode_utf8(b.spec_bytes()) == b@);
        }
    }
    same
}

} // verus!
