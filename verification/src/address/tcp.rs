use vstd::prelude::*;
use vstd::string::StringSliceAdditionalSpecFns;
use vstd::utf8::valid_utf8;
use crate::address::number::{decimal, lemma_decimal_value, number_value, parse_u32, write_decimal};
use crate::address::options::{is_ascii_bytes, is_word, keys_unique, lookup, Options, Pair};
use crate::address::text::{
    bytes_of, opt_text_bytes, opt_valid_utf8, text_bytes, text_from_str, text_of,
};
use crate::address::words::{
    bind_bytes, bind_word, family_bytes, family_word, host_bytes, host_word, ipv4_bytes,
    ipv4_word, ipv6_bytes, ipv6_word, lemma_families_distinct, lemma_keys_distinct, lemma_words,
    port_bytes, port_word,
};
use crate::error::Error;
use crate::utils::bytes_eq;

verus! {

/// A TCP address family.
#[derive(Copy, Clone, Debug, Hash, PartialEq, Eq, Structural)]
pub enum TcpAddressFamily {
    /// IPv4: in an address, `ipv4`.
    Ipv4,
    /// IPv6: in an address, `ipv6`.
    Ipv6,
}

/// What a TCP transport says, as plain values.
pub struct TcpView {
    /// The host name or IP address.
    pub host: Seq<u8>,
    /// The address to bind to, where one is given.
    pub bind: Option<Seq<u8>>,
    /// The port.
    pub port: u16,
    /// The address family, where one is asked for.
    pub family: Option<TcpAddressFamily>,
}

impl TcpView {
    /// The host and the address to bind to are text.
    pub open spec fn wf(self) -> bool {
        valid_utf8(self.host) && opt_valid_utf8(self.bind)
    }
}

/// The address family that `value` names, if it names one.
pub open spec fn family_value(value: Seq<u8>) -> Option<TcpAddressFamily> {
    if value == ipv4_bytes() {
        Some(TcpAddressFamily::Ipv4)
    } else if value == ipv6_bytes() {
        Some(TcpAddressFamily::Ipv6)
    } else {
        None
    }
}

/// The name of an address family.
pub open spec fn family_name(family: TcpAddressFamily) -> Seq<u8> {
    match family {
        TcpAddressFamily::Ipv4 => ipv4_bytes(),
        TcpAddressFamily::Ipv6 => ipv6_bytes(),
    }
}

/// The port that `value` spells: a number below 2^16, if it spells one.
pub open spec fn port_value(value: Seq<u8>) -> Option<u16> {
    match number_value(value) {
        Some(n) => if n <= u16::MAX {
            Some(n as u16)
        } else {
            None
        },
        None => None,
    }
}

/// The TCP transport that the options describe: `host` and `port` have to be
/// among them, `bind` and `family` may be. The host and the address to bind
/// to have to be valid UTF-8, the port a number below 2^16, and the family
/// `ipv4` or `ipv6`.
pub open spec fn tcp_from(pairs: Seq<Pair>) -> Option<TcpView> {
    match (lookup(pairs, host_bytes()), lookup(pairs, port_bytes())) {
        (Some(host), Some(port)) => {
            let bind = lookup(pairs, bind_bytes());
            let family = lookup(pairs, family_bytes());
            if !valid_utf8(host) || !opt_valid_utf8(bind) || port_value(port) is None || (family
                matches Some(f) && family_value(f) is None) {
                None
            } else {
                Some(
                    TcpView {
                        host: host,
                        bind: bind,
                        port: port_value(port).unwrap(),
                        family: match family {
                            Some(f) => family_value(f),
                            None => None,
                        },
                    },
                )
            }
        },
        _ => None,
    }
}

/// The options that describe a TCP transport: the host, the address to bind
/// to where there is one, the port, and the family where there is one.
pub open spec fn tcp_options(v: TcpView) -> Seq<Pair> {
    let host = (host_bytes(), v.host);
    let port = (port_bytes(), decimal(v.port as nat));
    match (v.bind, v.family) {
        (Some(b), Some(f)) => seq![host, (bind_bytes(), b), port, (family_bytes(), family_name(f))],
        (Some(b), None) => seq![host, (bind_bytes(), b), port],
        (None, Some(f)) => seq![host, port, (family_bytes(), family_name(f))],
        (None, None) => seq![host, port],
    }
}

/// The options that describe a TCP transport describe that transport; their
/// keys are words, and none occurs twice.
pub proof fn lemma_tcp_options(v: TcpView)
    requires
        v.wf(),
    ensures
        tcp_from(tcp_options(v)) == Some(v),
        keys_unique(tcp_options(v)),
        forall|i: int| 0 <= i < tcp_options(v).len() ==> is_word(#[trigger] tcp_options(v)[i].0),
        forall|i: int|
            0 <= i < tcp_options(v).len() ==> is_ascii_bytes(#[trigger] tcp_options(v)[i].0),
        1 <= tcp_options(v).len() <= 4,
{
    lemma_keys_distinct();
    lemma_families_distinct();
    lemma_words();
    lemma_decimal_value(v.port as nat);
    reveal_with_fuel(lookup, 5);
}

/// A TCP transport in a D-Bus address.
#[derive(Clone, Debug, PartialEq, Eq)]
pub struct Tcp {
    host: String,
    bind: Option<String>,
    port: u16,
    family: Option<TcpAddressFamily>,
}

impl View for Tcp {
    type V = TcpView;

    closed spec fn view(&self) -> TcpView {
        TcpView {
            host: text_bytes(self.host),
            bind: opt_text_bytes(self.bind),
            port: self.port,
            family: self.family,
        }
    }
}

impl Tcp {
    /// Create a new TCP transport with the given host and port.
    pub fn new(host: &str, port: u16) -> (tcp: Self)
        ensures
            tcp@ == (TcpView { host: host.spec_bytes(), bind: None, port: port, family: None }),
    {
        Self { host: text_from_str(host), bind: None, port, family: None }
    }

    /// Set the `tcp:` address `bind` value.
    pub fn set_bind(self, bind: Option<&str>) -> (tcp: Self)
        ensures
            tcp@ == (TcpView {
                bind: match bind {
                    Some(b) => Some(b.spec_bytes()),
                    None => None,
                },
                ..self@
            }),
    {
        let bind = match bind {
            Some(b) => Some(text_from_str(b)),
            None => None,
        };
        Self { host: self.host, bind, port: self.port, family: self.family }
    }

    /// Set the `tcp:` address `family` value.
    pub fn set_family(self, family: Option<TcpAddressFamily>) -> (tcp: Self)
        ensures
            tcp@ == (TcpView { family: family, ..self@ }),
    {
        Self { host: self.host, bind: self.bind, port: self.port, family }
    }

    /// The `tcp:` address `host` value.
    pub fn host(&self) -> (host: &str)
        ensures
            host.spec_bytes() == self@.host,
    {
        self.host.as_str()
    }

    /// The `tcp:` address `bind` value.
    pub fn bind(&self) -> (bind: Option<&str>)
        ensures
            self@.bind == match bind {
                Some(b) => Some(b.spec_bytes()),
                None => None,
            },
    {
        match &self.bind {
            Some(b) => Some(b.as_str()),
            None => None,
        }
    }

    /// The `tcp:` address `port` value.
    pub fn port(&self) -> (port: u16)
        ensures
            port == self@.port,
    {
        self.port
    }

    /// The `tcp:` address `family` value.
    pub fn family(&self) -> (family: Option<TcpAddressFamily>)
        ensures
            family == self@.family,
    {
        self.family
    }

    /// The TCP transport that the options describe. A missing `host` or
    /// `port`, text that is not valid UTF-8, a port that is no number below
    /// 2^16, and a family that is neither `ipv4` nor `ipv6` give an `Address`
    /// error.
    pub fn from_options(opts: &Options) -> (res: Result<Self, Error>)
        ensures
            match tcp_from(opts@) {
                Some(v) => res matches Ok(tcp) && tcp@ == v,
                None => res matches Err(e) && e is Address,
            },
    {
        let host = match opts.get(host_word().as_slice()) {
            Some(host) => host,
            None => {
                return Err(Error::Address("tcp address is missing `host`".to_string()));
            },
        };
        let port = match opts.get(port_word().as_slice()) {
            Some(port) => port,
            None => {
                return Err(Error::Address("tcp address is missing `port`".to_string()));
            },
        };
        let host = match text_of(host) {
            Some(host) => host,
            None => {
                return Err(Error::Address("tcp `host` is not valid UTF-8".to_string()));
            },
        };
        let bind = match opts.get(bind_word().as_slice()) {
            Some(bind) => match text_of(bind) {
                Some(bind) => Some(bind),
                None => {
                    return Err(Error::Address("tcp `bind` is not valid UTF-8".to_string()));
                },
            },
            None => None,
        };
        let port = match parse_u32(port.as_slice()) {
            Some(port) => if port <= 0xffff {
                port as u16
            } else {
                return Err(Error::Address("invalid tcp `port`".to_string()));
            },
            None => {
                return Err(Error::Address("invalid tcp `port`".to_string()));
            },
        };
        let family = match opts.get(family_word().as_slice()) {
            Some(family) => if bytes_eq(family.as_slice(), ipv4_word().as_slice()) {
                Some(TcpAddressFamily::Ipv4)
            } else if bytes_eq(family.as_slice(), ipv6_word().as_slice()) {
                Some(TcpAddressFamily::Ipv6)
            } else {
                return Err(Error::Address("invalid tcp address `family`".to_string()));
            },
            None => None,
        };
        Ok(Self { host, bind, port, family })
    }

    /// The options that describe this transport.
    pub fn to_options(&self) -> (opts: Options)
        ensures
            opts@ == tcp_options(self@),
            self@.wf(),
    {
        let mut opts = Options::new();
        opts.add(host_word(), bytes_of(&self.host));
        match &self.bind {
            Some(b) => {
                opts.add(bind_word(), bytes_of(b));
            },
            None => {},
        }
        let mut port: Vec<u8> = Vec::new();
        write_decimal(&mut port, self.port as u32);
        assert(port@ =~= decimal(self.port as nat));
        opts.add(port_word(), port);
        match self.family {
            Some(TcpAddressFamily::Ipv4) => {
                opts.add(family_word(), ipv4_word());
            },
            Some(TcpAddressFamily::Ipv6) => {
                opts.add(family_word(), ipv6_word());
            },
            None => {},
        }
        assert(opts@ =~= tcp_options(self@));
        opts
    }
}

} // verus!
