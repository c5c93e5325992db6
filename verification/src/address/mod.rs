//! D-Bus addresses: where a bus can be reached, as a string and as a typed
//! description of the transport.
//!
//! An address names a transport and gives its options: `unix:path=/tmp/bus`.
//! Several addresses, with `;` between them, are tried in their order.

pub mod percent;
pub mod options;
pub mod number;
pub mod words;
pub mod unix;
pub mod vsock;
pub mod text;
pub mod autolaunch;
pub mod launchd;
pub mod tcp;
pub mod transport;
pub mod bus;

use vstd::prelude::*;
use vstd::string::StringSliceAdditionalSpecFns;
use crate::address::options::{
    find_byte, format_address, is_ascii_bytes, join, lacks, lemma_address_ascii,
    lemma_address_write_read, lemma_join_ascii, lemma_split_join, parse_address, read_address,
    split, write_address, SEMICOLON,
};

use crate::address::transport::{lemma_transport_options, transport_from, TransportView};
use crate::error::Error;
use crate::names::{lemma_ascii_is_utf8, string_from_utf8};
use crate::utils::append_bytes;

pub use autolaunch::Autolaunch;
pub use launchd::Launchd;
pub use tcp::{Tcp, TcpAddressFamily};
pub use transport::Transport;
pub use unix::{Unix, UnixPath};
pub use vsock::Vsock;

verus! {

/// The text of the address of a transport.
pub open spec fn address_text(v: TransportView) -> Seq<u8> {
    format_address(v.name(), v.options())
}

/// The transport whose address `s` is, or nothing where `s` is the address
/// of none.
pub open spec fn parse_one(s: Seq<u8>) -> Option<TransportView> {
    match parse_address(s) {
        Some((name, pairs)) => transport_from(name, pairs),
        None => None,
    }
}

/// The transports whose addresses the `items` are, or nothing where one of
/// them is the address of none.
pub open spec fn parse_all(items: Seq<Seq<u8>>) -> Option<Seq<TransportView>>
    decreases items.len(),
{
    if items.len() == 0 {
        Some(Seq::empty())
    } else {
        match (parse_one(items[0]), parse_all(items.skip(1))) {
            (Some(v), Some(rest)) => Some(seq![v] + rest),
            _ => None,
        }
    }
}

/// The transports that the text `s` lists: one address or more, with `;`
/// between them.
pub open spec fn parse_addresses(s: Seq<u8>) -> Option<Seq<TransportView>> {
    parse_all(split(s, SEMICOLON))
}

/// The texts of the addresses of the transports, one by one.
pub open spec fn address_texts(vs: Seq<TransportView>) -> Seq<Seq<u8>> {
    vs.map_values(|v: TransportView| address_text(v))
}

/// The text that lists the transports: their addresses with `;` between
/// them.
pub open spec fn format_addresses(vs: Seq<TransportView>) -> Seq<u8> {
    join(address_texts(vs), SEMICOLON)
}

/// Reading the address of a transport gives the transport back; and the
/// address holds no `;`.
pub proof fn lemma_address_text(v: TransportView)
    requires
        v.wf(),
    ensures
        parse_one(address_text(v)) == Some(v),
        lacks(address_text(v), SEMICOLON),
{
    lemma_transport_options(v);
    lemma_address_write_read(v.name(), v.options());
}

/// Every transport, one after the other, is what reading its address gives.
proof fn lemma_parse_all(vs: Seq<TransportView>)
    requires
        forall|i: int| 0 <= i < vs.len() ==> (#[trigger] vs[i]).wf(),
    ensures
        parse_all(address_texts(vs)) == Some(vs),
    decreases vs.len(),
{
    let items = address_texts(vs);
    if vs.len() > 0 {
        let rest = vs.skip(1);
        assert forall|i: int| 0 <= i < rest.len() implies (#[trigger] rest[i]).wf() by {
            assert(vs[i + 1].wf());
        }
        lemma_parse_all(rest);
        assert(vs[0].wf());
        lemma_address_text(vs[0]);
        assert(items.skip(1) =~= address_texts(rest));
        assert(seq![vs[0]] + rest =~= vs);
    } else {
        assert(items =~= Seq::<Seq<u8>>::empty());
    }
}

/// Writing a list of one transport or more as text and reading the text
/// gives the list back: parsing undoes formatting.
pub proof fn lemma_addresses_write_read(vs: Seq<TransportView>)
    requires
        vs.len() >= 1,
        forall|i: int| 0 <= i < vs.len() ==> (#[trigger] vs[i]).wf(),
    ensures
        parse_addresses(format_addresses(vs)) == Some(vs),
{
    let items = address_texts(vs);
    assert forall|i: int| 0 <= i < items.len() implies lacks(#[trigger] items[i], SEMICOLON) by {
        assert(vs[i].wf());
        lemma_address_text(vs[i]);
    }
    lemma_split_join(items, SEMICOLON);
    lemma_parse_all(vs);
}

/// The text of an address is ASCII.
pub proof fn lemma_address_is_ascii(v: TransportView)
    requires
        v.wf(),
    ensures
        is_ascii_bytes(address_text(v)),
{
    lemma_transport_options(v);
    lemma_address_ascii(v.name(), v.options());
}

/// The text that lists addresses is ASCII.
pub proof fn lemma_addresses_are_ascii(vs: Seq<TransportView>)
    requires
        forall|i: int| 0 <= i < vs.len() ==> (#[trigger] vs[i]).wf(),
    ensures
        is_ascii_bytes(format_addresses(vs)),
{
    let items = address_texts(vs);
    assert forall|i: int| 0 <= i < items.len() implies is_ascii_bytes(#[trigger] items[i]) by {
        assert(vs[i].wf());
        lemma_address_is_ascii(vs[i]);
    }
    lemma_join_ascii(items, SEMICOLON);
}

/// A bus address: the description of the transport by which a bus can be
/// reached.
#[derive(Clone, Debug, PartialEq, Eq)]
pub struct Address {
    transport: Transport,
}

impl View for Address {
    type V = TransportView;

    closed spec fn view(&self) -> TransportView {
        self.transport@
    }
}

impl Address {
    /// Create a new `Address` from a `Transport`.
    pub fn new(transport: Transport) -> (address: Self)
        ensures
            address@ == transport@,
    {
        Self { transport }
    }

    /// The transport details for this address.
    pub fn transport(&self) -> (transport: &Transport)
        ensures
            transport@ == self@,
    {
        &self.transport
    }

    /// Reads one address from the bytes of `buf` from `from` up to `to`.
    fn read(buf: &[u8], from: usize, to: usize) -> (res: Result<Self, Error>)
        requires
            from <= to <= buf.len(),
        ensures
            match parse_one(buf@.subrange(from as int, to as int)) {
                Some(v) => res matches Ok(a) && a@ == v,
                None => res matches Err(e) && e is Address,
            },
    {
        let (name, options) = match read_address(buf, from, to) {
            Ok(r) => r,
            Err(e) => {
                return Err(e);
            },
        };
        match Transport::from_options(name.as_slice(), &options) {
            Ok(transport) => Ok(Self { transport }),
            Err(e) => Err(e),
        }
    }

    /// The address that `address` spells.
    ///
    /// Fails with an `Address` error on text that has no `:`, an option
    /// without `=`, a character that may not stand in a value, a key twice,
    /// the name of no transport, or options that do not describe the
    /// transport that is named.
    pub fn parse(address: &str) -> (res: Result<Self, Error>)
        ensures
            match parse_one(address.spec_bytes()) {
                Some(v) => res matches Ok(a) && a@ == v,
                None => res matches Err(e) && e is Address,
            },
    {
        let buf = address.as_bytes();
        assert(buf@.subrange(0, buf@.len() as int) =~= buf@);
        Self::read(buf, 0, buf.len())
    }

    /// Appends the text of this address to `out`.
    pub fn write(&self, out: &mut Vec<u8>)
        ensures
            final(out)@ == old(out)@ + address_text(self@),
            self@.wf(),
    {
        let name = self.transport.name();
        let options = self.transport.to_options();
        write_address(out, name.as_slice(), &options);
    }

    /// The text of this address. Parsing it gives this address.
    pub fn to_string(&self) -> (text: String)
        ensures
            text@ == vstd::utf8::decode_utf8(address_text(self@)),
            vstd::utf8::valid_utf8(address_text(self@)),
            parse_one(address_text(self@)) == Some(self@),
    {
        let mut out: Vec<u8> = Vec::new();
        self.write(&mut out);
        assert(out@ =~= address_text(self@));
        proof {
            lemma_address_text(self@);
            lemma_address_is_ascii(self@);
            lemma_ascii_is_utf8(out@);
        }
        match string_from_utf8(out) {
            Some(text) => text,
            None => String::new(),
        }
    }
}

/// The addresses that `addresses` lists: one or more, with `;` between
/// them, in their order.
///
/// Fails with an `Address` error where one of them is no address.
pub fn parse_address_list(addresses: &str) -> (res: Result<Vec<Address>, Error>)
    ensures
        match parse_addresses(addresses.spec_bytes()) {
            Some(vs) => res matches Ok(list) && list@.map_values(|a: Address| a@) == vs
                && list@.len() >= 1,
            None => res matches Err(e) && e is Address,
        },
{
    let buf = address_bytes(addresses);
    let to = buf.len();
    let ghost whole = parse_addresses(buf@);
    let mut list: Vec<Address> = Vec::new();
    let mut pos: usize = 0;
    let mut done = false;
    assert(buf@.subrange(0, to as int) =~= buf@);
    assert(list@.map_values(|a: Address| a@) =~= Seq::<TransportView>::empty());
    while !done
        invariant
            pos <= to,
            to == buf@.len(),
            buf@ == addresses.spec_bytes(),
            whole == parse_addresses(buf@),
            !done ==> whole == prepend_views(
                list@.map_values(|a: Address| a@),
                parse_all(split(buf@.subrange(pos as int, to as int), SEMICOLON)),
            ),
            done ==> whole == Some(list@.map_values(|a: Address| a@)) && list@.len() >= 1,
        decreases to - pos + (if done { 0int } else { 1int }),
    {
        let ghost s = buf@.subrange(pos as int, to as int);
        let ghost acc = list@.map_values(|a: Address| a@);
        let end = find_byte(buf, pos, to, SEMICOLON);
        let ghost first = buf@.subrange(pos as int, end as int);
        let ghost items = split(s, SEMICOLON);
        proof {
            if end < to {
                assert(s.take(end - pos) =~= first);
                assert(s.skip(end - pos + 1) =~= buf@.subrange(end + 1, to as int));
                assert(items.skip(1) =~= split(buf@.subrange(end + 1, to as int), SEMICOLON));
            } else {
                assert(s =~= first);
                assert(items.skip(1) =~= Seq::<Seq<u8>>::empty());
            }
            assert(items[0] == first);
        }
        let address = match Address::read(buf, pos, end) {
            Ok(a) => a,
            Err(e) => {
                assert(items.len() > 0);
                assert(parse_all(items) is None);
                return Err(e);
            },
        };
        proof {
            let v = address@;
            let rest = parse_all(items.skip(1));
            assert(parse_all(items) == prepend_views(seq![v], rest));
            match rest {
                Some(r) => {
                    assert(acc + (seq![v] + r) =~= acc.push(v) + r);
                },
                None => {},
            }
            if end >= to {
                assert(acc.push(v) + Seq::<TransportView>::empty() =~= acc.push(v));
            }
        }
        list.push(address);
        assert(list@.map_values(|a: Address| a@) =~= acc.push(address@));
        if end < to {
            pos = end + 1;
        } else {
            done = true;
        }
    }
    Ok(list)
}

/// The text that lists the addresses `list`, with `;` between them. Parsing
/// it gives the list, where the list is not empty.
pub fn format_address_list(list: &Vec<Address>) -> (text: String)
    ensures
        text@ == vstd::utf8::decode_utf8(format_addresses(list@.map_values(|a: Address| a@))),
        vstd::utf8::valid_utf8(format_addresses(list@.map_values(|a: Address| a@))),
        list@.len() >= 1 ==> parse_addresses(
            format_addresses(list@.map_values(|a: Address| a@)),
        ) == Some(list@.map_values(|a: Address| a@)),
{
    let ghost vs = list@.map_values(|a: Address| a@);
    let ghost items = address_texts(vs);
    let n = list.len();
    let mut tail: Vec<u8> = Vec::new();
    let mut i: usize = n;
    while i > 0
        invariant
            i <= n,
            n == list@.len(),
            vs == list@.map_values(|a: Address| a@),
            items == address_texts(vs),
            i < n ==> tail@ == join(items.skip(i as int), SEMICOLON),
            i == n ==> tail@.len() == 0,
            forall|j: int| i <= j < n ==> (#[trigger] vs[j]).wf(),
        decreases i,
    {
        i -= 1;
        let ghost rest = items.skip(i as int);
        let mut item: Vec<u8> = Vec::new();
        list[i].write(&mut item);
        assert(item@ =~= address_text(vs[i as int]));
        assert(rest[0] == item@);
        assert(rest.skip(1) =~= items.skip(i + 1));
        if i + 1 < n {
            item.push(SEMICOLON);
            append_bytes(&mut item, tail.as_slice());
        }
        tail = item;
    }
    proof {
        assert(items.skip(0) =~= items);
        assert(tail@ =~= format_addresses(vs));
        if n >= 1 {
            lemma_addresses_write_read(vs);
        }
        lemma_addresses_are_ascii(vs);
        lemma_ascii_is_utf8(tail@);
    }
    match string_from_utf8(tail) {
        Some(text) => text,
        None => String::new(),
    }
}

/// The bytes of the text `s`.
fn address_bytes(s: &str) -> (bytes: &[u8])
    ensures
        bytes@ == s.spec_bytes(),
{
    s.as_bytes()
}

/// `rest` with `first` in front of it, where there is a `rest`.
pub open spec fn prepend_views(first: Seq<TransportView>, rest: Option<Seq<TransportView>>) -> Option<
    Seq<TransportView>,
> {
    match rest {
        Some(r) => Some(first + r),
        None => None,
    }
}

} // verus!
