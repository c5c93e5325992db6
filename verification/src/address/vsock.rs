use vstd::prelude::*;
use crate::address::number::{decimal, lemma_decimal_value, number_value, parse_u32, write_decimal};
use crate::address::options::{lookup, Options, Pair};
use crate::address::words::{cid_bytes, cid_word, lemma_keys_distinct, port_bytes, port_word};
use crate::error::Error;

verus! {

/// The number below 2^32 that `value` spells, if it spells one.
pub open spec fn u32_value(value: Seq<u8>) -> Option<u32> {
    match number_value(value) {
        Some(n) => if n <= u32::MAX {
            Some(n as u32)
        } else {
            None
        },
        None => None,
    }
}

/// The VSOCK transport that the options describe, as the pair of its context
/// identifier and its port: `cid` and `port` have to be among them, with
/// numbers below 2^32 as their values.
pub open spec fn vsock_from(pairs: Seq<Pair>) -> Option<(u32, u32)> {
    match (lookup(pairs, cid_bytes()), lookup(pairs, port_bytes())) {
        (Some(cid), Some(port)) => match (u32_value(cid), u32_value(port)) {
            (Some(c), Some(p)) => Some((c, p)),
            _ => None,
        },
        _ => None,
    }
}

/// The options that describe a VSOCK transport.
pub open spec fn vsock_options(v: (u32, u32)) -> Seq<Pair> {
    seq![(cid_bytes(), decimal(v.0 as nat)), (port_bytes(), decimal(v.1 as nat))]
}

/// The options that describe a VSOCK transport describe that transport.
pub proof fn lemma_vsock_options(v: (u32, u32))
    ensures
        vsock_from(vsock_options(v)) == Some(v),
{
    lemma_keys_distinct();
    lemma_decimal_value(v.0 as nat);
    lemma_decimal_value(v.1 as nat);
    reveal_with_fuel(lookup, 3);
}

/// A VSOCK transport in a D-Bus address.
#[derive(Clone, Debug, PartialEq, Eq)]
pub struct Vsock {
    cid: u32,
    port: u32,
}

impl View for Vsock {
    type V = (u32, u32);

    closed spec fn view(&self) -> (u32, u32) {
        (self.cid, self.port)
    }
}

impl Vsock {
    /// Create a new VSOCK address.
    pub fn new(cid: u32, port: u32) -> (vsock: Self)
        ensures
            vsock@ == (cid, port),
    {
        Self { cid, port }
    }

    /// The Client ID.
    pub fn cid(&self) -> (cid: u32)
        ensures
            cid == self@.0,
    {
        self.cid
    }

    /// The port.
    pub fn port(&self) -> (port: u32)
        ensures
            port == self@.1,
    {
        self.port
    }

    /// The VSOCK transport that the options describe. A missing `cid` or
    /// `port`, and a value that is no number below 2^32, give an `Address`
    /// error.
    pub fn from_options(opts: &Options) -> (res: Result<Self, Error>)
        ensures
            match vsock_from(opts@) {
                Some(v) => res matches Ok(vsock) && vsock@ == v,
                None => res matches Err(e) && e is Address,
            },
    {
        let cid = match opts.get(cid_word().as_slice()) {
            Some(cid) => cid,
            None => {
                return Err(Error::Address("VSOCK address is missing cid=".to_string()));
            },
        };
        let port = match opts.get(port_word().as_slice()) {
            Some(port) => port,
            None => {
                return Err(Error::Address("VSOCK address is missing port=".to_string()));
            },
        };
        let cid = match parse_u32(cid.as_slice()) {
            Some(cid) => cid,
            None => {
                return Err(Error::Address("Failed to parse VSOCK cid".to_string()));
            },
        };
        let port = match parse_u32(port.as_slice()) {
            Some(port) => port,
            None => {
                return Err(Error::Address("Failed to parse VSOCK port".to_string()));
            },
        };
        Ok(Self { cid, port })
    }

    /// The options that describe this transport.
    pub fn to_options(&self) -> (opts: Options)
        ensures
            opts@ == vsock_options(self@),
    {
        let mut opts = Options::new();
        let mut cid: Vec<u8> = Vec::new();
        write_decimal(&mut cid, self.cid);
        let mut port: Vec<u8> = Vec::new();
        write_decimal(&mut port, self.port);
        assert(cid@ =~= decimal(self.cid as nat));
        assert(port@ =~= decimal(self.port as nat));
        opts.add(cid_word(), cid);
        opts.add(port_word(), port);
        assert(opts@ =~= vsock_options(self@));
        opts
    }
}

} // verus!
