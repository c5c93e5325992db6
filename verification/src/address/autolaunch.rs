use vstd::prelude::*;
use vstd::string::StringSliceAdditionalSpecFns;
use vstd::utf8::valid_utf8;
use crate::address::options::{lookup, Options, Pair};
use crate::address::text::{bytes_of, opt_text_bytes, opt_valid_utf8, text_from_str, text_of};
use crate::address::words::{scope_bytes, scope_word};
use crate::error::Error;

verus! {

/// The autolaunch transport that the options describe, as its scope: the
/// value of `scope`, which has to be valid UTF-8, where `scope` is among
/// them.
pub open spec fn autolaunch_from(pairs: Seq<Pair>) -> Option<Option<Seq<u8>>> {
    match lookup(pairs, scope_bytes()) {
        Some(scope) => if valid_utf8(scope) {
            Some(Some(scope))
        } else {
            None
        },
        None => Some(None),
    }
}

/// The options that describe an autolaunch transport.
pub open spec fn autolaunch_options(v: Option<Seq<u8>>) -> Seq<Pair> {
    match v {
        Some(scope) => seq![(scope_bytes(), scope)],
        None => Seq::empty(),
    }
}

/// The options that describe an autolaunch transport describe that
/// transport.
pub proof fn lemma_autolaunch_options(v: Option<Seq<u8>>)
    requires
        opt_valid_utf8(v),
    ensures
        autolaunch_from(autolaunch_options(v)) == Some(v),
{
    reveal_with_fuel(lookup, 3);
}

/// Transport properties of an autolaunch D-Bus address.
#[derive(Clone, Debug, PartialEq, Eq)]
pub struct Autolaunch {
    scope: Option<String>,
}

impl View for Autolaunch {
    type V = Option<Seq<u8>>;

    closed spec fn view(&self) -> Option<Seq<u8>> {
        opt_text_bytes(self.scope)
    }
}

impl Autolaunch {
    /// Create a new autolaunch transport.
    pub fn new() -> (autolaunch: Self)
        ensures
            autolaunch@ is None,
    {
        Self { scope: None }
    }

    /// Set the `autolaunch:` address `scope` value.
    pub fn set_scope(self, scope: Option<&str>) -> (autolaunch: Self)
        ensures
            autolaunch@ == match scope {
                Some(s) => Some(s.spec_bytes()),
                None => None,
            },
    {
        let scope = match scope {
            Some(s) => Some(text_from_str(s)),
            None => None,
        };
        Self { scope }
    }

    /// The optional scope.
    pub fn scope(&self) -> (scope: Option<&str>)
        ensures
            self@ == match scope {
                Some(s) => Some(s.spec_bytes()),
                None => None,
            },
            opt_valid_utf8(self@),
    {
        broadcast use vstd::utf8::encode_utf8_valid_utf8;

        match &self.scope {
            Some(s) => Some(s.as_str()),
            None => None,
        }
    }

    /// The autolaunch transport that the options describe. A scope that is
    /// not valid UTF-8 gives an `Address` error.
    pub fn from_options(opts: &Options) -> (res: Result<Self, Error>)
        ensures
            match autolaunch_from(opts@) {
                Some(v) => res matches Ok(autolaunch) && autolaunch@ == v,
                None => res matches Err(e) && e is Address,
            },
    {
        match opts.get(scope_word().as_slice()) {
            Some(scope) => match text_of(scope) {
                Some(s) => Ok(Self { scope: Some(s) }),
                None => Err(Error::Address("autolaunch scope is not valid UTF-8".to_string())),
            },
            None => Ok(Self { scope: None }),
        }
    }

    /// The options that describe this transport.
    pub fn to_options(&self) -> (opts: Options)
        ensures
            opts@ == autolaunch_options(self@),
            opt_valid_utf8(self@),
    {
        let mut opts = Options::new();
        match &self.scope {
            Some(s) => {
                opts.add(scope_word(), bytes_of(s));
            },
            None => {},
        }
        assert(opts@ =~= autolaunch_options(self@));
        opts
    }
}

} // verus!
