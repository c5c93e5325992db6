use vstd::prelude::*;
use vstd::string::StringSliceAdditionalSpecFns;
use vstd::utf8::valid_utf8;
use crate::address::options::{lookup, Options, Pair};
use crate::address::text::{bytes_of, text_bytes, text_from_str, text_of};
use crate::address::unix::{Unix, UnixPath, UnixPathView};
use crate::address::words::{env_bytes, env_word};
use crate::error::Error;
use crate::utils::copy_range;

verus! {

/// The launchd transport that the options describe, as the name of its
/// environment variable: the value of `env`, which has to be among them and
/// valid UTF-8.
pub open spec fn launchd_from(pairs: Seq<Pair>) -> Option<Seq<u8>> {
    match lookup(pairs, env_bytes()) {
        Some(env) => if valid_utf8(env) {
            Some(env)
        } else {
            None
        },
        None => None,
    }
}

/// The options that describe a launchd transport.
pub open spec fn launchd_options(v: Seq<u8>) -> Seq<Pair> {
    seq![(env_bytes(), v)]
}

/// The options that describe a launchd transport describe that transport.
pub proof fn lemma_launchd_options(v: Seq<u8>)
    requires
        valid_utf8(v),
    ensures
        launchd_from(launchd_options(v)) == Some(v),
{
    reveal_with_fuel(lookup, 3);
}

/// Whether `b` is a white space character of ASCII.
pub open spec fn is_space(b: u8) -> bool {
    b == 0x20 || (0x09 <= b <= 0x0d)
}

/// The length of `s` without the white space at its end.
pub open spec fn trimmed_len(s: Seq<u8>) -> int
    decreases s.len(),
{
    if s.len() > 0 && is_space(s.last()) {
        trimmed_len(s.drop_last())
    } else {
        s.len() as int
    }
}

/// What the output of `launchctl getenv` says about where the bus is, given
/// whether the command succeeded and what it printed: the socket at the path
/// that it printed, without the white space at the end; or nothing where the
/// command failed or printed what is not valid UTF-8.
pub open spec fn launchd_bus_address(succeeded: bool, stdout: Seq<u8>) -> Option<UnixPathView> {
    if succeeded && valid_utf8(stdout) {
        Some(UnixPathView::File(stdout.take(trimmed_len(stdout))))
    } else {
        None
    }
}

/// The transport properties of a launchd D-Bus address.
#[derive(Clone, Debug, PartialEq, Eq)]
pub struct Launchd {
    env: String,
}

impl View for Launchd {
    type V = Seq<u8>;

    closed spec fn view(&self) -> Seq<u8> {
        text_bytes(self.env)
    }
}

impl Launchd {
    /// Create a new launchd D-Bus address.
    pub fn new(env: &str) -> (launchd: Self)
        ensures
            launchd@ == env.spec_bytes(),
    {
        Self { env: text_from_str(env) }
    }

    /// The name of the environment variable that holds the path of the unix
    /// domain socket for the launchd created dbus-daemon.
    pub fn env(&self) -> (env: &str)
        ensures
            env.spec_bytes() == self@,
            valid_utf8(self@),
    {
        broadcast use vstd::utf8::encode_utf8_valid_utf8;

        self.env.as_str()
    }

    /// Determine the actual transport details behind a launchd address, from
    /// what running `launchctl getenv` with the name of the environment
    /// variable gave: whether it succeeded, and what it printed.
    ///
    /// A command that failed and output that is not valid UTF-8 give an
    /// `Address` error.
    pub fn bus_address(&self, succeeded: bool, stdout: &Vec<u8>) -> (res: Result<Unix, Error>)
        ensures
            match launchd_bus_address(succeeded, stdout@) {
                Some(v) => res matches Ok(unix) && unix@ == v,
                None => res matches Err(e) && e is Address,
            },
    {
        if !succeeded {
            return Err(Error::Address("launchctl terminated with an error".to_string()));
        }
        if text_of(stdout).is_none() {
            return Err(Error::Address("Unable to parse launchctl output as UTF-8".to_string()));
        }
        let mut end = stdout.len();
        assert(stdout@.take(end as int) =~= stdout@);
        while end > 0 && (stdout[end - 1] == 0x20 || (0x09 <= stdout[end - 1] && stdout[end - 1]
            <= 0x0d))
            invariant
                end <= stdout@.len(),
                trimmed_len(stdout@) == trimmed_len(stdout@.take(end as int)),
            decreases end,
        {
            assert(stdout@.take(end as int).drop_last() =~= stdout@.take(end - 1));
            end -= 1;
        }
        let path = copy_range(stdout.as_slice(), 0, end);
        assert(path@ =~= stdout@.take(end as int));
        Ok(Unix::new(UnixPath::File(path)))
    }

    /// The launchd transport that the options describe. A missing `env`, and
    /// one that is not valid UTF-8, give an `Address` error.
    pub fn from_options(opts: &Options) -> (res: Result<Self, Error>)
        ensures
            match launchd_from(opts@) {
                Some(v) => res matches Ok(launchd) && launchd@ == v,
                None => res matches Err(e) && e is Address,
            },
    {
        match opts.get(env_word().as_slice()) {
            Some(env) => match text_of(env) {
                Some(env) => Ok(Self { env }),
                None => Err(Error::Address("launchd env is not valid UTF-8".to_string())),
            },
            None => Err(Error::Address("missing env key".to_string())),
        }
    }

    /// The options that describe this transport.
    pub fn to_options(&self) -> (opts: Options)
        ensures
            opts@ == launchd_options(self@),
            valid_utf8(self@),
    {
        let mut opts = Options::new();
        opts.add(env_word(), bytes_of(&self.env));
        assert(opts@ =~= launchd_options(self@));
        opts
    }
}

} // verus!
