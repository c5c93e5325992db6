use vstd::prelude::*;
use vstd::utf8::valid_utf8;
use crate::address::autolaunch::{
    autolaunch_from, autolaunch_options, lemma_autolaunch_options, Autolaunch,
};
use crate::address::launchd::{launchd_from, launchd_options, lemma_launchd_options, Launchd};
use crate::address::options::{is_ascii_bytes, is_word, keys_unique, lookup, Options, Pair};
use crate::address::tcp::{lemma_tcp_options, tcp_from, tcp_options, Tcp, TcpView};
use crate::address::text::opt_valid_utf8;
use crate::address::unix::{
    lemma_unix_options, unix_from, unix_options, Unix, UnixPath, UnixPathView,
};
use crate::address::vsock::{lemma_vsock_options, vsock_from, vsock_options, Vsock};
use crate::address::words::{
    autolaunch_bytes, autolaunch_word, launchd_bytes, launchd_word, lemma_keys_distinct,
    lemma_names_distinct, lemma_words, nonce_tcp_bytes, nonce_tcp_word, noncefile_bytes,
    noncefile_word, tcp_bytes, tcp_word, unix_bytes, unix_word, vsock_bytes, vsock_word,
};
use crate::error::Error;
use crate::utils::bytes_eq;

verus! {

/// The transport properties of a D-Bus address.
#[derive(Clone, Debug, PartialEq, Eq)]
pub enum Transport {
    /// A Unix Domain Socket address.
    Unix(Unix),
    /// TCP address details.
    Tcp(Tcp),
    /// TCP address details, with the path of a file that holds a nonce to
    /// send first.
    NonceTcp(Tcp, Vec<u8>),
    /// VSOCK address.
    Vsock(Vsock),
    /// A launchd address.
    Launchd(Launchd),
    /// Autolaunch address.
    Autolaunch(Autolaunch),
}

/// What a transport says, as plain values.
pub enum TransportView {
    /// A Unix domain socket.
    Unix(UnixPathView),
    /// A TCP socket.
    Tcp(TcpView),
    /// A TCP socket, and the path of the file with the nonce.
    NonceTcp(TcpView, Seq<u8>),
    /// A VSOCK socket: the context identifier and the port.
    Vsock(u32, u32),
    /// The socket whose path launchd holds in the environment variable of
    /// this name.
    Launchd(Seq<u8>),
    /// The bus that is found or started on its own, in this scope, if one is
    /// named.
    Autolaunch(Option<Seq<u8>>),
}

impl View for Transport {
    type V = TransportView;

    open spec fn view(&self) -> TransportView {
        match self {
            Transport::Unix(t) => TransportView::Unix(t@),
            Transport::Tcp(t) => TransportView::Tcp(t@),
            Transport::NonceTcp(t, f) => TransportView::NonceTcp(t@, f@),
            Transport::Vsock(t) => TransportView::Vsock(t@.0, t@.1),
            Transport::Launchd(t) => TransportView::Launchd(t@),
            Transport::Autolaunch(t) => TransportView::Autolaunch(t@),
        }
    }
}

impl TransportView {
    /// Whatever is text in the description is valid UTF-8.
    pub open spec fn wf(self) -> bool {
        match self {
            TransportView::Unix(_) => true,
            TransportView::Tcp(t) => t.wf(),
            TransportView::NonceTcp(t, _) => t.wf(),
            TransportView::Vsock(_, _) => true,
            TransportView::Launchd(env) => valid_utf8(env),
            TransportView::Autolaunch(scope) => opt_valid_utf8(scope),
        }
    }

    /// The name of the transport in an address.
    pub open spec fn name(self) -> Seq<u8> {
        match self {
            TransportView::Unix(_) => unix_bytes(),
            TransportView::Tcp(_) => tcp_bytes(),
            TransportView::NonceTcp(_, _) => nonce_tcp_bytes(),
            TransportView::Vsock(_, _) => vsock_bytes(),
            TransportView::Launchd(_) => launchd_bytes(),
            TransportView::Autolaunch(_) => autolaunch_bytes(),
        }
    }

    /// The options that describe the transport in an address.
    pub open spec fn options(self) -> Seq<Pair> {
        match self {
            TransportView::Unix(p) => unix_options(p),
            TransportView::Tcp(t) => tcp_options(t),
            TransportView::NonceTcp(t, f) => tcp_options(t).push((noncefile_bytes(), f)),
            TransportView::Vsock(cid, port) => vsock_options((cid, port)),
            TransportView::Launchd(env) => launchd_options(env),
            TransportView::Autolaunch(scope) => autolaunch_options(scope),
        }
    }
}

/// The transport with the name `name` that the options describe, or nothing
/// where the name is that of no transport or the options do not describe one
/// of that name.
pub open spec fn transport_from(name: Seq<u8>, pairs: Seq<Pair>) -> Option<TransportView> {
    if name == unix_bytes() {
        match unix_from(pairs) {
            Some(p) => Some(TransportView::Unix(p)),
            None => None,
        }
    } else if name == tcp_bytes() {
        match tcp_from(pairs) {
            Some(t) => Some(TransportView::Tcp(t)),
            None => None,
        }
    } else if name == nonce_tcp_bytes() {
        match (tcp_from(pairs), lookup(pairs, noncefile_bytes())) {
            (Some(t), Some(f)) => Some(TransportView::NonceTcp(t, f)),
            _ => None,
        }
    } else if name == vsock_bytes() {
        match vsock_from(pairs) {
            Some(v) => Some(TransportView::Vsock(v.0, v.1)),
            None => None,
        }
    } else if name == launchd_bytes() {
        match launchd_from(pairs) {
            Some(env) => Some(TransportView::Launchd(env)),
            None => None,
        }
    } else if name == autolaunch_bytes() {
        match autolaunch_from(pairs) {
            Some(scope) => Some(TransportView::Autolaunch(scope)),
            None => None,
        }
    } else {
        None
    }
}

/// The value of a key among options with one more option at their end.
pub proof fn lemma_lookup_push(pairs: Seq<Pair>, p: Pair, key: Seq<u8>)
    ensures
        lookup(pairs.push(p), key) == if lookup(pairs, key) is Some {
            lookup(pairs, key)
        } else if p.0 == key {
            Some(p.1)
        } else {
            None
        },
    decreases pairs.len(),
{
    let all = pairs.push(p);
    if pairs.len() == 0 {
        assert(all.skip(1) =~= Seq::<Pair>::empty());
        assert(lookup(all.skip(1), key) is None);
    } else {
        assert(all[0] == pairs[0]);
        assert(all.skip(1) =~= pairs.skip(1).push(p));
        lemma_lookup_push(pairs.skip(1), p, key);
    }
}

/// The name and the options that describe a transport describe that
/// transport; the name and the keys are words, and no key occurs twice.
pub proof fn lemma_transport_options(v: TransportView)
    requires
        v.wf(),
    ensures
        transport_from(v.name(), v.options()) == Some(v),
        is_word(v.name()),
        keys_unique(v.options()),
        forall|i: int| 0 <= i < v.options().len() ==> is_word(#[trigger] v.options()[i].0),
        is_ascii_bytes(v.name()),
        forall|i: int| 0 <= i < v.options().len() ==> is_ascii_bytes(#[trigger] v.options()[i].0),
{
    lemma_names_distinct();
    lemma_keys_distinct();
    lemma_words();
    match v {
        TransportView::Unix(p) => {
            lemma_unix_options(p);
        },
        TransportView::Tcp(t) => {
            lemma_tcp_options(t);
        },
        TransportView::NonceTcp(t, f) => {
            lemma_tcp_options(t);
            let base = tcp_options(t);
            let last = (noncefile_bytes(), f);
            let all = base.push(last);
            lemma_lookup_push(base, last, crate::address::words::host_bytes());
            lemma_lookup_push(base, last, crate::address::words::port_bytes());
            lemma_lookup_push(base, last, crate::address::words::bind_bytes());
            lemma_lookup_push(base, last, crate::address::words::family_bytes());
            lemma_lookup_push(base, last, noncefile_bytes());
            assert(lookup(base, noncefile_bytes()) is None) by {
                reveal_with_fuel(lookup, 5);
            }
            assert(lookup(base, crate::address::words::bind_bytes()) == t.bind && lookup(
                base,
                crate::address::words::family_bytes(),
            ) == (match t.family {
                Some(f) => Some(crate::address::tcp::family_name(f)),
                None => None,
            })) by {
                reveal_with_fuel(lookup, 5);
            }
            assert forall|i: int, j: int| 0 <= i < j < all.len() implies #[trigger] all[i].0
                != #[trigger] all[j].0 by {
                if j < base.len() {
                    assert(base[i].0 != base[j].0);
                }
            }
            assert forall|i: int| 0 <= i < all.len() implies is_word(#[trigger] all[i].0) by {
                if i < base.len() {
                    assert(is_word(base[i].0));
                }
            }
            assert forall|i: int| 0 <= i < all.len() implies is_ascii_bytes(
                #[trigger] all[i].0,
            ) by {
                if i < base.len() {
                    assert(is_ascii_bytes(base[i].0));
                }
            }
        },
        TransportView::Vsock(cid, port) => {
            lemma_vsock_options((cid, port));
        },
        TransportView::Launchd(env) => {
            lemma_launchd_options(env);
        },
        TransportView::Autolaunch(scope) => {
            lemma_autolaunch_options(scope);
        },
    }
}

impl TransportView {
    /// Whether a client can connect by this transport. A directory to listen
    /// in is for servers only, and abstract sockets are there only where
    /// `abstract_sockets` says so, which is on Linux.
    pub open spec fn connectable(self, abstract_sockets: bool) -> bool {
        match self {
            TransportView::Unix(UnixPathView::Dir(_)) => false,
            TransportView::Unix(UnixPathView::TmpDir(_)) => false,
            TransportView::Unix(UnixPathView::Abstract(_)) => abstract_sockets,
            _ => true,
        }
    }
}

impl Transport {
    /// Says whether a client can connect by this transport, before any
    /// connecting is tried: see [`TransportView::connectable`].
    /// `abstract_sockets` says whether the platform has abstract sockets.
    ///
    /// A transport that a client cannot connect by gives an `Address` error.
    pub fn check_connectable(&self, abstract_sockets: bool) -> (res: Result<(), Error>)
        ensures
            self@.connectable(abstract_sockets) ==> res is Ok,
            !self@.connectable(abstract_sockets) ==> (res matches Err(e) && e is Address),
    {
        match self {
            Transport::Unix(unix) => match unix.path() {
                UnixPath::Dir(_) | UnixPath::TmpDir(_) => Err(
                    Error::Address("listenable addresses are for servers only".to_string()),
                ),
                UnixPath::Abstract(_) => if abstract_sockets {
                    Ok(())
                } else {
                    Err(Error::Address("abstract sockets currently Linux-only".to_string()))
                },
                UnixPath::File(_) => Ok(()),
            },
            _ => Ok(()),
        }
    }

    /// The transport with the name `name` that the options describe. A name
    /// that is that of no transport, and options that do not describe one of
    /// that name, give an `Address` error.
    pub fn from_options(name: &[u8], opts: &Options) -> (res: Result<Self, Error>)
        ensures
            match transport_from(name@, opts@) {
                Some(v) => res matches Ok(t) && t@ == v,
                None => res matches Err(e) && e is Address,
            },
    {
        if bytes_eq(name, unix_word().as_slice()) {
            match Unix::from_options(opts) {
                Ok(t) => Ok(Transport::Unix(t)),
                Err(e) => Err(e),
            }
        } else if bytes_eq(name, tcp_word().as_slice()) {
            match Tcp::from_options(opts) {
                Ok(t) => Ok(Transport::Tcp(t)),
                Err(e) => Err(e),
            }
        } else if bytes_eq(name, nonce_tcp_word().as_slice()) {
            let tcp = match Tcp::from_options(opts) {
                Ok(t) => t,
                Err(e) => {
                    return Err(e);
                },
            };
            match opts.get(noncefile_word().as_slice()) {
                Some(f) => Ok(Transport::NonceTcp(tcp, f.clone())),
                None => Err(Error::Address("nonce-tcp address is missing `noncefile`".to_string())),
            }
        } else if bytes_eq(name, vsock_word().as_slice()) {
            match Vsock::from_options(opts) {
                Ok(t) => Ok(Transport::Vsock(t)),
                Err(e) => Err(e),
            }
        } else if bytes_eq(name, launchd_word().as_slice()) {
            match Launchd::from_options(opts) {
                Ok(t) => Ok(Transport::Launchd(t)),
                Err(e) => Err(e),
            }
        } else if bytes_eq(name, autolaunch_word().as_slice()) {
            match Autolaunch::from_options(opts) {
                Ok(t) => Ok(Transport::Autolaunch(t)),
                Err(e) => Err(e),
            }
        } else {
            Err(Error::Address("unsupported transport".to_string()))
        }
    }

    /// The name of the transport in an address.
    pub fn name(&self) -> (name: Vec<u8>)
        ensures
            name@ == self@.name(),
    {
        match self {
            Transport::Unix(_) => unix_word(),
            Transport::Tcp(_) => tcp_word(),
            Transport::NonceTcp(_, _) => nonce_tcp_word(),
            Transport::Vsock(_) => vsock_word(),
            Transport::Launchd(_) => launchd_word(),
            Transport::Autolaunch(_) => autolaunch_word(),
        }
    }

    /// The options that describe the transport in an address.
    pub fn to_options(&self) -> (opts: Options)
        ensures
            opts@ == self@.options(),
            self@.wf(),
    {
        match self {
            Transport::Unix(t) => t.to_options(),
            Transport::Tcp(t) => t.to_options(),
            Transport::NonceTcp(t, f) => {
                let mut opts = t.to_options();
                opts.add(noncefile_word(), f.clone());
                opts
            },
            Transport::Vsock(t) => t.to_options(),
            Transport::Launchd(t) => t.to_options(),
            Transport::Autolaunch(t) => t.to_options(),
        }
    }
}

} // verus!
