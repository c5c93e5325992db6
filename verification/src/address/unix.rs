use vstd::prelude::*;
use crate::address::options::{lookup, Options, Pair};
use crate::address::words::{
    abstract_bytes, abstract_word, dir_bytes, dir_word, lemma_keys_distinct, path_bytes,
    path_word, tmpdir_bytes, tmpdir_word,
};
use crate::error::Error;

verus! {

/// A Unix domain socket path in a D-Bus address.
#[derive(Clone, Debug, PartialEq, Eq)]
pub enum UnixPath {
    /// A path to a unix domain socket on the filesystem.
    File(Vec<u8>),
    /// An abstract unix domain socket name.
    Abstract(Vec<u8>),
    /// A listenable address using the specified path, in which a socket file
    /// with a random file name starting with 'dbus-' will be created by the
    /// server.
    ///
    /// This address is mostly relevant to server (typically bus broker)
    /// implementations.
    Dir(Vec<u8>),
    /// The same as `Dir`, except that on platforms with abstract sockets, the
    /// server may attempt to create an abstract socket whose name starts with
    /// this directory instead of a path-based socket.
    ///
    /// This address is mostly relevant to server (typically bus broker)
    /// implementations.
    TmpDir(Vec<u8>),
}

/// What a Unix socket path says, as plain values.
pub enum UnixPathView {
    /// The path of a socket on the filesystem.
    File(Seq<u8>),
    /// The name of an abstract socket.
    Abstract(Seq<u8>),
    /// The directory that a server makes its socket in.
    Dir(Seq<u8>),
    /// The directory that a server makes its socket in, or names its
    /// abstract socket after.
    TmpDir(Seq<u8>),
}

impl View for UnixPath {
    type V = UnixPathView;

    open spec fn view(&self) -> UnixPathView {
        match self {
            UnixPath::File(p) => UnixPathView::File(p@),
            UnixPath::Abstract(p) => UnixPathView::Abstract(p@),
            UnixPath::Dir(p) => UnixPathView::Dir(p@),
            UnixPath::TmpDir(p) => UnixPathView::TmpDir(p@),
        }
    }
}

/// The Unix transport that the options describe: exactly one of `path`,
/// `abstract`, `dir` and `tmpdir` has to be among them.
pub open spec fn unix_from(pairs: Seq<Pair>) -> Option<UnixPathView> {
    match (
        lookup(pairs, path_bytes()),
        lookup(pairs, abstract_bytes()),
        lookup(pairs, dir_bytes()),
        lookup(pairs, tmpdir_bytes()),
    ) {
        (Some(p), None, None, None) => Some(UnixPathView::File(p)),
        (None, Some(p), None, None) => Some(UnixPathView::Abstract(p)),
        (None, None, Some(p), None) => Some(UnixPathView::Dir(p)),
        (None, None, None, Some(p)) => Some(UnixPathView::TmpDir(p)),
        _ => None,
    }
}

/// The options that describe a Unix transport.
pub open spec fn unix_options(v: UnixPathView) -> Seq<Pair> {
    match v {
        UnixPathView::File(p) => seq![(path_bytes(), p)],
        UnixPathView::Abstract(p) => seq![(abstract_bytes(), p)],
        UnixPathView::Dir(p) => seq![(dir_bytes(), p)],
        UnixPathView::TmpDir(p) => seq![(tmpdir_bytes(), p)],
    }
}

/// The options that describe a Unix transport describe that transport.
pub proof fn lemma_unix_options(v: UnixPathView)
    ensures
        unix_from(unix_options(v)) == Some(v),
{
    lemma_keys_distinct();
    reveal_with_fuel(lookup, 3);
}

/// A Unix domain socket transport in a D-Bus address.
#[derive(Clone, Debug, PartialEq, Eq)]
pub struct Unix {
    path: UnixPath,
}

impl View for Unix {
    type V = UnixPathView;

    closed spec fn view(&self) -> UnixPathView {
        self.path@
    }
}

impl Unix {
    /// Create a new Unix transport with the given path.
    pub fn new(path: UnixPath) -> (unix: Self)
        ensures
            unix@ == path@,
    {
        Self { path }
    }

    /// The path.
    pub fn path(&self) -> (path: &UnixPath)
        ensures
            path@ == self@,
    {
        &self.path
    }

    /// Take the path, consuming `self`.
    pub fn take_path(self) -> (path: UnixPath)
        ensures
            path@ == self@,
    {
        self.path
    }

    /// The Unix transport that the options describe. Anything but exactly
    /// one of `path`, `abstract`, `dir` and `tmpdir` gives an `Address`
    /// error.
    pub fn from_options(opts: &Options) -> (res: Result<Self, Error>)
        ensures
            match unix_from(opts@) {
                Some(v) => res matches Ok(unix) && unix@ == v,
                None => res matches Err(e) && e is Address,
            },
    {
        let path = opts.get(path_word().as_slice());
        let abs = opts.get(abstract_word().as_slice());
        let dir = opts.get(dir_word().as_slice());
        let tmpdir = opts.get(tmpdir_word().as_slice());
        let path = match (path, abs, dir, tmpdir) {
            (Some(p), None, None, None) => UnixPath::File(p.clone()),
            (None, Some(p), None, None) => UnixPath::Abstract(p.clone()),
            (None, None, Some(p), None) => UnixPath::Dir(p.clone()),
            (None, None, None, Some(p)) => UnixPath::TmpDir(p.clone()),
            _ => {
                return Err(Error::Address("unix: address is invalid".to_string()));
            },
        };
        Ok(Self::new(path))
    }

    /// The options that describe this transport.
    pub fn to_options(&self) -> (opts: Options)
        ensures
            opts@ == unix_options(self@),
    {
        let mut opts = Options::new();
        match &self.path {
            UnixPath::File(p) => opts.add(path_word(), p.clone()),
            UnixPath::Abstract(p) => opts.add(abstract_word(), p.clone()),
            UnixPath::Dir(p) => opts.add(dir_word(), p.clone()),
            UnixPath::TmpDir(p) => opts.add(tmpdir_word(), p.clone()),
        }
        opts
    }
}

} // verus!
