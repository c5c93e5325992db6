//! The words of the address grammar: the names of the transports and the
//! keys of their options.

use vstd::prelude::*;
use crate::address::options::{is_ascii_bytes, is_word};

verus! {

/// The bytes of `unix`, the name of the Unix domain socket transport.
pub open spec fn unix_bytes() -> Seq<u8> {
    seq![0x75, 0x6e, 0x69, 0x78]
}

/// The bytes of `unix`.
pub fn unix_word() -> (w: Vec<u8>)
    ensures
        w@ == unix_bytes(),
{
    vec![0x75, 0x6e, 0x69, 0x78]
}

/// The bytes of `tcp`, the name of the TCP transport.
pub open spec fn tcp_bytes() -> Seq<u8> {
    seq![0x74, 0x63, 0x70]
}

/// The bytes of `tcp`.
pub fn tcp_word() -> (w: Vec<u8>)
    ensures
        w@ == tcp_bytes(),
{
    vec![0x74, 0x63, 0x70]
}

/// The bytes of `nonce-tcp`, the name of the TCP transport with a nonce file.
pub open spec fn nonce_tcp_bytes() -> Seq<u8> {
    seq![0x6e, 0x6f, 0x6e, 0x63, 0x65, 0x2d, 0x74, 0x63, 0x70]
}

/// The bytes of `nonce-tcp`.
pub fn nonce_tcp_word() -> (w: Vec<u8>)
    ensures
        w@ == nonce_tcp_bytes(),
{
    vec![0x6e, 0x6f, 0x6e, 0x63, 0x65, 0x2d, 0x74, 0x63, 0x70]
}

/// The bytes of `vsock`, the name of the VSOCK transport.
pub open spec fn vsock_bytes() -> Seq<u8> {
    seq![0x76, 0x73, 0x6f, 0x63, 0x6b]
}

/// The bytes of `vsock`.
pub fn vsock_word() -> (w: Vec<u8>)
    ensures
        w@ == vsock_bytes(),
{
    vec![0x76, 0x73, 0x6f, 0x63, 0x6b]
}

/// The bytes of `launchd`, the name of the launchd transport.
pub open spec fn launchd_bytes() -> Seq<u8> {
    seq![0x6c, 0x61, 0x75, 0x6e, 0x63, 0x68, 0x64]
}

/// The bytes of `launchd`.
pub fn launchd_word() -> (w: Vec<u8>)
    ensures
        w@ == launchd_bytes(),
{
    vec![0x6c, 0x61, 0x75, 0x6e, 0x63, 0x68, 0x64]
}

/// The bytes of `autolaunch`, the name of the autolaunch transport.
pub open spec fn autolaunch_bytes() -> Seq<u8> {
    seq![0x61, 0x75, 0x74, 0x6f, 0x6c, 0x61, 0x75, 0x6e, 0x63, 0x68]
}

/// The bytes of `autolaunch`.
pub fn autolaunch_word() -> (w: Vec<u8>)
    ensures
        w@ == autolaunch_bytes(),
{
    vec![0x61, 0x75, 0x74, 0x6f, 0x6c, 0x61, 0x75, 0x6e, 0x63, 0x68]
}

/// The bytes of `path`, the key of the path of a socket.
pub open spec fn path_bytes() -> Seq<u8> {
    seq![0x70, 0x61, 0x74, 0x68]
}

/// The bytes of `path`.
pub fn path_word() -> (w: Vec<u8>)
    ensures
        w@ == path_bytes(),
{
    vec![0x70, 0x61, 0x74, 0x68]
}

/// The bytes of `abstract`, the key of the name of an abstract socket.
pub open spec fn abstract_bytes() -> Seq<u8> {
    seq![0x61, 0x62, 0x73, 0x74, 0x72, 0x61, 0x63, 0x74]
}

/// The bytes of `abstract`.
pub fn abstract_word() -> (w: Vec<u8>)
    ensures
        w@ == abstract_bytes(),
{
    vec![0x61, 0x62, 0x73, 0x74, 0x72, 0x61, 0x63, 0x74]
}

/// The bytes of `dir`, the key of a directory to listen in.
pub open spec fn dir_bytes() -> Seq<u8> {
    seq![0x64, 0x69, 0x72]
}

/// The bytes of `dir`.
pub fn dir_word() -> (w: Vec<u8>)
    ensures
        w@ == dir_bytes(),
{
    vec![0x64, 0x69, 0x72]
}

/// The bytes of `tmpdir`, the key of a temporary directory to listen in.
pub open spec fn tmpdir_bytes() -> Seq<u8> {
    seq![0x74, 0x6d, 0x70, 0x64, 0x69, 0x72]
}

/// The bytes of `tmpdir`.
pub fn tmpdir_word() -> (w: Vec<u8>)
    ensures
        w@ == tmpdir_bytes(),
{
    vec![0x74, 0x6d, 0x70, 0x64, 0x69, 0x72]
}

/// The bytes of `host`, the key of the host.
pub open spec fn host_bytes() -> Seq<u8> {
    seq![0x68, 0x6f, 0x73, 0x74]
}

/// The bytes of `host`.
pub fn host_word() -> (w: Vec<u8>)
    ensures
        w@ == host_bytes(),
{
    vec![0x68, 0x6f, 0x73, 0x74]
}

/// The bytes of `bind`, the key of the address to bind to.
pub open spec fn bind_bytes() -> Seq<u8> {
    seq![0x62, 0x69, 0x6e, 0x64]
}

/// The bytes of `bind`.
pub fn bind_word() -> (w: Vec<u8>)
    ensures
        w@ == bind_bytes(),
{
    vec![0x62, 0x69, 0x6e, 0x64]
}

/// The bytes of `port`, the key of the port.
pub open spec fn port_bytes() -> Seq<u8> {
    seq![0x70, 0x6f, 0x72, 0x74]
}

/// The bytes of `port`.
pub fn port_word() -> (w: Vec<u8>)
    ensures
        w@ == port_bytes(),
{
    vec![0x70, 0x6f, 0x72, 0x74]
}

/// The bytes of `family`, the key of the address family.
pub open spec fn family_bytes() -> Seq<u8> {
    seq![0x66, 0x61, 0x6d, 0x69, 0x6c, 0x79]
}

/// The bytes of `family`.
pub fn family_word() -> (w: Vec<u8>)
    ensures
        w@ == family_bytes(),
{
    vec![0x66, 0x61, 0x6d, 0x69, 0x6c, 0x79]
}

/// The bytes of `noncefile`, the key of the nonce file.
pub open spec fn noncefile_bytes() -> Seq<u8> {
    seq![0x6e, 0x6f, 0x6e, 0x63, 0x65, 0x66, 0x69, 0x6c, 0x65]
}

/// The bytes of `noncefile`.
pub fn noncefile_word() -> (w: Vec<u8>)
    ensures
        w@ == noncefile_bytes(),
{
    vec![0x6e, 0x6f, 0x6e, 0x63, 0x65, 0x66, 0x69, 0x6c, 0x65]
}

/// The bytes of `cid`, the key of the context identifier.
pub open spec fn cid_bytes() -> Seq<u8> {
    seq![0x63, 0x69, 0x64]
}

/// The bytes of `cid`.
pub fn cid_word() -> (w: Vec<u8>)
    ensures
        w@ == cid_bytes(),
{
    vec![0x63, 0x69, 0x64]
}

/// The bytes of `env`, the key of the environment variable.
pub open spec fn env_bytes() -> Seq<u8> {
    seq![0x65, 0x6e, 0x76]
}

/// The bytes of `env`.
pub fn env_word() -> (w: Vec<u8>)
    ensures
        w@ == env_bytes(),
{
    vec![0x65, 0x6e, 0x76]
}

/// The bytes of `scope`, the key of the scope.
pub open spec fn scope_bytes() -> Seq<u8> {
    seq![0x73, 0x63, 0x6f, 0x70, 0x65]
}

/// The bytes of `scope`.
pub fn scope_word() -> (w: Vec<u8>)
    ensures
        w@ == scope_bytes(),
{
    vec![0x73, 0x63, 0x6f, 0x70, 0x65]
}

/// The bytes of `ipv4`, the address family of IPv4.
pub open spec fn ipv4_bytes() -> Seq<u8> {
    seq![0x69, 0x70, 0x76, 0x34]
}

/// The bytes of `ipv4`.
pub fn ipv4_word() -> (w: Vec<u8>)
    ensures
        w@ == ipv4_bytes(),
{
    vec![0x69, 0x70, 0x76, 0x34]
}

/// The bytes of `ipv6`, the address family of IPv6.
pub open spec fn ipv6_bytes() -> Seq<u8> {
    seq![0x69, 0x70, 0x76, 0x36]
}

/// The bytes of `ipv6`.
pub fn ipv6_word() -> (w: Vec<u8>)
    ensures
        w@ == ipv6_bytes(),
{
    vec![0x69, 0x70, 0x76, 0x36]
}

/// Every word of the grammar is a word: it holds none of the characters
/// that part an address. And it is ASCII.
pub proof fn lemma_words()
    ensures
        is_word(unix_bytes()),
        is_word(tcp_bytes()),
        is_word(nonce_tcp_bytes()),
        is_word(vsock_bytes()),
        is_word(launchd_bytes()),
        is_word(autolaunch_bytes()),
        is_word(path_bytes()),
        is_word(abstract_bytes()),
        is_word(dir_bytes()),
        is_word(tmpdir_bytes()),
        is_word(host_bytes()),
        is_word(bind_bytes()),
        is_word(port_bytes()),
        is_word(family_bytes()),
        is_word(noncefile_bytes()),
        is_word(cid_bytes()),
        is_word(env_bytes()),
        is_word(scope_bytes()),
        is_word(ipv4_bytes()),
        is_word(ipv6_bytes()),
        is_ascii_bytes(unix_bytes()),
        is_ascii_bytes(tcp_bytes()),
        is_ascii_bytes(nonce_tcp_bytes()),
        is_ascii_bytes(vsock_bytes()),
        is_ascii_bytes(launchd_bytes()),
        is_ascii_bytes(autolaunch_bytes()),
        is_ascii_bytes(path_bytes()),
        is_ascii_bytes(abstract_bytes()),
        is_ascii_bytes(dir_bytes()),
        is_ascii_bytes(tmpdir_bytes()),
        is_ascii_bytes(host_bytes()),
        is_ascii_bytes(bind_bytes()),
        is_ascii_bytes(port_bytes()),
        is_ascii_bytes(family_bytes()),
        is_ascii_bytes(noncefile_bytes()),
        is_ascii_bytes(cid_bytes()),
        is_ascii_bytes(env_bytes()),
        is_ascii_bytes(scope_bytes()),
        is_ascii_bytes(ipv4_bytes()),
        is_ascii_bytes(ipv6_bytes()),
{
}

/// No two transports have the same name.
pub proof fn lemma_names_distinct()
    ensures
        unix_bytes() != tcp_bytes(),
        unix_bytes() != nonce_tcp_bytes(),
        unix_bytes() != vsock_bytes(),
        unix_bytes() != launchd_bytes(),
        unix_bytes() != autolaunch_bytes(),
        tcp_bytes() != nonce_tcp_bytes(),
        tcp_bytes() != vsock_bytes(),
        tcp_bytes() != launchd_bytes(),
        tcp_bytes() != autolaunch_bytes(),
        nonce_tcp_bytes() != vsock_bytes(),
        nonce_tcp_bytes() != launchd_bytes(),
        nonce_tcp_bytes() != autolaunch_bytes(),
        vsock_bytes() != launchd_bytes(),
        vsock_bytes() != autolaunch_bytes(),
        launchd_bytes() != autolaunch_bytes(),
{
    assert(unix_bytes().len() != tcp_bytes().len());
    assert(unix_bytes().len() != nonce_tcp_bytes().len());
    assert(unix_bytes().len() != vsock_bytes().len());
    assert(unix_bytes().len() != launchd_bytes().len());
    assert(unix_bytes().len() != autolaunch_bytes().len());
    assert(tcp_bytes().len() != nonce_tcp_bytes().len());
    assert(tcp_bytes().len() != vsock_bytes().len());
    assert(tcp_bytes().len() != launchd_bytes().len());
    assert(tcp_bytes().len() != autolaunch_bytes().len());
    assert(nonce_tcp_bytes().len() != vsock_bytes().len());
    assert(nonce_tcp_bytes().len() != launchd_bytes().len());
    assert(nonce_tcp_bytes().len() != autolaunch_bytes().len());
    assert(vsock_bytes().len() != launchd_bytes().len());
    assert(vsock_bytes().len() != autolaunch_bytes().len());
    assert(launchd_bytes().len() != autolaunch_bytes().len());
}

/// No two keys are the same.
pub proof fn lemma_keys_distinct()
    ensures
        path_bytes() != abstract_bytes(),
        path_bytes() != dir_bytes(),
        path_bytes() != tmpdir_bytes(),
        path_bytes() != host_bytes(),
        path_bytes() != bind_bytes(),
        path_bytes() != port_bytes(),
        path_bytes() != family_bytes(),
        path_bytes() != noncefile_bytes(),
        path_bytes() != cid_bytes(),
        path_bytes() != env_bytes(),
        path_bytes() != scope_bytes(),
        abstract_bytes() != dir_bytes(),
        abstract_bytes() != tmpdir_bytes(),
        abstract_bytes() != host_bytes(),
        abstract_bytes() != bind_bytes(),
        abstract_bytes() != port_bytes(),
        abstract_bytes() != family_bytes(),
        abstract_bytes() != noncefile_bytes(),
        abstract_bytes() != cid_bytes(),
        abstract_bytes() != env_bytes(),
        abstract_bytes() != scope_bytes(),
        dir_bytes() != tmpdir_bytes(),
        dir_bytes() != host_bytes(),
        dir_bytes() != bind_bytes(),
        dir_bytes() != port_bytes(),
        dir_bytes() != family_bytes(),
        dir_bytes() != noncefile_bytes(),
        dir_bytes() != cid_bytes(),
        dir_bytes() != env_bytes(),
        dir_bytes() != scope_bytes(),
        tmpdir_bytes() != host_bytes(),
        tmpdir_bytes() != bind_bytes(),
        tmpdir_bytes() != port_bytes(),
        tmpdir_bytes() != family_bytes(),
        tmpdir_bytes() != noncefile_bytes(),
        tmpdir_bytes() != cid_bytes(),
        tmpdir_bytes() != env_bytes(),
        tmpdir_bytes() != scope_bytes(),
        host_bytes() != bind_bytes(),
        host_bytes() != port_bytes(),
        host_bytes() != family_bytes(),
        host_bytes() != noncefile_bytes(),
        host_bytes() != cid_bytes(),
        host_bytes() != env_bytes(),
        host_bytes() != scope_bytes(),
        bind_bytes() != port_bytes(),
        bind_bytes() != family_bytes(),
        bind_bytes() != noncefile_bytes(),
        bind_bytes() != cid_bytes(),
        bind_bytes() != env_bytes(),
        bind_bytes() != scope_bytes(),
        port_bytes() != family_bytes(),
        port_bytes() != noncefile_bytes(),
        port_bytes() != cid_bytes(),
        port_bytes() != env_bytes(),
        port_bytes() != scope_bytes(),
        family_bytes() != noncefile_bytes(),
        family_bytes() != cid_bytes(),
        family_bytes() != env_bytes(),
        family_bytes() != scope_bytes(),
        noncefile_bytes() != cid_bytes(),
        noncefile_bytes() != env_bytes(),
        noncefile_bytes() != scope_bytes(),
        cid_bytes() != env_bytes(),
        cid_bytes() != scope_bytes(),
        env_bytes() != scope_bytes(),
{
    assert(path_bytes().len() != abstract_bytes().len());
    assert(path_bytes().len() != dir_bytes().len());
    assert(path_bytes().len() != tmpdir_bytes().len());
    assert(path_bytes()[0] != host_bytes()[0]);
    assert(path_bytes()[0] != bind_bytes()[0]);
    assert(path_bytes()[1] != port_bytes()[1]);
    assert(path_bytes().len() != family_bytes().len());
    assert(path_bytes().len() != noncefile_bytes().len());
    assert(path_bytes().len() != cid_bytes().len());
    assert(path_bytes().len() != env_bytes().len());
    assert(path_bytes().len() != scope_bytes().len());
    assert(abstract_bytes().len() != dir_bytes().len());
    assert(abstract_bytes().len() != tmpdir_bytes().len());
    assert(abstract_bytes().len() != host_bytes().len());
    assert(abstract_bytes().len() != bind_bytes().len());
    assert(abstract_bytes().len() != port_bytes().len());
    assert(abstract_bytes().len() != family_bytes().len());
    assert(abstract_bytes().len() != noncefile_bytes().len());
    assert(abstract_bytes().len() != cid_bytes().len());
    assert(abstract_bytes().len() != env_bytes().len());
    assert(abstract_bytes().len() != scope_bytes().len());
    assert(dir_bytes().len() != tmpdir_bytes().len());
    assert(dir_bytes().len() != host_bytes().len());
    assert(dir_bytes().len() != bind_bytes().len());
    assert(dir_bytes().len() != port_bytes().len());
    assert(dir_bytes().len() != family_bytes().len());
    assert(dir_bytes().len() != noncefile_bytes().len());
    assert(dir_bytes()[0] != cid_bytes()[0]);
    assert(dir_bytes()[0] != env_bytes()[0]);
    assert(dir_bytes().len() != scope_bytes().len());
    assert(tmpdir_bytes().len() != host_bytes().len());
    assert(tmpdir_bytes().len() != bind_bytes().len());
    assert(tmpdir_bytes().len() != port_bytes().len());
    assert(tmpdir_bytes()[0] != family_bytes()[0]);
    assert(tmpdir_bytes().len() != noncefile_bytes().len());
    assert(tmpdir_bytes().len() != cid_bytes().len());
    assert(tmpdir_bytes().len() != env_bytes().len());
    assert(tmpdir_bytes().len() != scope_bytes().len());
    assert(host_bytes()[0] != bind_bytes()[0]);
    assert(host_bytes()[0] != port_bytes()[0]);
    assert(host_bytes().len() != family_bytes().len());
    assert(host_bytes().len() != noncefile_bytes().len());
    assert(host_bytes().len() != cid_bytes().len());
    assert(host_bytes().len() != env_bytes().len());
    assert(host_bytes().len() != scope_bytes().len());
    assert(bind_bytes()[0] != port_bytes()[0]);
    assert(bind_bytes().len() != family_bytes().len());
    assert(bind_bytes().len() != noncefile_bytes().len());
    assert(bind_bytes().len() != cid_bytes().len());
    assert(bind_bytes().len() != env_bytes().len());
    assert(bind_bytes().len() != scope_bytes().len());
    assert(port_bytes().len() != family_bytes().len());
    assert(port_bytes().len() != noncefile_bytes().len());
    assert(port_bytes().len() != cid_bytes().len());
    assert(port_bytes().len() != env_bytes().len());
    assert(port_bytes().len() != scope_bytes().len());
    assert(family_bytes().len() != noncefile_bytes().len());
    assert(family_bytes().len() != cid_bytes().len());
    assert(family_bytes().len() != env_bytes().len());
    assert(family_bytes().len() != scope_bytes().len());
    assert(noncefile_bytes().len() != cid_bytes().len());
    assert(noncefile_bytes().len() != env_bytes().len());
    assert(noncefile_bytes().len() != scope_bytes().len());
    assert(cid_bytes()[0] != env_bytes()[0]);
    assert(cid_bytes().len() != scope_bytes().len());
    assert(env_bytes().len() != scope_bytes().len());
}

/// The two address families have different names.
pub proof fn lemma_families_distinct()
    ensures
        ipv4_bytes() != ipv6_bytes(),
{
    assert(ipv4_bytes()[3] != ipv6_bytes()[3]);
}

} // verus!
