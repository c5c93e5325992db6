use zbus_core::address::bus::{
    session_addresses, starter_addresses, starter_bus_type, system_addresses, BusType,
};
use zbus_core::address::number::{parse_u32, write_decimal};
use zbus_core::address::options::{read_address, write_address, Options};
use zbus_core::address::percent::{decode_percents, encode_percents};
use zbus_core::address::{
    format_address_list, parse_address_list, Address, Autolaunch, Launchd, Tcp, TcpAddressFamily,
    Transport, Unix, UnixPath, Vsock,
};
use zbus_core::error::{Error, ErrorKind};

fn is_address_error<T: std::fmt::Debug>(r: Result<T, Error>) -> bool {
    matches!(r, Err(e) if e.kind() == ErrorKind::Address)
}

#[test]
fn percent_round_trip_over_all_bytes() {
    let all: Vec<u8> = (0..=255u8).collect();
    let mut encoded = Vec::new();
    encode_percents(&mut encoded, &all);
    assert_eq!(decode_percents(&encoded).unwrap(), all);
    for b in 0..=255u8 {
        let mut e = vec![b'x'];
        encode_percents(&mut e, &[b]);
        assert_eq!(decode_percents(&e[1..]).unwrap(), vec![b]);
    }
}

#[test]
fn percent_exact_values() {
    let mut out = Vec::new();
    encode_percents(&mut out, b"/run/user/1000/bus");
    assert_eq!(out, b"/run/user/1000/bus");
    let mut out = Vec::new();
    encode_percents(&mut out, b"a b:c;d,e=f%\xff\x00");
    assert_eq!(out, b"a%20b%3ac%3bd%2ce%3df%25%ff%00");
    let mut out = Vec::new();
    encode_percents(&mut out, b"-_/.\\*09AZaz");
    assert_eq!(out, b"-_/.\\*09AZaz");
    assert_eq!(decode_percents(b"%41%4a%4A%7e").unwrap(), b"AJJ~");
    assert_eq!(decode_percents(b"").unwrap(), b"");
}

#[test]
fn percent_errors() {
    for bad in [&b"%"[..], b"%4", b"abc%", b"%zz", b"%4g", b"a b", b"a:b", b"a,b", b"~", b"\xff"] {
        assert!(is_address_error(decode_percents(bad)), "{bad:?}");
    }
}

#[test]
fn numbers() {
    assert_eq!(parse_u32(b"0"), Some(0));
    assert_eq!(parse_u32(b"42"), Some(42));
    assert_eq!(parse_u32(b"+42"), Some(42));
    assert_eq!(parse_u32(b"007"), Some(7));
    assert_eq!(parse_u32(b"4294967295"), Some(u32::MAX));
    assert_eq!(parse_u32(b"4294967296"), None);
    assert_eq!(parse_u32(b"99999999999999999999"), None);
    for bad in [&b""[..], b"+", b"-1", b"1a", b" 1", b"1 ", b"++1", b"0x10"] {
        assert_eq!(parse_u32(bad), None, "{bad:?}");
    }
    for n in [0u32, 9, 10, 99, 100, 4096, u32::MAX] {
        let mut out = vec![b'#'];
        write_decimal(&mut out, n);
        assert_eq!(out, format!("#{n}").into_bytes());
        assert_eq!(parse_u32(&out[1..]), Some(n));
    }
}

#[test]
fn options_text() {
    let text = b"unix:path=/tmp/a%20b,guid=0123";
    let (name, options) = read_address(text, 0, text.len()).unwrap();
    assert_eq!(name, b"unix");
    assert_eq!(options.len(), 2);
    assert_eq!(options.get(b"path").unwrap(), b"/tmp/a b");
    assert_eq!(options.get(b"guid").unwrap(), b"0123");
    assert_eq!(options.get(b"other"), None);
    assert!(!options.has_duplicate_keys());
    let mut out = Vec::new();
    write_address(&mut out, &name, &options);
    assert_eq!(out, text);
    let (name, options) = read_address(b"autolaunch:", 0, 11).unwrap();
    assert_eq!(name, b"autolaunch");
    assert_eq!(options, Options::new());
    for bad in [&b"unix"[..], b"unix:path", b"unix:path=a,", b"unix:,path=a", b"unix:path=a,path=b", b"unix:path=%g0", b""] {
        assert!(is_address_error(read_address(bad, 0, bad.len())), "{bad:?}");
    }
}

#[test]
fn unix_addresses() {
    let a = Address::parse("unix:path=/run/user/1000/bus").unwrap();
    assert_eq!(
        a.transport(),
        &Transport::Unix(Unix::new(UnixPath::File(b"/run/user/1000/bus".to_vec())))
    );
    assert_eq!(a.to_string(), "unix:path=/run/user/1000/bus");
    let a = Address::parse("unix:abstract=/tmp/dbus-%4a").unwrap();
    match a.transport() {
        Transport::Unix(u) => assert_eq!(u.path(), &UnixPath::Abstract(b"/tmp/dbus-J".to_vec())),
        other => panic!("{other:?}"),
    }
    assert_eq!(a.to_string(), "unix:abstract=/tmp/dbus-J");
    assert_eq!(
        Address::parse("unix:dir=/tmp").unwrap().transport(),
        &Transport::Unix(Unix::new(UnixPath::Dir(b"/tmp".to_vec())))
    );
    assert_eq!(
        Unix::new(UnixPath::TmpDir(b"/t".to_vec())).take_path(),
        UnixPath::TmpDir(b"/t".to_vec())
    );
    assert_eq!(Address::parse("unix:tmpdir=/t,guid=ab").unwrap().to_string(), "unix:tmpdir=/t");
    for bad in ["unix:", "unix:path=/a,abstract=b", "unix:dir=/a,tmpdir=/b", "unix:foo=bar", "unix:path=/a,dir=/a"] {
        assert!(is_address_error(Address::parse(bad)), "{bad}");
    }
    // A path that is not text is a path all the same.
    let a = Address::parse("unix:path=/tmp/%ff").unwrap();
    assert_eq!(a.to_string(), "unix:path=/tmp/%ff");
}

#[test]
fn vsock_addresses() {
    let a = Address::parse("vsock:cid=98,port=2934").unwrap();
    assert_eq!(a.transport(), &Transport::Vsock(Vsock::new(98, 2934)));
    match a.transport() {
        Transport::Vsock(v) => {
            assert_eq!(v.cid(), 98);
            assert_eq!(v.port(), 2934);
        },
        other => panic!("{other:?}"),
    }
    assert_eq!(a.to_string(), "vsock:cid=98,port=2934");
    assert_eq!(Address::parse("vsock:port=1,cid=2").unwrap().to_string(), "vsock:cid=2,port=1");
    for bad in ["vsock:", "vsock:cid=1", "vsock:port=1", "vsock:cid=a,port=1", "vsock:cid=1,port=4294967296", "vsock:cid=-1,port=1"] {
        assert!(is_address_error(Address::parse(bad)), "{bad}");
    }
}

#[test]
fn launchd_addresses() {
    let a = Address::parse("launchd:env=DBUS_LAUNCHD_SESSION_BUS_SOCKET").unwrap();
    assert_eq!(a.transport(), &Transport::Launchd(Launchd::new("DBUS_LAUNCHD_SESSION_BUS_SOCKET")));
    let launchd = Launchd::new("X");
    assert_eq!(launchd.env(), "X");
    assert_eq!(a.to_string(), "launchd:env=DBUS_LAUNCHD_SESSION_BUS_SOCKET");
    assert!(is_address_error(Address::parse("launchd:")));
    assert!(is_address_error(Address::parse("launchd:env=%ff")));
    // What launchctl printed is the path of the socket, without the white
    // space at its end.
    let unix = launchd.bus_address(true, &b"/private/tmp/bus \r\n".to_vec()).unwrap();
    assert_eq!(unix.path(), &UnixPath::File(b"/private/tmp/bus".to_vec()));
    let unix = launchd.bus_address(true, &b" /a b\t\n".to_vec()).unwrap();
    assert_eq!(unix.path(), &UnixPath::File(b" /a b".to_vec()));
    assert_eq!(
        launchd.bus_address(true, &vec![]).unwrap().path(),
        &UnixPath::File(vec![])
    );
    assert!(is_address_error(launchd.bus_address(false, &b"/tmp/bus\n".to_vec())));
    assert!(is_address_error(launchd.bus_address(true, &vec![b'/', 0xff, b'\n'])));
}

#[test]
fn autolaunch_addresses() {
    let a = Address::parse("autolaunch:").unwrap();
    assert_eq!(a.transport(), &Transport::Autolaunch(Autolaunch::new()));
    assert_eq!(a.to_string(), "autolaunch:");
    let a = Address::parse("autolaunch:scope=*my_cool_scope*").unwrap();
    assert_eq!(
        a.transport(),
        &Transport::Autolaunch(Autolaunch::new().set_scope(Some("*my_cool_scope*")))
    );
    assert_eq!(a.to_string(), "autolaunch:scope=*my_cool_scope*");
    let auto = Autolaunch::new();
    assert_eq!(auto.scope(), None);
    let auto = auto.set_scope(Some("a b"));
    assert_eq!(auto.scope(), Some("a b"));
    assert_eq!(Address::new(Transport::Autolaunch(auto.clone())).to_string(), "autolaunch:scope=a%20b");
    assert_eq!(auto.set_scope(None).scope(), None);
    assert!(is_address_error(Address::parse("autolaunch:scope=%ff")));
}

#[test]
fn tcp_addresses() {
    let a = Address::parse("tcp:host=localhost,port=4142").unwrap();
    assert_eq!(a.transport(), &Transport::Tcp(Tcp::new("localhost", 4142)));
    assert_eq!(a.to_string(), "tcp:host=localhost,port=4142");
    let a = Address::parse("tcp:port=1,family=ipv6,bind=*,host=%3a%3a1").unwrap();
    match a.transport() {
        Transport::Tcp(t) => {
            assert_eq!(t.host(), "::1");
            assert_eq!(t.bind(), Some("*"));
            assert_eq!(t.port(), 1);
            assert_eq!(t.family(), Some(TcpAddressFamily::Ipv6));
        },
        other => panic!("{other:?}"),
    }
    assert_eq!(a.to_string(), "tcp:host=%3a%3a1,bind=*,port=1,family=ipv6");
    let t = Tcp::new("h", 65535).set_family(Some(TcpAddressFamily::Ipv4)).set_bind(None);
    assert_eq!(Address::new(Transport::Tcp(t)).to_string(), "tcp:host=h,port=65535,family=ipv4");
    let a = Address::parse("nonce-tcp:host=h,port=2,noncefile=/tmp/nonce").unwrap();
    assert_eq!(a.transport(), &Transport::NonceTcp(Tcp::new("h", 2), b"/tmp/nonce".to_vec()));
    assert_eq!(a.to_string(), "nonce-tcp:host=h,port=2,noncefile=/tmp/nonce");
    for bad in ["tcp:", "tcp:host=h", "tcp:port=1", "tcp:host=h,port=65536", "tcp:host=h,port=x", "tcp:host=h,port=1,family=ipv5", "tcp:host=%ff,port=1", "nonce-tcp:host=h,port=2"] {
        assert!(is_address_error(Address::parse(bad)), "{bad}");
    }
}

#[test]
fn unknown_transports_and_bad_grammar() {
    for bad in ["", "unix", "foo:bar=baz", "UNIX:path=/a", "unix;path=/a", ":path=/a", "unix:path=/a;", ";unix:path=/a"] {
        assert!(is_address_error(parse_address_list(bad)), "{bad}");
    }
}

#[test]
fn address_lists_round_trip() {
    let text = "unix:path=/run/user/1000/bus;tcp:host=127.0.0.1,port=4142,family=ipv4;\
                vsock:cid=1,port=2;launchd:env=E;autolaunch:scope=s;unix:abstract=%00%ffx;\
                nonce-tcp:host=h,bind=b,port=3,noncefile=/n";
    let list = parse_address_list(text).unwrap();
    assert_eq!(list.len(), 7);
    assert_eq!(list[0], Address::parse("unix:path=/run/user/1000/bus").unwrap());
    assert_eq!(list[2].transport(), &Transport::Vsock(Vsock::new(1, 2)));
    let formatted = format_address_list(&list);
    assert_eq!(formatted, text);
    assert_eq!(parse_address_list(&formatted).unwrap(), list);
    // Options that say nothing about the transport are dropped, and the
    // order of the options is fixed.
    let list = parse_address_list("vsock:port=2,guid=00,cid=1").unwrap();
    let formatted = format_address_list(&list);
    assert_eq!(formatted, "vsock:cid=1,port=2");
    assert_eq!(parse_address_list(&formatted).unwrap(), list);
    assert_eq!(format_address_list(&vec![]), "");
}

#[test]
fn well_known_buses() {
    let system = system_addresses(None).unwrap();
    assert_eq!(system, parse_address_list("unix:path=/var/run/dbus/system_bus_socket").unwrap());
    let system = system_addresses(Some("tcp:host=h,port=1;unix:path=/s")).unwrap();
    assert_eq!(system.len(), 2);
    assert_eq!(system[1].to_string(), "unix:path=/s");
    assert!(is_address_error(system_addresses(Some("nonsense"))));
    let session = session_addresses(None, b"/run/user/1000").unwrap();
    assert_eq!(session, parse_address_list("unix:path=/run/user/1000/bus").unwrap());
    let session = session_addresses(Some("unix:abstract=a"), b"/run/user/1000").unwrap();
    assert_eq!(session[0].to_string(), "unix:abstract=a");
    assert!(is_address_error(session_addresses(Some(""), b"/run/user/1000")));
    assert!(starter_addresses(None).is_none());
    assert_eq!(
        starter_addresses(Some("unix:path=/x")).unwrap().unwrap(),
        parse_address_list("unix:path=/x").unwrap()
    );
    assert!(is_address_error(starter_addresses(Some("x")).unwrap()));
    assert_eq!(starter_bus_type(Some("session")), Some(BusType::Session));
    assert_eq!(starter_bus_type(Some("system")), Some(BusType::System));
    assert_eq!(starter_bus_type(Some("System")), None);
    assert_eq!(starter_bus_type(Some("")), None);
    assert_eq!(starter_bus_type(None), None);
}

#[test]
fn what_a_client_can_connect_by() {
    for (text, everywhere, with_abstract) in [
        ("unix:path=/a", true, true),
        ("unix:abstract=a", false, true),
        ("unix:dir=/a", false, false),
        ("unix:tmpdir=/a", false, false),
        ("tcp:host=h,port=1", true, true),
        ("nonce-tcp:host=h,port=1,noncefile=/n", true, true),
        ("vsock:cid=1,port=2", true, true),
        ("launchd:env=E", true, true),
        ("autolaunch:", true, true),
    ] {
        let a = Address::parse(text).unwrap();
        assert_eq!(a.transport().check_connectable(false).is_ok(), everywhere, "{text}");
        assert_eq!(a.transport().check_connectable(true).is_ok(), with_abstract, "{text}");
        if !with_abstract {
            assert!(is_address_error(a.transport().check_connectable(true)));
        }
    }
}
