use zbus_core::error::Error;
use zbus_core::names::{
    object_path_ok, signature_ok, BusName, ErrorName, InterfaceName, MemberName, ObjectPath,
    Signature, UniqueName,
};

#[test]
fn interface_names() {
    assert_eq!(
        InterfaceName::try_from("org.gnome.Interface_for_you").unwrap().as_str(),
        "org.gnome.Interface_for_you"
    );
    assert!(InterfaceName::try_from("a.very.loooooooooooooooooo_ooooooo_0000o0ng.Name").is_ok());
    for bad in [
        "",
        ":start.with.a.colon",
        "double..dots",
        ".",
        ".start.with.dot",
        "no-dots",
        "nodots",
        "1st.element.starts.with.digit",
        "the.2nd.element.starts.with.digit",
        "contains.dashes-in.the.name",
        "ends.with.dot.",
    ] {
        assert_eq!(InterfaceName::try_from(bad).unwrap_err(), Error::InvalidField, "{bad}");
    }
    let long = format!("a.{}", "b".repeat(254));
    assert!(InterfaceName::try_from(&long[..255]).is_ok());
    assert!(InterfaceName::try_from(&long).is_err());
    assert!(InterfaceName::from_bytes(b"a.b".to_vec()).is_ok());
    assert!(InterfaceName::from_bytes(vec![b'a', b'.', 0xff]).is_err());
}

#[test]
fn member_names() {
    for good in ["Member_for_you", "CamelCase101", "a_very_loooooooooooooooooo_ooooooo_0000o0ngName", "_"] {
        assert_eq!(MemberName::try_from(good).unwrap().as_str(), good);
    }
    for bad in ["", ".", "1startWith_a_Digit", "contains.dots_in_the_name", "contains-dashes-in_the_name"] {
        assert!(MemberName::try_from(bad).is_err(), "{bad}");
    }
    assert!(MemberName::try_from(&"m".repeat(255)).is_ok());
    assert!(MemberName::try_from(&"m".repeat(256)).is_err());
}

#[test]
fn error_names() {
    assert!(ErrorName::try_from("org.gnome.Error_for_you").is_ok());
    for bad in ["", ":start.with.a.colon", "double..dots", ".", "no-dots", "1st.x", "a.b-c"] {
        assert!(ErrorName::try_from(bad).is_err(), "{bad}");
    }
}

#[test]
fn unique_names() {
    for good in [
        ":org.gnome.Service-for_you",
        ":a.very.loooooooooooooooooo-ooooooo_0000o0ng.Name",
        ":1.84",
        "org.freedesktop.DBus",
    ] {
        assert_eq!(UniqueName::try_from(good).unwrap().as_str(), good);
    }
    for bad in ["", "dont.start.with.a.colon", ":double..dots", ".", ".start.with.dot", ":no-dots", ":", ":a.", "org.freedesktop.DBusX"] {
        assert!(UniqueName::try_from(bad).is_err(), "{bad}");
    }
}

#[test]
fn bus_names() {
    for good in [":1.11", "org.gnome.Service-for_you", "a.b", "org.freedesktop.DBus", "_a.-b"] {
        assert_eq!(BusName::try_from(good).unwrap().as_str(), good);
    }
    for bad in ["", "double..dots", ".", "no-dots", "1st.element.starts.with.digit", "a.2b", ":a"] {
        assert!(BusName::try_from(bad).is_err(), "{bad}");
    }
}

#[test]
fn object_paths() {
    for good in ["/", "/some/path", "/a_1/B", "/org/gnome/SettingsDaemon/Power"] {
        assert_eq!(ObjectPath::try_from(good).unwrap().as_str(), good);
        assert!(object_path_ok(good.as_bytes()));
    }
    for bad in ["", "a", "a/b", "//", "/a//b", "/a/", "/a-b", "/a.b", "/ä"] {
        assert!(ObjectPath::try_from(bad).is_err(), "{bad}");
        assert!(!object_path_ok(bad.as_bytes()));
    }
}

#[test]
fn signatures() {
    for good in ["", "say", "a{sv}", "(iu)", "ybnqiuxtdsoghv"] {
        assert_eq!(Signature::try_from(good).unwrap().as_str(), good);
        assert!(signature_ok(good.as_bytes()));
    }
    for good in ["as", "aas", "a(ii)", "(i(ss))", "a{s(iv)}", "aa{ya{yv}}", "(y)(y)", "v", "((y))"] {
        assert!(Signature::try_from(good).is_ok(), "{good}");
    }
    for bad in [
        "z", "s y", "S", "é", "a", "(", ")", "()", "(i", "i)", "{sv}", "a{sv", "a{vs}", "a{s}",
        "a{ssv}", "a{(i)s}", "a{}", "}", "sa", "(a)", "a)",
    ] {
        assert!(Signature::try_from(bad).is_err(), "{bad}");
        assert!(!signature_ok(bad.as_bytes()), "{bad}");
    }
    // Arrays and structures go 32 deep and no deeper.
    assert!(Signature::try_from(&format!("{}y", "a".repeat(32))).is_ok());
    assert!(Signature::try_from(&format!("{}y", "a".repeat(33))).is_err());
    assert!(Signature::try_from(&format!("{}y{}", "(".repeat(32), ")".repeat(32))).is_ok());
    assert!(Signature::try_from(&format!("{}y{}", "(".repeat(33), ")".repeat(33))).is_err());
    assert!(Signature::try_from(&format!("{}y{}", "a(".repeat(32), ")".repeat(32))).is_ok());
    assert!(Signature::try_from(&"y".repeat(255)).is_ok());
    assert!(Signature::try_from(&"y".repeat(256)).is_err());
    let path = ObjectPath::try_from("/x").unwrap();
    assert_eq!(path.clone(), path);
}

fn alpha(b: u8) -> bool {
    b.is_ascii_alphabetic()
}

fn element(b: u8, dash: bool) -> bool {
    alpha(b) || b.is_ascii_digit() || b == b'_' || (dash && b == b'-')
}

/// Two or more elements with dots between them, as the rules of names say.
fn dotted(s: &[u8], dash: bool, digit_first: bool) -> bool {
    !s.is_empty()
        && *s.last().unwrap() != b'.'
        && s.contains(&b'.')
        && s.iter().all(|b| *b == b'.' || element(*b, dash))
        && (0..s.len()).all(|i| {
            !(i == 0 || s[i - 1] == b'.') || (s[i] != b'.' && (digit_first || !s[i].is_ascii_digit()))
        })
}

fn unique(s: &[u8]) -> bool {
    s.len() <= 255
        && (s == b"org.freedesktop.DBus" || (!s.is_empty() && s[0] == b':' && dotted(&s[1..], true, true)))
}

/// Every string of up to 6 characters over a small alphabet is a name exactly
/// where the rules say so.
#[test]
fn names_follow_the_rules() {
    let alphabet = [b'a', b'Z', b'1', b'_', b'-', b'.', b':', b'/'];
    let mut count = 0u32;
    for len in 0..=6usize {
        let mut idx = vec![0usize; len];
        loop {
            let s: Vec<u8> = idx.iter().map(|i| alphabet[*i]).collect();
            let text = std::str::from_utf8(&s).unwrap();
            let member = !s.is_empty()
                && s.len() <= 255
                && !s[0].is_ascii_digit()
                && s.iter().all(|b| element(*b, false));
            assert_eq!(MemberName::try_from(text).is_ok(), member, "{text}");
            let interface = s.len() <= 255 && dotted(&s, false, false);
            assert_eq!(InterfaceName::try_from(text).is_ok(), interface, "{text}");
            assert_eq!(ErrorName::try_from(text).is_ok(), interface, "{text}");
            assert_eq!(UniqueName::try_from(text).is_ok(), unique(&s), "{text}");
            let bus = unique(&s) || (s.len() <= 255 && dotted(&s, true, false));
            assert_eq!(BusName::try_from(text).is_ok(), bus, "{text}");
            count += 1;
            let mut k = 0;
            while k < len {
                idx[k] += 1;
                if idx[k] < alphabet.len() {
                    break;
                }
                idx[k] = 0;
                k += 1;
            }
            if k == len {
                break;
            }
        }
    }
    assert!(count > 200_000);
    for text in ["org.freedesktop.DBus", "org.freedesktop.DBu", "org.freedesktop.DBusX"] {
        assert_eq!(UniqueName::try_from(text).is_ok(), unique(text.as_bytes()), "{text}");
    }
    for n in [254usize, 255, 256] {
        let long = format!(":a.{}", "b".repeat(n - 3));
        assert_eq!(UniqueName::try_from(&long).is_ok(), n <= 255);
        let long = format!("a.{}", "b".repeat(n - 2));
        assert_eq!(BusName::try_from(&long).is_ok(), n <= 255);
        assert_eq!(ErrorName::try_from(&long).is_ok(), n <= 255);
    }
}
