use std::sync::Arc;
use zbus_core::blocking::MessageIterator;
use zbus_core::byte_order::native_endian_sig;
use zbus_core::connection::mux::{Dispatch, Multiplexer, StreamItem, DEFAULT_MAX_QUEUED};
use zbus_core::error::{Error, ErrorKind};
use zbus_core::match_rule::MatchRule;
use zbus_core::message::body::read_string_arg;
use zbus_core::message::fields::{Field, Fields};
use zbus_core::message::header::{EndianSig, FlagSet, Flags, Type};
use zbus_core::message::Message;
use zbus_core::message_stream::MessageStream;
use zbus_core::names::{
    BusName, ErrorName, InterfaceName, MemberName, ObjectPath, Signature, UniqueName,
};

fn call(member: &str) -> Message {
    Message::method(
        None,
        Some(BusName::try_from("org.freedesktop.DBus").unwrap()),
        ObjectPath::try_from("/org/freedesktop/DBus").unwrap(),
        Some(InterfaceName::try_from("org.freedesktop.DBus").unwrap()),
        MemberName::try_from(member).unwrap(),
        None,
        &[],
        vec![],
    )
    .unwrap()
}

fn reply_to(serial: u32) -> Arc<Message> {
    Arc::new(Message::method_reply(None, None, serial, None, &[], vec![]).unwrap().with_serial(900))
}

fn string_body(args: &[&str]) -> Vec<u8> {
    let le = native_endian_sig() == EndianSig::Little;
    let mut body = Vec::new();
    for a in args {
        while body.len() % 4 != 0 {
            body.push(0);
        }
        let n = a.len() as u32;
        body.extend_from_slice(&if le { n.to_le_bytes() } else { n.to_be_bytes() });
        body.extend_from_slice(a.as_bytes());
        body.push(0);
    }
    body
}

fn name_owner_changed(name: &str, old: &str, new: &str) -> Arc<Message> {
    Arc::new(
        Message::signal(
            Some(UniqueName::try_from("org.freedesktop.DBus").unwrap()),
            None,
            ObjectPath::try_from("/org/freedesktop/DBus").unwrap(),
            InterfaceName::try_from("org.freedesktop.DBus").unwrap(),
            MemberName::try_from("NameOwnerChanged").unwrap(),
            Some(Signature::try_from("sss").unwrap()),
            &string_body(&[name, old, new]),
            vec![],
        )
        .unwrap(),
    )
}

fn name_owner_rule(name: &str) -> MatchRule {
    MatchRule::new()
        .msg_type(Type::Signal)
        .sender(BusName::try_from("org.freedesktop.DBus").unwrap())
        .interface(InterfaceName::try_from("org.freedesktop.DBus").unwrap())
        .member(MemberName::try_from("NameOwnerChanged").unwrap())
        .arg(0, name)
        .unwrap()
}

#[test]
fn serials_are_distinct_and_not_zero() {
    let mut mux = Multiplexer::new(true, false);
    let mut seen = std::collections::HashSet::new();
    for i in 1..=1000u32 {
        let s = mux.next_serial();
        assert_eq!(s, i);
        assert_ne!(s, 0);
        assert!(seen.insert(s));
    }
    let mut calls = Vec::new();
    for _ in 0..10 {
        let p = mux.prepare_call(call("Hello")).unwrap();
        assert!(p.awaits_reply);
        assert_ne!(p.serial, 0);
        assert_eq!(p.msg.serial_num(), Some(p.serial));
        assert!(mux.is_pending(p.serial));
        assert!(seen.insert(p.serial));
        calls.push(p.serial);
    }
    assert_eq!(mux.pending_len(), 10);
}

#[test]
fn no_reply_expected_leaves_no_slot() {
    let mut mux = Multiplexer::new(true, false);
    let mut f = Fields::new();
    f.add(Field::Path(ObjectPath::try_from("/").unwrap()));
    f.add(Field::Member(MemberName::try_from("Ping").unwrap()));
    let m = Message::encode(
        Type::MethodCall,
        FlagSet::empty().insert(Flags::NoReplyExpected),
        f,
        None,
        &[],
        vec![],
    )
    .unwrap();
    let p = mux.prepare_call(m).unwrap();
    assert!(!p.awaits_reply);
    assert_eq!(p.serial, 1);
    assert_eq!(mux.pending_len(), 0);
    // A signal expects no reply either.
    let s = Message::signal(
        None,
        None,
        ObjectPath::try_from("/").unwrap(),
        InterfaceName::try_from("a.b").unwrap(),
        MemberName::try_from("S").unwrap(),
        None,
        &[],
        vec![],
    )
    .unwrap();
    let p = mux.prepare_call(s).unwrap();
    assert!(!p.awaits_reply);
    assert_eq!(p.serial, 2);
    assert_eq!(mux.pending_len(), 0);
}

#[test]
fn replies_find_their_calls() {
    let mut mux = Multiplexer::new(true, false);
    let a = mux.prepare_call(call("A")).unwrap().serial;
    let b = mux.prepare_call(call("B")).unwrap().serial;
    // Replies are told apart by the serial number, not by their order.
    assert_eq!(mux.dispatch(reply_to(b)), Dispatch::Reply(b));
    assert!(!mux.is_pending(b));
    assert!(mux.is_pending(a));
    // A second reply to the same call is forgotten.
    assert_eq!(mux.dispatch(reply_to(b)), Dispatch::Dropped);
    // An error is a reply too.
    let error = Arc::new(
        Message::method_error(
            None,
            None,
            a,
            ErrorName::try_from("org.zbus.Error").unwrap(),
            None,
            &[],
            vec![],
        )
        .unwrap(),
    );
    assert_eq!(mux.dispatch(error), Dispatch::Reply(a));
    assert_eq!(mux.pending_len(), 0);
    // A reply to a call that was never made.
    assert_eq!(mux.dispatch(reply_to(77)), Dispatch::Dropped);
}

#[test]
fn cancelled_calls_get_no_reply() {
    let mut mux = Multiplexer::new(true, false);
    let a = mux.prepare_call(call("A")).unwrap().serial;
    assert!(mux.cancel_call(a));
    assert!(!mux.cancel_call(a));
    assert!(!mux.is_pending(a));
    assert_eq!(mux.dispatch(reply_to(a)), Dispatch::Dropped);
}

#[test]
fn method_calls_go_to_the_object_server() {
    let incoming = Arc::new(call("Introspect").with_serial(5));
    let mut without = Multiplexer::new(true, false);
    assert_eq!(without.dispatch(incoming.clone()), Dispatch::UnknownMethod);
    let mut with = Multiplexer::new(true, true);
    assert_eq!(with.dispatch(incoming), Dispatch::MethodCall);
    let invalid = Arc::new(
        Message::encode(Type::Invalid, FlagSet::empty(), Fields::new(), None, &[], vec![]).unwrap(),
    );
    assert_eq!(with.dispatch(invalid), Dispatch::Dropped);
}

#[test]
fn unknown_methods_are_answered() {
    let incoming = Message::method(
        Some(UniqueName::try_from(":1.7").unwrap()),
        None,
        ObjectPath::try_from("/").unwrap(),
        None,
        MemberName::try_from("Nope").unwrap(),
        None,
        &[],
        vec![],
    )
    .unwrap();
    // A call without a serial number cannot be answered.
    assert_eq!(Message::unknown_method(&incoming).unwrap_err(), Error::MissingField);
    let incoming = incoming.with_serial(31);
    let reply = Message::unknown_method(&incoming).unwrap();
    assert_eq!(reply.message_type(), Type::Error);
    assert_eq!(reply.reply_serial(), Some(31));
    let h = reply.header();
    assert_eq!(
        h.error_name().unwrap().unwrap().as_str(),
        "org.freedesktop.DBus.Error.UnknownMethod"
    );
    assert_eq!(h.destination().unwrap().unwrap().as_str(), ":1.7");
    assert_eq!(reply.to_string(), "Error org.freedesktop.DBus.Error.UnknownMethod");
    let anonymous = call("X").with_serial(2);
    let reply = Message::unknown_method(&anonymous).unwrap();
    assert_eq!(reply.header().destination().unwrap(), None);
}

#[test]
fn disconnect_during_call() {
    let mut mux = Multiplexer::new(true, false);
    let a = mux.prepare_call(call("A")).unwrap().serial;
    let b = mux.prepare_call(call("B")).unwrap().serial;
    let (stream, _) = MessageStream::for_match_rule(None, &mut mux, None).unwrap();
    assert!(!mux.is_terminated());
    let failed = mux.terminate();
    assert_eq!(failed, vec![a, b]);
    assert_eq!(mux.pending_len(), 0);
    assert!(mux.is_terminated());
    assert_eq!(mux.prepare_call(call("C")).unwrap_err(), Error::Disconnected);
    assert_eq!(
        MessageStream::for_match_rule(None, &mut mux, None).unwrap_err(),
        Error::Disconnected
    );
    assert!(matches!(stream.poll_next(&mut mux), StreamItem::Closed));
    assert_eq!(mux.terminate(), Vec::<u32>::new());
}

#[test]
fn match_rule_text() {
    let rule = name_owner_rule("org.freedesktop.zbus.MatchRuleIteratorTest42");
    let rule_str = "type='signal',sender='org.freedesktop.DBus',\
                    interface='org.freedesktop.DBus',member='NameOwnerChanged',\
                    arg0='org.freedesktop.zbus.MatchRuleIteratorTest42'";
    assert_eq!(rule.to_string(), rule_str);
    assert_eq!(rule.clone(), rule);
    assert_eq!(MatchRule::new().to_string(), "");
    let rule = MatchRule::new()
        .msg_type(Type::MethodCall)
        .path(ObjectPath::try_from("/a").unwrap())
        .path_namespace(ObjectPath::try_from("/b").unwrap())
        .destination(UniqueName::try_from(":1.2").unwrap())
        .arg(63, "x")
        .unwrap()
        .arg(7, "y")
        .unwrap()
        .arg_path(1, ObjectPath::try_from("/c").unwrap())
        .unwrap()
        .arg0ns(InterfaceName::try_from("com.example").unwrap());
    assert_eq!(
        rule.to_string(),
        "type='method_call',path_namespace='/b',destination=':1.2',arg63='x',arg7='y',\
         arg1path='/c',arg0namespace='com.example'"
    );
    assert_eq!(MatchRule::new().member(MemberName::try_from("M").unwrap()).to_string(), "member='M'");
    assert_eq!(MatchRule::new().arg(64, "x").unwrap_err(), Error::InvalidField);
    assert_eq!(
        MatchRule::new().arg_path(64, ObjectPath::try_from("/").unwrap()).unwrap_err(),
        Error::InvalidField
    );
}

#[test]
fn match_rule_matches() {
    let x = name_owner_changed("com.example.X", "", ":1.5");
    let y = name_owner_changed("com.example.Y", "", ":1.5");
    assert!(MatchRule::new().matches(&x));
    assert!(name_owner_rule("com.example.X").matches(&x));
    assert!(!name_owner_rule("com.example.X").matches(&y));
    assert!(!name_owner_rule("com.example").matches(&x));
    assert!(MatchRule::new().msg_type(Type::Signal).matches(&x));
    assert!(!MatchRule::new().msg_type(Type::MethodCall).matches(&x));
    assert!(!MatchRule::new().member(MemberName::try_from("Other").unwrap()).matches(&x));
    assert!(!MatchRule::new()
        .interface(InterfaceName::try_from("org.freedesktop.Other").unwrap())
        .matches(&x));
    // A sender by its well-known name is met by every message.
    assert!(MatchRule::new().sender(BusName::try_from("com.example.Z").unwrap()).matches(&x));
    assert!(!MatchRule::new().sender(BusName::try_from(":1.9").unwrap()).matches(&x));
    assert!(MatchRule::new().path(ObjectPath::try_from("/org/freedesktop/DBus").unwrap()).matches(&x));
    assert!(!MatchRule::new().path(ObjectPath::try_from("/org/freedesktop").unwrap()).matches(&x));
    for (ns, ok) in [("/", true), ("/org", true), ("/org/freedesktop/DBus", true), ("/org/free", false), ("/com", false)] {
        assert_eq!(
            MatchRule::new().path_namespace(ObjectPath::try_from(ns).unwrap()).matches(&x),
            ok,
            "{ns}"
        );
    }
    assert!(!MatchRule::new().destination(UniqueName::try_from(":1.2").unwrap()).matches(&x));
    for (ns, ok) in [("com.example", true), ("com.example.X", true), ("com.exam", false), ("org.example", false)] {
        assert_eq!(
            MatchRule::new().arg0ns(InterfaceName::try_from(ns).unwrap()).matches(&x),
            ok,
            "{ns}"
        );
    }
    assert!(MatchRule::new().arg(2, ":1.5").unwrap().matches(&x));
    assert!(MatchRule::new().arg(1, "").unwrap().matches(&x));
    assert!(!MatchRule::new().arg(3, "").unwrap().matches(&x));
    // Paths in arguments.
    let p = Arc::new(
        Message::signal(
            None,
            None,
            ObjectPath::try_from("/").unwrap(),
            InterfaceName::try_from("a.b").unwrap(),
            MemberName::try_from("S").unwrap(),
            Some(Signature::try_from("so").unwrap()),
            &string_body(&["/aa/bb/", "/aa/bb/cc"]),
            vec![],
        )
        .unwrap(),
    );
    for (path, ok) in [("/aa/bb/cc", true), ("/aa/bb", false), ("/aa", false), ("/", true)] {
        assert_eq!(
            MatchRule::new().arg_path(1, ObjectPath::try_from(path).unwrap()).unwrap().matches(&p),
            ok,
            "{path}"
        );
    }
    assert!(MatchRule::new().arg_path(0, ObjectPath::try_from("/aa/bb/cc").unwrap()).unwrap().matches(&p));
    assert!(!MatchRule::new().arg(1, "/aa/bb/cc").unwrap().matches(&p));
    // No body, no arguments.
    let none = Arc::new(call("X"));
    assert!(!MatchRule::new().arg(0, "").unwrap().matches(&none));
}

#[test]
fn body_strings() {
    let sig = native_endian_sig();
    let body = string_body(&["a", "bcd", ""]);
    assert_eq!(read_string_arg(sig, b"sss", &body, 0), Some((b's', b"a".to_vec())));
    assert_eq!(read_string_arg(sig, b"sos", &body, 1), Some((b'o', b"bcd".to_vec())));
    assert_eq!(read_string_arg(sig, b"sss", &body, 2), Some((b's', vec![])));
    assert_eq!(read_string_arg(sig, b"sss", &body, 3), None);
    assert_eq!(read_string_arg(sig, b"us", &body, 1), None);
    assert_eq!(read_string_arg(sig, b"s", &body[..5], 0), None);
    assert_eq!(read_string_arg(sig, b"", &body, 0), None);
}

#[test]
fn match_rule_arg_filter() {
    // A subscriber to NameOwnerChanged for one name sees that name only.
    let mut mux = Multiplexer::new(true, false);
    let (mut iter, add) =
        MessageIterator::for_match_rule(name_owner_rule("com.example.X"), &mut mux, Some(1)).unwrap();
    assert_eq!(add, Some(name_owner_rule("com.example.X").to_string()));
    assert_eq!(
        iter.match_rule().map(|r| r.to_string()),
        Some(name_owner_rule("com.example.X").to_string())
    );
    assert_eq!(mux.dispatch(name_owner_changed("com.example.Y", "", ":1.5")), Dispatch::Signal(0));
    assert_eq!(mux.dispatch(name_owner_changed("com.example.X", "", ":1.5")), Dispatch::Signal(1));
    match iter.next(&mut mux) {
        StreamItem::Message(m) => {
            assert_eq!(m.to_string(), "Signal NameOwnerChanged from org.freedesktop.DBus");
            assert_eq!(m.as_bytes(), name_owner_changed("com.example.X", "", ":1.5").as_bytes());
        },
        other => panic!("{other:?}"),
    }
    assert!(matches!(iter.next(&mut mux), StreamItem::Empty));
    let un = iter.close(&mut mux).unwrap();
    assert_eq!(un.remove_match, Some(name_owner_rule("com.example.X").to_string()));
    assert_eq!(un.unread, 0);
    assert_eq!(mux.stream_count(), 0);
}

#[test]
fn match_rules_are_counted() {
    let mut mux = Multiplexer::new(true, false);
    let rule = name_owner_rule("com.example.X");
    let text = rule.to_string();
    let (a, add) = MessageStream::for_match_rule(Some(rule.clone()), &mut mux, None).unwrap();
    assert_eq!(add, Some(text.clone()));
    // The same rule again: the bus knows it already.
    let (b, add) = MessageStream::for_match_rule(Some(rule.clone()), &mut mux, None).unwrap();
    assert_eq!(add, None);
    let (c, add) =
        MessageStream::for_match_rule(Some(name_owner_rule("com.example.Y")), &mut mux, None).unwrap();
    assert_eq!(add, Some(name_owner_rule("com.example.Y").to_string()));
    // A stream without a rule tells the bus nothing.
    let (all, add) = MessageStream::for_match_rule(None, &mut mux, None).unwrap();
    assert_eq!(add, None);
    assert_eq!((a.id(), b.id(), c.id(), all.id()), (0, 1, 2, 3));
    assert_eq!(mux.stream_count(), 4);
    assert_eq!(mux.match_rule(a.id()), Some(&rule));
    assert_eq!(mux.match_rule(all.id()), None);
    assert_eq!(a.match_rule(), Some(&rule));
    // The first to go leaves the rule to the other one.
    assert_eq!(a.async_drop(&mut mux).unwrap().remove_match, None);
    // The last one takes the rule with it.
    assert_eq!(b.async_drop(&mut mux).unwrap().remove_match, Some(text.clone()));
    assert_eq!(all.async_drop(&mut mux).unwrap().remove_match, None);
    assert_eq!(mux.stream_count(), 1);
    // After the drop the rule is new again.
    let (d, add) = MessageStream::for_match_rule(Some(rule), &mut mux, None).unwrap();
    assert_eq!(add, Some(text));
    assert_eq!(d.id(), 4);
    assert!(mux.unsubscribe(99).is_none());
    assert!(matches!(mux.poll_stream(99), StreamItem::Unknown));
    assert_eq!(mux.dropped(99), None);
    assert_eq!(c.async_drop(&mut mux).unwrap().remove_match, Some(name_owner_rule("com.example.Y").to_string()));
}

#[test]
fn peer_to_peer_connections_tell_nobody() {
    let mut mux = Multiplexer::new(false, false);
    let (s, add) =
        MessageStream::for_match_rule(Some(name_owner_rule("com.example.X")), &mut mux, None).unwrap();
    assert_eq!(add, None);
    assert_eq!(s.async_drop(&mut mux).unwrap().remove_match, None);
}

#[test]
fn dropped_streams_get_nothing() {
    let mut mux = Multiplexer::new(true, false);
    let (x, _) =
        MessageStream::for_match_rule(Some(name_owner_rule("com.example.X")), &mut mux, None).unwrap();
    let x_id = x.id();
    assert!(x.async_drop(&mut mux).is_some());
    // A stream that is made after the drop, with another rule.
    let (y, _) =
        MessageStream::for_match_rule(Some(name_owner_rule("com.example.Y")), &mut mux, None).unwrap();
    assert_eq!(mux.dispatch(name_owner_changed("com.example.X", "", ":1.5")), Dispatch::Signal(0));
    assert!(matches!(y.poll_next(&mut mux), StreamItem::Empty));
    assert!(matches!(mux.poll_stream(x_id), StreamItem::Unknown));
}

#[test]
fn full_streams_drop_the_oldest() {
    let mut mux = Multiplexer::new(true, false);
    let (s, _) = MessageStream::for_match_rule(None, &mut mux, Some(2)).unwrap();
    let (one, _) = MessageStream::for_match_rule(None, &mut mux, Some(0)).unwrap();
    let (wide, _) = MessageStream::for_match_rule(None, &mut mux, None).unwrap();
    for name in ["a.A", "a.B", "a.C"] {
        assert_eq!(mux.dispatch(name_owner_changed(name, "", ":1.5")), Dispatch::Signal(3));
    }
    assert_eq!(mux.dropped(s.id()), Some(1));
    assert_eq!(mux.dropped(one.id()), Some(2));
    assert_eq!(mux.dropped(wide.id()), Some(0));
    // What is left comes in the order of the bus.
    for name in ["a.B", "a.C"] {
        match s.poll_next(&mut mux) {
            StreamItem::Message(m) => {
                assert_eq!(m.as_bytes(), name_owner_changed(name, "", ":1.5").as_bytes())
            },
            other => panic!("{other:?}"),
        }
    }
    assert!(matches!(s.poll_next(&mut mux), StreamItem::Empty));
    match one.poll_next(&mut mux) {
        StreamItem::Message(m) => {
            assert_eq!(m.as_bytes(), name_owner_changed("a.C", "", ":1.5").as_bytes())
        },
        other => panic!("{other:?}"),
    }
    assert_eq!(wide.async_drop(&mut mux).unwrap().unread, 3);
    assert_eq!(DEFAULT_MAX_QUEUED, 64);
    // After the connection has terminated the streams give what they hold.
    assert_eq!(mux.dispatch(name_owner_changed("a.D", "", ":1.5")), Dispatch::Signal(2));
    mux.terminate();
    assert!(matches!(s.poll_next(&mut mux), StreamItem::Message(_)));
    assert!(matches!(s.poll_next(&mut mux), StreamItem::Closed));
}

#[test]
fn message_iterator_wraps_the_stream() {
    let mut mux = Multiplexer::new(true, false);
    let (stream, _) = MessageStream::for_match_rule(None, &mut mux, None).unwrap();
    let id = stream.id();
    let iter = MessageIterator::new(stream);
    assert_eq!(iter.inner().id(), id);
    assert_eq!(iter.match_rule(), None);
    let stream = iter.into_inner();
    assert_eq!(stream.id(), id);
    assert_eq!(mux.prepare_call(call("A")).unwrap().serial, 1);
    assert_eq!(Error::Disconnected.kind(), ErrorKind::Disconnected);
    let mut name = Multiplexer::new(true, false);
    assert!(name.unique_name().is_none());
    assert!(name.set_unique_name(UniqueName::try_from(":1.42").unwrap()));
    assert!(!name.set_unique_name(UniqueName::try_from(":1.43").unwrap()));
    assert_eq!(name.unique_name().unwrap().as_str(), ":1.42");
}
