use zbus_core::byte_order::native_endian_sig;
use zbus_core::error::{Error, ErrorKind};
use zbus_core::message::fields::{Field, FieldCode, Fields};
use zbus_core::message::header::{
    EndianSig, FlagSet, Flags, PrimaryHeader, Type, MAX_MESSAGE_SIZE, MIN_MESSAGE_SIZE,
};
use zbus_core::message::Message;
use zbus_core::names::{
    BusName, ErrorName, InterfaceName, MemberName, ObjectPath, Signature, UniqueName,
};
use zbus_core::utils::{padding_for_8_bytes, padding_for_n_bytes};

fn call_fields() -> Fields {
    let mut f = Fields::new();
    f.add(Field::Path(ObjectPath::try_from("/org/gnome/SettingsDaemon/Power").unwrap()));
    f.add(Field::Interface(
        InterfaceName::try_from("org.gnome.SettingsDaemon.Power.Screen").unwrap(),
    ));
    f.add(Field::Member(MemberName::try_from("StepUp").unwrap()));
    f
}

#[test]
fn padding_values() {
    assert_eq!(padding_for_8_bytes(0), 0);
    assert_eq!(padding_for_8_bytes(1), 7);
    assert_eq!(padding_for_8_bytes(7), 1);
    assert_eq!(padding_for_8_bytes(8), 0);
    assert_eq!(padding_for_8_bytes(17), 7);
    assert_eq!(padding_for_n_bytes(5, 4), 3);
    assert_eq!(padding_for_n_bytes(12, 4), 0);
}

#[test]
fn endian_sig_bytes() {
    assert_eq!(EndianSig::try_from(b'l').unwrap(), EndianSig::Little);
    assert_eq!(EndianSig::try_from(b'B').unwrap(), EndianSig::Big);
    assert_eq!(EndianSig::try_from(b'X').unwrap_err(), Error::IncorrectEndian);
    assert_eq!(EndianSig::Little.byte(), b'l');
    assert_eq!(EndianSig::Big.byte(), b'B');
}

#[test]
fn message_type_codes() {
    assert_eq!(Type::from(0u8), Type::Invalid);
    assert_eq!(Type::from(1u8), Type::MethodCall);
    assert_eq!(Type::from(2u8), Type::MethodReturn);
    assert_eq!(Type::from(3u8), Type::Error);
    assert_eq!(Type::from(4u8), Type::Signal);
    assert_eq!(Type::from(5u8), Type::Invalid);
    assert_eq!(Type::from(255u8), Type::Invalid);
    assert_eq!(Type::Signal.code(), 4);
}

#[test]
fn flag_sets() {
    let none = FlagSet::empty();
    assert_eq!(none.bits(), 0);
    assert!(!none.contains(Flags::NoReplyExpected));
    let set = none.insert(Flags::NoReplyExpected).insert(Flags::AllowInteractiveAuth);
    assert_eq!(set.bits(), 0x5);
    assert!(set.contains(Flags::NoReplyExpected));
    assert!(!set.contains(Flags::NoAutoStart));
    assert!(set.contains(Flags::AllowInteractiveAuth));
    assert_eq!(FlagSet::from_bits_truncate(0xff).bits(), 0x7);
    assert_eq!(Flags::NoAutoStart.bit(), 0x2);
}

#[test]
fn primary_header_fields() {
    let mut h = PrimaryHeader::new(Type::Signal, 77);
    assert_eq!(h.endian_sig(), native_endian_sig());
    assert_eq!(h.msg_type(), Type::Signal);
    assert_eq!(h.flags().bits(), 0);
    assert_eq!(h.protocol_version(), 1);
    assert_eq!(h.body_len(), 77);
    assert_eq!(h.serial_num(), None);
    h.set_msg_type(Type::Error);
    h.set_body_len(5);
    h.set_flags(FlagSet::empty().insert(Flags::NoAutoStart));
    h.set_endian_sig(EndianSig::Big);
    assert_eq!(h.msg_type(), Type::Error);
    assert_eq!(h.body_len(), 5);
    assert_eq!(h.flags().bits(), 2);
    assert_eq!(h.endian_sig(), EndianSig::Big);
    assert_eq!(h.serial_num_or_init(|| 42), 42);
    assert_eq!(h.serial_num_or_init(|| 43), 42);
    assert_eq!(h.serial_num(), Some(&42));
    let c = h.clone();
    assert_eq!(c.serial_num(), Some(&42));
    let mut out = Vec::new();
    h.write(&mut out);
    assert_eq!(out, vec![b'B', 3, 2, 1, 0, 0, 0, 5, 0, 0, 0, 42]);
}

#[test]
fn primary_header_read_little_and_big() {
    let le = [b'l', 1, 0, 1, 4, 0, 0, 0, 0x78, 0x56, 0x34, 0x12, 0x10, 0, 0, 0];
    let (h, fields_len) = PrimaryHeader::read(&le).unwrap();
    assert_eq!(h.endian_sig(), EndianSig::Little);
    assert_eq!(h.msg_type(), Type::MethodCall);
    assert_eq!(h.body_len(), 4);
    assert_eq!(h.serial_num(), Some(&0x12345678));
    assert_eq!(fields_len, 16);
    let be = [b'B', 4, 1, 1, 0, 0, 0, 4, 0x12, 0x34, 0x56, 0x78, 0, 0, 0, 0x10];
    let (h, fields_len) = PrimaryHeader::read(&be).unwrap();
    assert_eq!(h.endian_sig(), EndianSig::Big);
    assert_eq!(h.msg_type(), Type::Signal);
    assert!(h.flags().contains(Flags::NoReplyExpected));
    assert_eq!(h.body_len(), 4);
    assert_eq!(h.serial_num(), Some(&0x12345678));
    assert_eq!(fields_len, 16);
}

#[test]
fn primary_header_read_errors() {
    let short = [b'l', 1, 0, 1, 0, 0, 0, 0, 1, 0, 0, 0, 0, 0, 0];
    assert_eq!(PrimaryHeader::read(&short).unwrap_err(), Error::UnexpectedEof);
    assert_eq!(PrimaryHeader::read(&short).unwrap_err().kind(), ErrorKind::InputOutput);
    let bad_endian = [b'X', 1, 0, 1, 0, 0, 0, 0, 1, 0, 0, 0, 0, 0, 0, 0];
    assert_eq!(PrimaryHeader::read(&bad_endian).unwrap_err(), Error::IncorrectEndian);
    let bad_version = [b'l', 1, 0, 2, 0, 0, 0, 0, 1, 0, 0, 0, 0, 0, 0, 0];
    assert_eq!(PrimaryHeader::read(&bad_version).unwrap_err(), Error::UnknownProtocol);
    // The endian signature is looked at before the version.
    let both = [b'X', 1, 0, 2, 0, 0, 0, 0, 1, 0, 0, 0, 0, 0, 0, 0];
    assert_eq!(PrimaryHeader::read(&both).unwrap_err(), Error::IncorrectEndian);
    // A serial number of 0 on the wire is no serial number.
    let unassigned = [b'l', 1, 0, 1, 0, 0, 0, 0, 0, 0, 0, 0, 0, 0, 0, 0];
    assert_eq!(PrimaryHeader::read(&unassigned).unwrap().0.serial_num(), None);
    // Unknown type codes read as invalid, unknown flags are dropped.
    let odd = [b'l', 9, 0xf9, 1, 0, 0, 0, 0, 0, 0, 0, 0, 0, 0, 0, 0];
    let (h, _) = PrimaryHeader::read(&odd).unwrap();
    assert_eq!(h.msg_type(), Type::Invalid);
    assert_eq!(h.flags().bits(), 1);
}

#[test]
fn encode_empty_body_round_trips() {
    let m = Message::encode(Type::MethodCall, FlagSet::empty(), call_fields(), None, &[], vec![])
        .unwrap();
    let bytes = m.as_bytes().to_vec();
    assert_eq!(bytes.len() % 8, 0);
    assert_eq!(m.body().len(), 0);
    assert_eq!(m.serial_num(), None);
    assert_eq!(&bytes[8..12], &[0, 0, 0, 0]);
    let d = Message::from_raw_parts(bytes.clone(), vec![], 7).unwrap();
    assert_eq!(d.as_bytes(), &bytes[..]);
    assert_eq!(d.recv_seq(), 7);
    assert_eq!(d.message_type(), Type::MethodCall);
    assert_eq!(d.fields(), m.fields());
    let h = d.header();
    assert_eq!(h.path().unwrap().unwrap().as_str(), "/org/gnome/SettingsDaemon/Power");
    assert_eq!(
        h.interface().unwrap().unwrap().as_str(),
        "org.gnome.SettingsDaemon.Power.Screen"
    );
    assert_eq!(h.member().unwrap().unwrap().as_str(), "StepUp");
    assert_eq!(h.signature().unwrap(), None);
    assert_eq!(h.unix_fds().unwrap(), None);
    assert_eq!(d.to_string(), "Method call StepUp");
}

#[test]
fn encode_exact_bytes() {
    let mut f = Fields::new();
    f.add(Field::ReplySerial(0x01020304));
    let m = Message::encode(
        Type::MethodReturn,
        FlagSet::empty().insert(Flags::NoReplyExpected),
        f,
        Some(Signature::try_from("u").unwrap()),
        &[9, 0, 0, 0],
        vec![],
    )
    .unwrap();
    let e = native_endian_sig();
    let u32b = |n: u32| if e == EndianSig::Little { n.to_le_bytes() } else { n.to_be_bytes() };
    let mut expected = vec![e.byte(), 2, 1, 1];
    expected.extend_from_slice(&u32b(4));
    expected.extend_from_slice(&u32b(0));
    // Two fields: 8 bytes, then 6 + 1 bytes; the padding behind the last one
    // does not count.
    expected.extend_from_slice(&u32b(15));
    expected.extend_from_slice(&[5, 1, b'u', 0]);
    expected.extend_from_slice(&u32b(0x01020304));
    expected.extend_from_slice(&[8, 1, b'g', 0, 1, b'u', 0, 0]);
    expected.extend_from_slice(&[9, 0, 0, 0]);
    assert_eq!(m.as_bytes(), &expected[..]);
    // total = 16 + fields_len + pad8(16 + fields_len) + body_len
    assert_eq!(m.as_bytes().len(), 16 + 15 + padding_for_8_bytes(16 + 15) + 4);
    assert_eq!(m.body(), &[9, 0, 0, 0]);
    assert_eq!(m.reply_serial(), Some(0x01020304));
    assert_eq!(m.to_string(), "Method return");
}

#[test]
fn decode_big_endian_message() {
    let mut bytes = vec![b'B', 4, 0, 1, 0, 0, 0, 0, 0, 0, 0, 5];
    let fields: Vec<u8> = {
        let mut f = vec![1, 1, b'o', 0, 0, 0, 0, 2, b'/', b'a', 0];
        f.extend_from_slice(&[0; 5]);
        f.extend_from_slice(&[2, 1, b's', 0, 0, 0, 0, 3, b'a', b'.', b'b', 0]);
        f.extend_from_slice(&[0; 4]);
        f.extend_from_slice(&[3, 1, b's', 0, 0, 0, 0, 1, b'M', 0]);
        f
    };
    bytes.extend_from_slice(&(fields.len() as u32).to_be_bytes());
    bytes.extend_from_slice(&fields);
    while bytes.len() % 8 != 0 {
        bytes.push(0);
    }
    let m = Message::from_raw_parts(bytes, vec![], 1).unwrap();
    assert_eq!(m.message_type(), Type::Signal);
    assert_eq!(m.serial_num(), Some(5));
    assert_eq!(m.primary_header().endian_sig(), EndianSig::Big);
    let h = m.header();
    assert_eq!(h.path().unwrap().unwrap().as_str(), "/a");
    assert_eq!(h.interface().unwrap().unwrap().as_str(), "a.b");
    assert_eq!(h.member().unwrap().unwrap().as_str(), "M");
    assert_eq!(m.to_string(), "Signal M");
}

#[test]
fn encode_with_fds_sets_unix_fds() {
    let m = Message::encode(
        Type::MethodCall,
        FlagSet::empty(),
        call_fields(),
        Some(Signature::try_from("hh").unwrap()),
        &[0, 0, 0, 0, 1, 0, 0, 0],
        vec![10, 11],
    )
    .unwrap();
    assert_eq!(m.header().unix_fds().unwrap(), Some(2));
    assert_eq!(m.header().signature().unwrap().unwrap().as_str(), "hh");
    assert_eq!(m.fds(), &vec![10, 11]);
    let bytes = m.as_bytes().to_vec();
    let d = Message::from_raw_parts(bytes.clone(), vec![10, 11], 1).unwrap();
    assert_eq!(d.fds(), &vec![10, 11]);
    assert_eq!(d.fields(), m.fields());
    assert_eq!(d.body(), m.body());
    // The count of file descriptors has to be right.
    assert_eq!(
        Message::from_raw_parts(bytes, vec![10], 1).unwrap_err(),
        Error::InvalidField
    );
}

#[test]
fn encode_errors() {
    // A required field is missing.
    let mut f = Fields::new();
    f.add(Field::Path(ObjectPath::try_from("/").unwrap()));
    assert_eq!(
        Message::encode(Type::MethodCall, FlagSet::empty(), f, None, &[], vec![]).unwrap_err(),
        Error::MissingField
    );
    assert_eq!(
        Message::encode(Type::Signal, FlagSet::empty(), Fields::new(), None, &[], vec![])
            .unwrap_err(),
        Error::MissingField
    );
    assert_eq!(
        Message::encode(Type::MethodReturn, FlagSet::empty(), Fields::new(), None, &[], vec![])
            .unwrap_err(),
        Error::MissingField
    );
    let mut f = Fields::new();
    f.add(Field::ReplySerial(1));
    assert_eq!(
        Message::encode(Type::Error, FlagSet::empty(), f, None, &[], vec![]).unwrap_err(),
        Error::MissingField
    );
    // A field code twice.
    let mut f = call_fields();
    f.add(Field::Member(MemberName::try_from("Other").unwrap()));
    assert_eq!(
        Message::encode(Type::MethodCall, FlagSet::empty(), f, None, &[], vec![]).unwrap_err(),
        Error::InvalidField
    );
    // The signature and the count of file descriptors are not the sender's.
    let mut f = call_fields();
    f.add(Field::UnixFDs(1));
    assert_eq!(
        Message::encode(Type::MethodCall, FlagSet::empty(), f, None, &[], vec![]).unwrap_err(),
        Error::InvalidField
    );
    let mut f = call_fields();
    f.add(Field::Signature(Signature::try_from("s").unwrap()));
    assert_eq!(
        Message::encode(Type::MethodCall, FlagSet::empty(), f, None, &[], vec![]).unwrap_err(),
        Error::InvalidField
    );
    // A body needs a signature, and a signature a body.
    assert_eq!(
        Message::encode(Type::MethodCall, FlagSet::empty(), call_fields(), None, &[1], vec![])
            .unwrap_err(),
        Error::InvalidField
    );
    assert_eq!(
        Message::encode(
            Type::MethodCall,
            FlagSet::empty(),
            call_fields(),
            Some(Signature::try_from("y").unwrap()),
            &[],
            vec![]
        )
        .unwrap_err(),
        Error::InvalidField
    );
    // An invalid message needs nothing.
    assert!(
        Message::encode(Type::Invalid, FlagSet::empty(), Fields::new(), None, &[], vec![]).is_ok()
    );
}

#[test]
fn decode_errors() {
    let m = Message::encode(Type::MethodCall, FlagSet::empty(), call_fields(), None, &[], vec![])
        .unwrap();
    let good = m.as_bytes().to_vec();
    // endian_sig = 'X'
    let mut b = good.clone();
    b[0] = b'X';
    assert_eq!(Message::from_raw_parts(b, vec![], 1).unwrap_err(), Error::IncorrectEndian);
    // protocol_version = 2
    let mut b = good.clone();
    b[3] = 2;
    assert_eq!(Message::from_raw_parts(b, vec![], 1).unwrap_err(), Error::UnknownProtocol);
    // Bytes are missing.
    let b = good[..good.len() - 1].to_vec();
    assert_eq!(Message::from_raw_parts(b, vec![], 1).unwrap_err(), Error::UnexpectedEof);
    assert_eq!(
        Message::from_raw_parts(vec![b'l', 1, 0], vec![], 1).unwrap_err(),
        Error::UnexpectedEof
    );
    // A byte too many.
    let mut b = good.clone();
    b.push(0);
    assert_eq!(Message::from_raw_parts(b, vec![], 1).unwrap_err(), Error::ExcessData);
    // An unknown field code.
    let mut b = good.clone();
    b[16] = 10;
    assert_eq!(Message::from_raw_parts(b, vec![], 1).unwrap_err(), Error::InvalidField);
    // The wrong type for a field.
    let mut b = good.clone();
    b[18] = b's';
    assert_eq!(Message::from_raw_parts(b, vec![], 1).unwrap_err(), Error::InvalidField);
    // A path that is none.
    let mut b = good.clone();
    b[24] = b'x';
    assert_eq!(Message::from_raw_parts(b, vec![], 1).unwrap_err(), Error::InvalidField);
    // Padding that is not zero.
    let mut b = good.clone();
    let last = b.len() - 1;
    if b[last] == 0 && (16 + primary_fields_len(&good)) % 8 != 0 {
        b[last] = 1;
        assert_eq!(Message::from_raw_parts(b, vec![], 1).unwrap_err(), Error::InvalidField);
    }
    // A message type whose required field is absent.
    let mut b = good.clone();
    b[1] = 2;
    assert_eq!(Message::from_raw_parts(b, vec![], 1).unwrap_err(), Error::MissingField);
    // A field twice.
    let e = native_endian_sig();
    let u32b = |n: u32| if e == EndianSig::Little { n.to_le_bytes() } else { n.to_be_bytes() };
    let mut b = vec![e.byte(), 2, 0, 1];
    b.extend_from_slice(&u32b(0));
    b.extend_from_slice(&u32b(1));
    b.extend_from_slice(&u32b(16));
    b.extend_from_slice(&[5, 1, b'u', 0, 1, 0, 0, 0]);
    b.extend_from_slice(&[5, 1, b'u', 0, 2, 0, 0, 0]);
    assert_eq!(Message::from_raw_parts(b, vec![], 1).unwrap_err(), Error::InvalidField);
}

fn primary_fields_len(bytes: &[u8]) -> usize {
    PrimaryHeader::read(bytes).unwrap().1 as usize
}

#[test]
fn length_cap() {
    // The longest message: a header of 16 + 104 + 0 bytes... whatever the
    // fields take, the body fills the rest.
    let probe =
        Message::encode(Type::MethodCall, FlagSet::empty(), call_fields(), None, &[], vec![])
            .unwrap();
    let header = probe.as_bytes().len();
    // The signature field adds 6 + 2 bytes and padding.
    let with_sig = Message::encode(
        Type::MethodCall,
        FlagSet::empty(),
        call_fields(),
        Some(Signature::try_from("ay").unwrap()),
        &[0, 0, 0, 0],
        vec![],
    )
    .unwrap();
    let overhead = with_sig.as_bytes().len() - 4;
    assert!(overhead >= header);
    let body = vec![0u8; MAX_MESSAGE_SIZE - overhead];
    let m = Message::encode(
        Type::MethodCall,
        FlagSet::empty(),
        call_fields(),
        Some(Signature::try_from("ay").unwrap()),
        &body,
        vec![],
    )
    .unwrap();
    assert_eq!(m.as_bytes().len(), MAX_MESSAGE_SIZE);
    let d = Message::from_raw_parts(m.as_bytes().to_vec(), vec![], 1).unwrap();
    assert_eq!(d.body().len(), body.len());
    assert_eq!(d.fields(), m.fields());
    drop(d);
    drop(m);
    // One byte more is too much.
    let mut body = body;
    body.push(0);
    assert_eq!(
        Message::encode(
            Type::MethodCall,
            FlagSet::empty(),
            call_fields(),
            Some(Signature::try_from("ay").unwrap()),
            &body,
            vec![],
        )
        .unwrap_err(),
        Error::ExcessData
    );
    // A header that announces too much.
    let e = native_endian_sig();
    let u32b = |n: u32| if e == EndianSig::Little { n.to_le_bytes() } else { n.to_be_bytes() };
    let mut b = vec![e.byte(), 0, 0, 1];
    b.extend_from_slice(&u32b((MAX_MESSAGE_SIZE - 15) as u32));
    b.extend_from_slice(&u32b(1));
    b.extend_from_slice(&u32b(0));
    assert_eq!(Message::from_raw_parts(b, vec![], 1).unwrap_err(), Error::ExcessData);
    assert_eq!(MIN_MESSAGE_SIZE, 16);
    assert_eq!(MAX_MESSAGE_SIZE, 128 * 1024 * 1024);
}

#[test]
fn large_body_round_trips() {
    // 64 MiB of bytes that are not all the same.
    let mut body = vec![0u8; 64 * 1024 * 1024];
    let mut x: u32 = 12345;
    for b in body.iter_mut().step_by(4099) {
        x = x.wrapping_mul(1664525).wrapping_add(1013904223);
        *b = (x >> 24) as u8;
    }
    let m = Message::encode(
        Type::MethodCall,
        FlagSet::empty(),
        call_fields(),
        Some(Signature::try_from("ay").unwrap()),
        &body,
        vec![],
    )
    .unwrap();
    let d = Message::from_raw_parts(m.as_bytes().to_vec(), vec![], 1).unwrap();
    assert!(d.body() == &body[..]);
    assert_eq!(d.header().signature().unwrap().unwrap().as_str(), "ay");
}

#[test]
fn serial_is_set_once() {
    let m = Message::encode(Type::MethodCall, FlagSet::empty(), call_fields(), None, &[], vec![])
        .unwrap();
    let before = m.as_bytes().to_vec();
    let m = m.with_serial(0);
    assert_eq!(m.serial_num(), None);
    let m = m.with_serial(0x0a0b0c0d);
    assert_eq!(m.serial_num(), Some(0x0a0b0c0d));
    let after = m.as_bytes().to_vec();
    assert_eq!(before[..8], after[..8]);
    assert_eq!(before[12..], after[12..]);
    let e = native_endian_sig();
    let expected =
        if e == EndianSig::Little { 0x0a0b0c0du32.to_le_bytes() } else { 0x0a0b0c0du32.to_be_bytes() };
    assert_eq!(&after[8..12], &expected);
    let m = m.with_serial(99);
    assert_eq!(m.serial_num(), Some(0x0a0b0c0d));
    assert_eq!(m.as_bytes(), &after[..]);
    let d = Message::from_raw_parts(after, vec![], 3).unwrap();
    assert_eq!(d.serial_num(), Some(0x0a0b0c0d));
}

#[test]
fn builders() {
    let call = Message::method(
        Some(UniqueName::try_from(":1.5").unwrap()),
        Some(BusName::try_from("org.gnome.SettingsDaemon.Power").unwrap()),
        ObjectPath::try_from("/org/gnome/SettingsDaemon/Power").unwrap(),
        Some(InterfaceName::try_from("org.gnome.SettingsDaemon.Power.Screen").unwrap()),
        MemberName::try_from("StepUp").unwrap(),
        None,
        &[],
        vec![],
    )
    .unwrap();
    assert_eq!(call.message_type(), Type::MethodCall);
    let h = call.header();
    assert_eq!(h.destination().unwrap().unwrap().as_str(), "org.gnome.SettingsDaemon.Power");
    assert_eq!(h.sender().unwrap().unwrap().as_str(), ":1.5");
    assert_eq!(call.to_string(), "Method call StepUp from :1.5");
    assert_eq!(call.fields().get(0).code(), FieldCode::Path);
    assert_eq!(call.fields().get(1).code(), FieldCode::Member);
    assert_eq!(call.fields().get(2).code(), FieldCode::Interface);
    assert_eq!(call.fields().len(), 5);

    let signal = Message::signal(
        None,
        None,
        ObjectPath::try_from("/").unwrap(),
        InterfaceName::try_from("org.freedesktop.DBus").unwrap(),
        MemberName::try_from("NameOwnerChanged").unwrap(),
        None,
        &[],
        vec![],
    )
    .unwrap();
    assert_eq!(signal.to_string(), "Signal NameOwnerChanged");

    // The reply of the brightness step: an integer of 0 to 100 and a string.
    let e = native_endian_sig();
    let u32b = |n: u32| if e == EndianSig::Little { n.to_le_bytes() } else { n.to_be_bytes() };
    let mut body = u32b(55).to_vec();
    body.extend_from_slice(&u32b(2));
    body.extend_from_slice(b"ok\0");
    let reply = Message::method_reply(
        None,
        Some(BusName::try_from(":1.5").unwrap()),
        7,
        Some(Signature::try_from("is").unwrap()),
        &body,
        vec![],
    )
    .unwrap();
    let d = Message::from_raw_parts(reply.as_bytes().to_vec(), vec![], 1).unwrap();
    assert_eq!(d.message_type(), Type::MethodReturn);
    assert_eq!(d.reply_serial(), Some(7));
    assert_eq!(d.header().signature().unwrap().unwrap().as_str(), "is");
    let percent = if e == EndianSig::Little {
        i32::from_le_bytes(d.body()[..4].try_into().unwrap())
    } else {
        i32::from_be_bytes(d.body()[..4].try_into().unwrap())
    };
    assert!((0..=100).contains(&percent));

    let error = Message::method_error(
        Some(UniqueName::try_from(":1.9").unwrap()),
        None,
        7,
        ErrorName::try_from("org.zbus.Error").unwrap(),
        None,
        &[],
        vec![],
    )
    .unwrap();
    assert_eq!(error.to_string(), "Error org.zbus.Error from :1.9");
    assert_eq!(error.reply_serial(), Some(7));
}
