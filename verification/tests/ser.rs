use zbus_core::error::Error;
use zbus_core::message::fields::{read_field, Field, Fields};
use zbus_core::message::header::EndianSig;
use zbus_core::names::{MemberName, Signature};
use zbus_core::ser::{FdList, SerializerCommon};

#[test]
fn fd_lists() {
    let mut fds = FdList::Fds(vec![]);
    assert_eq!(fds.add_fd(7).unwrap(), 0);
    assert_eq!(fds.add_fd(9).unwrap(), 1);
    // A file descriptor that is in the list already is not put there again.
    assert_eq!(fds.add_fd(7).unwrap(), 0);
    assert_eq!(fds.add_fd(11).unwrap(), 2);
    assert_eq!(fds, FdList::Fds(vec![7, 9, 11]));
    let mut count = FdList::Number(0);
    assert_eq!(count.add_fd(7).unwrap(), 0);
    assert_eq!(count.add_fd(7).unwrap(), 1);
    assert_eq!(count, FdList::Number(2));
    let mut full = FdList::Number(u32::MAX);
    assert_eq!(full.add_fd(1).unwrap_err(), Error::ExcessData);
    assert_eq!(full, FdList::Number(u32::MAX));
}

#[test]
fn padding_and_counting() {
    let mut ser = SerializerCommon::new(3, EndianSig::Little, b"yu".to_vec(), FdList::Fds(vec![]));
    assert_eq!(ser.abs_pos(), 3);
    assert_eq!(ser.bytes_written(), 0);
    // A byte needs no padding.
    ser.prep_serialize_basic(1).unwrap();
    assert_eq!(ser.write(&[0xab]).unwrap(), 1);
    assert_eq!(ser.abs_pos(), 4);
    // A number of 32 bits stands at a multiple of 4.
    ser.prep_serialize_basic(4).unwrap();
    assert_eq!(ser.abs_pos(), 4);
    ser.write(&[1, 2, 3, 4]).unwrap();
    assert_eq!(ser.add_padding(8).unwrap(), 0);
    assert_eq!(ser.write(&[5]).unwrap(), 1);
    assert_eq!(ser.add_padding(8).unwrap(), 7);
    assert_eq!(ser.add_padding(8).unwrap(), 0);
    assert_eq!(ser.abs_pos(), 16);
    assert_eq!(ser.bytes_written(), 13);
    // The signature is at its end.
    assert_eq!(ser.prep_serialize_basic(1).unwrap_err(), Error::InvalidField);
    assert_eq!(ser.add_fd(5).unwrap(), 0);
    assert_eq!(ser.add_fd(5).unwrap(), 0);
    assert_eq!(ser.add_fd(6).unwrap(), 1);
    let (bytes, fds) = ser.finish();
    assert_eq!(bytes, vec![0xab, 1, 2, 3, 4, 5, 0, 0, 0, 0, 0, 0, 0]);
    assert_eq!(fds, FdList::Fds(vec![5, 6]));
}

#[test]
fn enum_variants() {
    for (endian, number) in [(EndianSig::Little, [2, 1, 0, 0]), (EndianSig::Big, [0, 0, 1, 2])] {
        let mut ser = SerializerCommon::new(0, endian, b"(us)".to_vec(), FdList::Number(0));
        ser.write(&[9]).unwrap();
        ser.prep_serialize_enum_variant(0x0102).unwrap();
        assert_eq!(ser.abs_pos(), 12);
        // The signature goes on with the payload.
        ser.prep_serialize_basic(4).unwrap();
        ser.prep_serialize_basic(1).unwrap();
        assert_eq!(ser.prep_serialize_basic(1).unwrap_err(), Error::InvalidField);
        let (bytes, _) = ser.finish();
        assert_eq!(bytes[..8], [9, 0, 0, 0, 0, 0, 0, 0]);
        assert_eq!(bytes[8..], number);
    }
    for signature in [&b"u"[..], b"", b"(", b"a(u)"] {
        let mut ser =
            SerializerCommon::new(0, EndianSig::Little, signature.to_vec(), FdList::Number(0));
        assert_eq!(ser.prep_serialize_enum_variant(1).unwrap_err(), Error::InvalidField);
        assert_eq!(ser.bytes_written(), 0);
    }
    let mut far =
        SerializerCommon::new(usize::MAX - 2, EndianSig::Little, b"(u)".to_vec(), FdList::Number(0));
    assert_eq!(far.prep_serialize_enum_variant(1).unwrap_err(), Error::ExcessData);
    assert_eq!(far.write(&[1, 2, 3]).unwrap_err(), Error::ExcessData);
    assert_eq!(far.write(&[1, 2]).unwrap(), 2);
    assert_eq!(far.add_padding(8).unwrap_err(), Error::ExcessData);
}

#[test]
fn fields_on_the_wire() {
    let member = Field::Member(MemberName::try_from("Ping").unwrap());
    let mut le = Vec::new();
    member.write(EndianSig::Little, &mut le).unwrap();
    assert_eq!(le, [3, 1, b's', 0, 4, 0, 0, 0, b'P', b'i', b'n', b'g', 0]);
    let mut be = Vec::new();
    member.write(EndianSig::Big, &mut be).unwrap();
    assert_eq!(be, [3, 1, b's', 0, 0, 0, 0, 4, b'P', b'i', b'n', b'g', 0]);
    let (field, size) = read_field(EndianSig::Big, &be, 0, be.len()).unwrap();
    assert_eq!(field, member);
    assert_eq!(size, 13);
    assert_eq!(read_field(EndianSig::Little, &be, 0, be.len()).unwrap_err(), Error::InvalidField);
    assert_eq!(read_field(EndianSig::Big, &be, 0, 12).unwrap_err(), Error::InvalidField);
    let signature = Field::Signature(Signature::try_from("a{sv}").unwrap());
    let mut out = Vec::new();
    signature.write(EndianSig::Little, &mut out).unwrap();
    assert_eq!(out, [8, 1, b'g', 0, 5, b'a', b'{', b's', b'v', b'}', 0]);
    assert_eq!(signature.text(), b"a{sv}");
    assert_eq!(signature.num(), 0);
    assert_eq!(Field::UnixFDs(7).num(), 7);
    assert_eq!(Field::UnixFDs(7).text(), b"");
    // Fields one after the other, each at a multiple of 8.
    let mut fields = Fields::new();
    fields.add(signature.clone());
    fields.add(Field::ReplySerial(1));
    let mut out = Vec::new();
    assert_eq!(fields.write(EndianSig::Little, &mut out).unwrap(), 24);
    assert_eq!(out.len(), 24);
    assert_eq!(out[11..16], [0; 5]);
    let (read, len) = Fields::read(EndianSig::Little, &out, 0, out.len()).unwrap();
    assert_eq!(read, fields);
    assert_eq!(len, 24);
    assert_eq!(read.clone(), fields);
    let mut last = Fields::new();
    last.add(Field::ReplySerial(1));
    last.add(signature);
    let mut out = Vec::new();
    assert_eq!(last.write(EndianSig::Little, &mut out).unwrap(), 19);
    assert_eq!(out.len(), 24);
    let (_, len) = Fields::read(EndianSig::Little, &out, 0, out.len()).unwrap();
    assert_eq!(len, 19);
    out[20] = 1;
    assert_eq!(
        Fields::read(EndianSig::Little, &out, 0, out.len()).unwrap_err(),
        Error::InvalidField
    );
}
