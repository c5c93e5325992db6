use zbus_core::message::fields::{Field, Fields};
use zbus_core::message::header::{Header, PrimaryHeader, Type};
use zbus_core::names::{
    BusName, ErrorName, InterfaceName, MemberName, ObjectPath, Signature, UniqueName,
};
use zbus_core::Error;

#[test]
fn header() -> Result<(), Error> {
    let path = ObjectPath::try_from("/some/path")?;
    let iface = InterfaceName::try_from("some.interface")?;
    let member = MemberName::try_from("Member")?;
    let mut f = Fields::new();
    f.add(Field::Path(path.clone()));
    f.add(Field::Interface(iface.clone()));
    f.add(Field::Member(member.clone()));
    f.add(Field::Sender(UniqueName::try_from(":1.84")?));
    let h = Header::new(PrimaryHeader::new(Type::Signal, 77), f);

    assert_eq!(h.message_type()?, Type::Signal);
    assert_eq!(h.path()?, Some(&path));
    assert_eq!(h.interface()?, Some(&iface));
    assert_eq!(h.member()?, Some(&member));
    assert_eq!(h.error_name()?, None);
    assert_eq!(h.destination()?, None);
    assert_eq!(h.reply_serial()?, None);
    assert_eq!(h.sender()?.unwrap().as_str(), ":1.84");
    assert_eq!(h.signature()?, None);
    assert_eq!(h.unix_fds()?, None);

    let mut f = Fields::new();
    f.add(Field::ErrorName(ErrorName::try_from("org.zbus.Error")?));
    f.add(Field::Destination(BusName::try_from(":1.11")?));
    f.add(Field::ReplySerial(88));
    f.add(Field::Signature(Signature::from_str_unchecked("say")));
    f.add(Field::UnixFDs(12));
    let h = Header::new(PrimaryHeader::new(Type::MethodReturn, 77), f);

    assert_eq!(h.message_type()?, Type::MethodReturn);
    assert_eq!(h.path()?, None);
    assert_eq!(h.interface()?, None);
    assert_eq!(h.member()?, None);
    assert_eq!(h.error_name()?.unwrap().as_str(), "org.zbus.Error");
    assert_eq!(h.destination()?.unwrap().as_str(), ":1.11");
    assert_eq!(h.reply_serial()?, Some(88));
    assert_eq!(h.sender()?, None);
    assert_eq!(h.signature()?, Some(&Signature::from_str_unchecked("say")));
    assert_eq!(h.unix_fds()?, Some(12));

    Ok(())
}

#[test]
fn header_parts() {
    let mut f = Fields::new();
    f.add(Field::ReplySerial(9));
    let mut h = Header::new(PrimaryHeader::new(Type::MethodReturn, 0), f);
    assert_eq!(h.primary().msg_type(), Type::MethodReturn);
    h.primary_mut().set_body_len(12);
    assert_eq!(h.primary().body_len(), 12);
    h.fields_mut().add(Field::UnixFDs(3));
    assert_eq!(h.fields().len(), 2);
    assert_eq!(h.unix_fds().unwrap(), Some(3));
    assert_eq!(h.reply_serial().unwrap(), Some(9));
    let copy = h.clone();
    assert_eq!(copy.fields(), h.fields());
    let fields = copy.into_fields();
    assert_eq!(fields.len(), 2);
    assert!(!fields.has_duplicates());
    let primary = h.into_primary();
    assert_eq!(primary.body_len(), 12);
    let mut twice = Fields::new();
    twice.add(Field::ReplySerial(1));
    twice.add(Field::UnixFDs(1));
    twice.add(Field::ReplySerial(2));
    assert!(twice.has_duplicates());
    // The first of two fields with the same code is the one that is found.
    assert_eq!(Header::new(PrimaryHeader::new(Type::Error, 0), twice).reply_serial().unwrap(), Some(1));
}
