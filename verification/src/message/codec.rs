use vstd::prelude::*;
use vstd::string::StringExecFns;
use crate::byte_order::{lemma_u32_write_read, u32_to_bytes, write_u32};
use crate::error::{Error, ErrorKind};
use crate::message::fields::{
    all_valid, all_wf, codes_unique, fields_to_bytes, fields_wire_len, find_field, has_code,
    lemma_fields_len, lemma_fields_wire_len, lemma_fields_write_read, lemma_find_field,
    lemma_find_push, lemma_padded_len, padded_len, parse_fields, Field, FieldCode, FieldView,
    Fields, ERROR_NAME, INTERFACE, MEMBER, PATH, REPLY_SERIAL, SIGNATURE, UNIX_FDS,
};
use crate::message::header::{
    parse_primary, FlagSet, Header, PrimaryHeader, PrimaryHeaderView, Type, MAX_MESSAGE_SIZE,
    MIN_MESSAGE_SIZE,
};
use crate::message::fields::{DESTINATION, SENDER};
use crate::names::{
    BusName, ErrorName, InterfaceName, MemberName, ObjectPath, Signature, UniqueName,
};
use crate::utils::{append_bytes, copy_range, lemma_padding_for, pad8, padding_for_8_bytes};

verus! {

/// What a message says, as plain values.
pub struct MessageView {
    /// The primary header.
    pub primary: PrimaryHeaderView,
    /// The header fields, in the order in which they stand in the message.
    pub fields: Seq<FieldView>,
    /// The bytes of the body.
    pub body: Seq<u8>,
    /// The file descriptors that travel with the message.
    pub fds: Seq<i32>,
    /// The place of the message among those received on its connection; 0 for
    /// a message that was made here.
    pub recv_seq: u64,
}

/// Whether the fields that a message of the type `t` cannot do without are
/// among `fs`.
pub open spec fn required_present(t: Type, fs: Seq<FieldView>) -> bool {
    match t {
        Type::MethodCall => has_code(fs, PATH) && has_code(fs, MEMBER),
        Type::Signal => has_code(fs, PATH) && has_code(fs, INTERFACE) && has_code(fs, MEMBER),
        Type::Error => has_code(fs, ERROR_NAME) && has_code(fs, REPLY_SERIAL),
        Type::MethodReturn => has_code(fs, REPLY_SERIAL),
        Type::Invalid => true,
    }
}

/// Whether the field that counts the file descriptors, where there is one,
/// gives the number `nfds`.
pub open spec fn fds_match(fs: Seq<FieldView>, nfds: nat) -> bool {
    match find_field(fs, UNIX_FDS) {
        Some(v) => v.num == nfds,
        None => true,
    }
}

/// The length of a whole message whose fields are stated to take
/// `fields_len` bytes and whose body takes `body_len` bytes.
pub open spec fn message_len(fields_len: int, body_len: int) -> int {
    16 + fields_len + pad8(16 + fields_len) + body_len
}

impl MessageView {
    /// The length of the fields as the header states it.
    pub open spec fn fields_len(self) -> int {
        fields_wire_len(self.fields)
    }

    /// Where the body starts: behind the header, at a multiple of 8.
    pub open spec fn body_offset(self) -> int {
        16 + self.fields_len() + pad8(16 + self.fields_len())
    }

    /// The length of the whole message on the wire.
    pub open spec fn total_len(self) -> int {
        message_len(self.fields_len(), self.body.len() as int)
    }

    /// A message that can be sent: a well-formed primary header of protocol
    /// version 1 that states the length of the body; well-formed fields, no
    /// code twice, those that the message type requires among them, and the
    /// count of file descriptors right where it is given; and no more bytes
    /// in all than a message may have.
    pub open spec fn wf(self) -> bool {
        &&& self.primary.wf()
        &&& self.primary.protocol_version == 1
        &&& self.primary.body_len == self.body.len()
        &&& all_wf(self.fields)
        &&& codes_unique(self.fields)
        &&& fds_match(self.fields, self.fds.len())
        &&& required_present(self.primary.msg_type, self.fields)
        &&& self.total_len() <= MAX_MESSAGE_SIZE
    }

    /// The bytes of the message on the wire: the primary header, the length
    /// of the fields, the fields with their padding, the body.
    pub open spec fn to_bytes(self) -> Seq<u8> {
        self.primary.to_bytes() + u32_to_bytes(self.primary.endian_sig, self.fields_len() as u32)
            + fields_to_bytes(self.primary.endian_sig, self.fields) + self.body
    }
}

/// What reading a whole message from `bytes` gives, with the file descriptors
/// `fds` that came with it and its place `recv_seq` among the messages
/// received: the message, or the kind of error that the bytes lead to.
///
/// The checks come in this order: the primary header; the length (more than
/// a message may have gives `ExcessData`, fewer bytes than the header
/// announces `InputOutput`, more `ExcessData`); the fields, their stated
/// length, codes that occur twice and the count of file descriptors
/// (`InvalidField`); the fields that the message type requires
/// (`MissingField`).
pub open spec fn parse_message(bytes: Seq<u8>, fds: Seq<i32>, recv_seq: u64) -> Result<
    MessageView,
    ErrorKind,
> {
    match parse_primary(bytes) {
        Err(kind) => Err(kind),
        Ok((primary, fields_len)) => {
            let body_offset = 16 + fields_len + pad8(16 + fields_len);
            let total = body_offset + primary.body_len;
            if total > MAX_MESSAGE_SIZE {
                Err(ErrorKind::ExcessData)
            } else if bytes.len() < total {
                Err(ErrorKind::InputOutput)
            } else if bytes.len() > total {
                Err(ErrorKind::ExcessData)
            } else {
                match parse_fields(primary.endian_sig, bytes.subrange(16, body_offset)) {
                    None => Err(ErrorKind::InvalidField),
                    Some(fs) => if fields_wire_len(fs) != fields_len || !codes_unique(fs)
                        || !fds_match(fs, fds.len()) {
                        Err(ErrorKind::InvalidField)
                    } else if !required_present(primary.msg_type, fs) {
                        Err(ErrorKind::MissingField)
                    } else {
                        Ok(
                            MessageView {
                                primary: primary,
                                fields: fs,
                                body: bytes.skip(body_offset),
                                fds: fds,
                                recv_seq: recv_seq,
                            },
                        )
                    },
                }
            }
        },
    }
}

/// The parts of the bytes of a well-formed message: their number is the
/// total length, which is 16, the stated length of the fields, the padding
/// that brings these to a multiple of 8, and the length of the body.
pub proof fn lemma_message_layout(v: MessageView)
    requires
        v.wf(),
    ensures
        v.to_bytes().len() == v.total_len(),
        v.total_len() == 16 + v.fields_len() + pad8(16 + v.fields_len()) + v.primary.body_len,
        v.body_offset() == 16 + padded_len(v.fields),
        0 <= v.fields_len() <= MAX_MESSAGE_SIZE,
        v.to_bytes().subrange(0, 12) == v.primary.to_bytes(),
        v.to_bytes().subrange(12, 16) == u32_to_bytes(
            v.primary.endian_sig,
            v.fields_len() as u32,
        ),
        v.to_bytes().subrange(16, v.body_offset()) == fields_to_bytes(
            v.primary.endian_sig,
            v.fields,
        ),
        v.to_bytes().skip(v.body_offset()) == v.body,
{
    let sig = v.primary.endian_sig;
    let len = v.fields_len();
    assert(all_valid(v.fields)) by {
        assert forall|i: int| 0 <= i < v.fields.len() implies (#[trigger] v.fields[i]).valid() by {
            assert(v.fields[i].wf());
        }
    }
    lemma_fields_len(sig, v.fields);
    lemma_fields_wire_len(v.fields);
    lemma_padded_len(v.fields);
    lemma_padding_for(len, 8);
    lemma_padding_for(16 + len, 8);
    assert(pad8(16 + len) == pad8(len));
    lemma_u32_write_read(sig, v.primary.body_len, Seq::empty());
    lemma_u32_write_read(sig, v.primary.wire_serial(), Seq::empty());
    lemma_u32_write_read(sig, len as u32, Seq::empty());
    let p = v.primary.to_bytes();
    let l = u32_to_bytes(sig, len as u32);
    let f = fields_to_bytes(sig, v.fields);
    let b = v.to_bytes();
    assert(p.len() == 12);
    assert(b.subrange(0, 12) =~= p);
    assert(b.subrange(12, 16) =~= l);
    assert(b.subrange(16, v.body_offset()) =~= f);
    assert(b.skip(v.body_offset()) =~= v.body);
}

/// Reading the bytes of a well-formed message gives the message back:
/// decoding undoes encoding.
pub proof fn lemma_encode_decode(v: MessageView)
    requires
        v.wf(),
    ensures
        parse_message(v.to_bytes(), v.fds, v.recv_seq) == Ok::<MessageView, ErrorKind>(v),
{
    let sig = v.primary.endian_sig;
    let len = v.fields_len();
    let b = v.to_bytes();
    lemma_message_layout(v);
    lemma_primary_write_read(
        v.primary,
        len as u32,
        fields_to_bytes(sig, v.fields) + v.body,
    );
    assert(b =~= v.primary.to_bytes() + u32_to_bytes(sig, len as u32) + (fields_to_bytes(
        sig,
        v.fields,
    ) + v.body));
    lemma_fields_write_read(sig, v.fields);
}

/// Reading a written primary header and the length of the fields behind it
/// gives both back, whatever follows them.
pub proof fn lemma_primary_write_read(p: PrimaryHeaderView, fields_len: u32, rest: Seq<u8>)
    requires
        p.wf(),
        p.protocol_version == 1,
    ensures
        parse_primary(p.to_bytes() + u32_to_bytes(p.endian_sig, fields_len) + rest) == Ok::<
            (PrimaryHeaderView, u32),
            ErrorKind,
        >((p, fields_len)),
{
    let sig = p.endian_sig;
    let head = seq![p.endian_sig.spec_byte(), p.msg_type.spec_code(), p.flags, p.protocol_version];
    let body_len = u32_to_bytes(sig, p.body_len);
    let serial = u32_to_bytes(sig, p.wire_serial());
    let len = u32_to_bytes(sig, fields_len);
    let b = p.to_bytes() + len + rest;
    lemma_u32_write_read(sig, p.body_len, serial + len + rest);
    lemma_u32_write_read(sig, p.wire_serial(), len + rest);
    lemma_u32_write_read(sig, fields_len, rest);
    assert(b =~= head + (body_len + (serial + (len + rest))));
    assert(b[0] == head[0] && b[1] == head[1] && b[2] == head[2] && b[3] == head[3]);
    assert(b.skip(4) =~= body_len + (serial + len + rest));
    assert(b.skip(8) =~= serial + (len + rest));
    assert(b.skip(12) =~= len + rest);
    let f = p.flags;
    assert(f & !0x7u8 == 0 ==> f & 0x7u8 == f) by (bit_vector);
}

/// The fields that a message carries on the wire, given the fields that its
/// sender chose: behind these stands the signature of the body, where there
/// is one, and then the count of the file descriptors, where there are any.
pub open spec fn encoded_fields(
    fields: Seq<FieldView>,
    signature: Option<Seq<u8>>,
    nfds: nat,
) -> Seq<FieldView> {
    let with_signature = match signature {
        Some(text) => fields.push(FieldView { code: SIGNATURE, text: text, num: 0 }),
        None => fields,
    };
    if nfds > 0 {
        with_signature.push(FieldView { code: UNIX_FDS, text: Seq::empty(), num: nfds as u32 })
    } else {
        with_signature
    }
}

/// Why a message cannot be made of these parts, if it cannot.
///
/// `InvalidField`: the fields hold a code twice, or a signature or a count of
/// file descriptors, which are not the sender's to choose; or a signature is
/// given for an empty body, or none for a body that is not empty.
/// `MissingField`: a field that the message type requires is absent.
/// `ExcessData`: the message would be longer than a message may be.
pub open spec fn encode_failure(
    msg_type: Type,
    fields: Seq<FieldView>,
    signature: Option<Seq<u8>>,
    body_len: nat,
    nfds: nat,
) -> Option<ErrorKind> {
    if has_code(fields, SIGNATURE) || has_code(fields, UNIX_FDS) || !codes_unique(fields) || (
    body_len > 0) != (signature is Some) {
        Some(ErrorKind::InvalidField)
    } else if !required_present(msg_type, fields) {
        Some(ErrorKind::MissingField)
    } else if nfds > u32::MAX || message_len(
        fields_wire_len(encoded_fields(fields, signature, nfds)),
        body_len as int,
    ) > MAX_MESSAGE_SIZE {
        Some(ErrorKind::ExcessData)
    } else {
        None
    }
}

/// Whether `res` is what making a message of these parts gives: the error of
/// the kind that [`encode_failure`] names, or else a well-formed message with
/// these parts, the fields that [`encoded_fields`] gives, no serial number,
/// and the bytes that [`MessageView::to_bytes`] gives, whose number is 16,
/// the length of the fields, the padding to a multiple of 8, and the length
/// of the body.
pub open spec fn is_encoding(
    res: Result<Message, Error>,
    msg_type: Type,
    flags: u8,
    fields: Seq<FieldView>,
    signature: Option<Seq<u8>>,
    body: Seq<u8>,
    fds: Seq<i32>,
) -> bool {
    match encode_failure(msg_type, fields, signature, body.len(), fds.len()) {
        Some(kind) => res matches Err(e) && e.spec_kind() == kind,
        None => res matches Ok(m) && m@.wf() && m@.primary.msg_type == msg_type
            && m@.primary.flags == flags && m@.primary.serial_num is None && m@.fields
            == encoded_fields(fields, signature, fds.len()) && m@.body == body && m@.fds == fds
            && m@.recv_seq == 0 && m.spec_bytes() == m@.to_bytes() && m.spec_bytes().len() == 16
            + m@.fields_len() + pad8(16 + m@.fields_len()) + body.len(),
    }
}

/// `text` with `prefix` and the text that `value` spells behind it, where
/// there is a value.
pub open spec fn with_name(text: Seq<char>, prefix: Seq<char>, value: Option<FieldView>) -> Seq<char> {
    match value {
        Some(v) => text + prefix + vstd::utf8::decode_utf8(v.text),
        None => text,
    }
}

/// A short description of a message: `Method call`, `Method return`,
/// `Error`, `Signal` or `Unknown message`; then, behind a space, the member
/// for a method call and a signal, and the name of the error for an error,
/// where the message has that field; then ` from ` and the sender, where the
/// message names one.
pub open spec fn message_text(m: MessageView) -> Seq<char> {
    let named = match m.primary.msg_type {
        Type::MethodCall => with_name("Method call"@, " "@, find_field(m.fields, MEMBER)),
        Type::MethodReturn => "Method return"@,
        Type::Error => with_name("Error"@, " "@, find_field(m.fields, ERROR_NAME)),
        Type::Signal => with_name("Signal"@, " "@, find_field(m.fields, MEMBER)),
        Type::Invalid => "Unknown message"@,
    };
    with_name(named, " from "@, find_field(m.fields, SENDER))
}

/// The bytes of `org.freedesktop.DBus.Error.UnknownMethod`, the name of the
/// error that answers a method call which nobody is there to answer.
pub open spec fn unknown_method_name() -> Seq<u8> {
    seq![
        0x6f, 0x72, 0x67, 0x2e, 0x66, 0x72, 0x65, 0x65, 0x64, 0x65, 0x73, 0x6b, 0x74, 0x6f,
        0x70, 0x2e, 0x44, 0x42, 0x75, 0x73, 0x2e, 0x45, 0x72, 0x72, 0x6f, 0x72, 0x2e, 0x55,
        0x6e, 0x6b, 0x6e, 0x6f, 0x77, 0x6e, 0x4d, 0x65, 0x74, 0x68, 0x6f, 0x64,
    ]
}

/// The name of the error for unknown methods is the name of an error.
pub proof fn lemma_unknown_method_name()
    ensures
        crate::names::is_error_name(unknown_method_name()),
{
    let s = unknown_method_name();
    assert(s.len() == 40);
    assert(s[3] == 0x2e);
}

/// The text of a signature that may be absent.
pub open spec fn signature_text(signature: Option<Signature>) -> Option<Seq<u8>> {
    match signature {
        Some(s) => Some(s@),
        None => None,
    }
}

/// Whether the fields that a message of the type `t` cannot do without are
/// among `fields`.
pub fn has_required(t: Type, fields: &Fields) -> (ok: bool)
    ensures
        ok == required_present(t, fields@),
{
    match t {
        Type::MethodCall => fields.get_field(FieldCode::Path).is_some() && fields.get_field(
            FieldCode::Member,
        ).is_some(),
        Type::Signal => fields.get_field(FieldCode::Path).is_some() && fields.get_field(
            FieldCode::Interface,
        ).is_some() && fields.get_field(FieldCode::Member).is_some(),
        Type::Error => fields.get_field(FieldCode::ErrorName).is_some() && fields.get_field(
            FieldCode::ReplySerial,
        ).is_some(),
        Type::MethodReturn => fields.get_field(FieldCode::ReplySerial).is_some(),
        Type::Invalid => true,
    }
}

/// One more field with a code that none of the others has keeps the codes
/// unique, and the fields that were found are still found.
proof fn lemma_push_fresh(fs: Seq<FieldView>, v: FieldView)
    requires
        codes_unique(fs),
        !has_code(fs, v.code),
    ensures
        codes_unique(fs.push(v)),
        forall|code: u8| has_code(fs, code) ==> #[trigger] has_code(fs.push(v), code),
        forall|code: u8|
            code != v.code ==> #[trigger] find_field(fs.push(v), code) == find_field(fs, code),
        find_field(fs.push(v), v.code) == Some(v),
{
    lemma_find_field(fs, v.code);
    let all = fs.push(v);
    assert forall|i: int, j: int| 0 <= i < j < all.len() implies #[trigger] all[i].code
        != #[trigger] all[j].code by {
        if j < fs.len() {
            assert(fs[i].code != fs[j].code);
        } else {
            assert(fs[i].code != v.code);
        }
    }
    assert forall|code: u8| has_code(fs, code) implies #[trigger] has_code(all, code) by {
        lemma_find_push(fs, v, code);
    }
    assert forall|code: u8| code != v.code implies #[trigger] find_field(all, code) == find_field(
        fs,
        code,
    ) by {
        lemma_find_push(fs, v, code);
    }
    lemma_find_push(fs, v, v.code);
}

/// A D-Bus message: its bytes as they stand on the wire, the file descriptors
/// that travel with it, and its place among the messages received.
///
/// The header that was read from the bytes is kept beside them; the body is
/// kept as bytes, for a value codec to read.
#[derive(Debug)]
pub struct Message {
    primary: PrimaryHeader,
    fields: Fields,
    bytes: Vec<u8>,
    body_offset: usize,
    fds: Vec<i32>,
    recv_seq: u64,
}

impl View for Message {
    type V = MessageView;

    closed spec fn view(&self) -> MessageView {
        MessageView {
            primary: self.primary@,
            fields: self.fields@,
            body: self.bytes@.skip(self.body_offset as int),
            fds: self.fds@,
            recv_seq: self.recv_seq,
        }
    }
}

impl Message {
    /// The bytes of a message are always such that reading them gives the
    /// message.
    #[verifier::type_invariant]
    spec fn inv(self) -> bool {
        &&& parse_message(self.bytes@, self.fds@, self.recv_seq) == Ok::<MessageView, ErrorKind>(
            self@,
        )
        &&& self.body_offset == self@.body_offset()
    }

    /// Makes a message of the type `msg_type` with the flags `flags`, the
    /// header fields `fields`, and the body `body`, whose types
    /// `body_signature` describes, accompanied by the file descriptors `fds`.
    ///
    /// The message is written in the byte order of this machine. Its serial
    /// number is left unassigned: the connection assigns it on sending. The
    /// signature and the count of the file descriptors become header fields
    /// behind those given.
    pub fn encode(
        msg_type: Type,
        flags: FlagSet,
        fields: Fields,
        body_signature: Option<Signature>,
        body: &[u8],
        fds: Vec<i32>,
    ) -> (res: Result<Message, Error>)
        ensures
            is_encoding(
                res,
                msg_type,
                flags.spec_bits(),
                fields@,
                signature_text(body_signature),
                body@,
                fds@,
            ),
    {
        let ghost given = fields@;
        let ghost signature = signature_text(body_signature);
        let ghost nfds = fds@.len();
        if fields.get_field(FieldCode::Signature).is_some() || fields.get_field(
            FieldCode::UnixFDs,
        ).is_some() || fields.has_duplicates() || (body.len() > 0) != body_signature.is_some() {
            return Err(Error::InvalidField);
        }
        if !has_required(msg_type, &fields) {
            return Err(Error::MissingField);
        }
        if fds.len() > 0xffff_ffff {
            return Err(Error::ExcessData);
        }
        let fields = complete_fields(fields, body_signature, fds.len() as u32);
        proof {
            lemma_encoded_unique(msg_type, given, signature, nfds);
        }
        Self::build(msg_type, flags, fields, body, fds)
    }

    /// Makes a message of parts that are complete: the fields are those that
    /// the message carries.
    fn build(msg_type: Type, flags: FlagSet, fields: Fields, body: &[u8], fds: Vec<i32>) -> (res:
        Result<Message, Error>)
        requires
            codes_unique(fields@),
            required_present(msg_type, fields@),
            fds_match(fields@, fds@.len()),
        ensures
            message_len(fields_wire_len(fields@), body@.len() as int) > MAX_MESSAGE_SIZE ==> (
            res matches Err(e) && e is ExcessData),
            message_len(fields_wire_len(fields@), body@.len() as int) <= MAX_MESSAGE_SIZE ==> (
            res matches Ok(m) && m@.wf() && m@.primary.msg_type == msg_type && m@.primary.flags
                == flags.spec_bits() && m@.primary.serial_num is None && m@.fields == fields@
                && m@.body == body@ && m@.fds == fds@ && m@.recv_seq == 0 && m.spec_bytes()
                == m@.to_bytes() && m.spec_bytes().len() == 16 + m@.fields_len() + pad8(
                16 + m@.fields_len(),
            ) + body@.len()),
    {
        let _ = fields.check_valid();
        proof {
            lemma_message_len(fields@, body@.len() as int);
            lemma_padded_len(fields@);
        }
        if body.len() > MAX_MESSAGE_SIZE {
            return Err(Error::ExcessData);
        }
        let mut primary = PrimaryHeader::new(msg_type, body.len() as u32);
        primary.set_flags(flags);
        let (bytes, body_offset) = match write_message(&primary, &fields, body) {
            Ok(r) => r,
            Err(e) => {
                return Err(e);
            },
        };
        let ghost view = MessageView {
            primary: primary@,
            fields: fields@,
            body: body@,
            fds: fds@,
            recv_seq: 0,
        };
        proof {
            assert(view.wf());
            lemma_message_layout(view);
            lemma_encode_decode(view);
        }
        Ok(Message { primary, fields, bytes, body_offset, fds, recv_seq: 0 })
    }

    /// Makes a method call: a message of the type `MethodCall` with no
    /// flags, for the member `member` of the object at `path`. The fields
    /// are, in this order: the path, the member, and where they are given
    /// the interface, the destination and the sender. See
    /// [`Message::encode`] for the rest.
    pub fn method(
        sender: Option<UniqueName>,
        destination: Option<BusName>,
        path: ObjectPath,
        interface: Option<InterfaceName>,
        member: MemberName,
        body_signature: Option<Signature>,
        body: &[u8],
        fds: Vec<i32>,
    ) -> (res: Result<Message, Error>)
        ensures
            is_encoding(
                res,
                Type::MethodCall,
                0,
                addressed_fields(
                    seq![
                        FieldView { code: PATH, text: path@, num: 0 },
                        FieldView { code: MEMBER, text: member@, num: 0 },
                    ],
                    match interface {
                        Some(v) => Some(v@),
                        None => None,
                    },
                    match destination {
                        Some(v) => Some(v@),
                        None => None,
                    },
                    match sender {
                        Some(v) => Some(v@),
                        None => None,
                    },
                ),
                signature_text(body_signature),
                body@,
                fds@,
            ),
    {
        let ghost first = seq![
            FieldView { code: PATH, text: path@, num: 0 },
            FieldView { code: MEMBER, text: member@, num: 0 },
        ];
        let mut fields = Fields::new();
        fields.add(Field::Path(path));
        fields.add(Field::Member(member));
        assert(fields@ =~= first);
        let fields = address_fields(fields, interface, destination, sender);
        Self::encode(Type::MethodCall, FlagSet::empty(), fields, body_signature, body, fds)
    }

    /// Makes a signal: a message of the type `Signal` with no flags, for the
    /// member `member` of the interface `interface` of the object at `path`.
    /// The fields are, in this order: the path, the member, the interface,
    /// and where they are given the destination and the sender. See
    /// [`Message::encode`] for the rest.
    pub fn signal(
        sender: Option<UniqueName>,
        destination: Option<BusName>,
        path: ObjectPath,
        interface: InterfaceName,
        member: MemberName,
        body_signature: Option<Signature>,
        body: &[u8],
        fds: Vec<i32>,
    ) -> (res: Result<Message, Error>)
        ensures
            is_encoding(
                res,
                Type::Signal,
                0,
                addressed_fields(
                    seq![
                        FieldView { code: PATH, text: path@, num: 0 },
                        FieldView { code: MEMBER, text: member@, num: 0 },
                    ],
                    Some(interface@),
                    match destination {
                        Some(v) => Some(v@),
                        None => None,
                    },
                    match sender {
                        Some(v) => Some(v@),
                        None => None,
                    },
                ),
                signature_text(body_signature),
                body@,
                fds@,
            ),
    {
        let ghost first = seq![
            FieldView { code: PATH, text: path@, num: 0 },
            FieldView { code: MEMBER, text: member@, num: 0 },
        ];
        let mut fields = Fields::new();
        fields.add(Field::Path(path));
        fields.add(Field::Member(member));
        assert(fields@ =~= first);
        let fields = address_fields(fields, Some(interface), destination, sender);
        Self::encode(Type::Signal, FlagSet::empty(), fields, body_signature, body, fds)
    }

    /// Makes the reply to the method call with the serial number
    /// `reply_serial`: a message of the type `MethodReturn` with no flags.
    /// The fields are, in this order: the serial number of the call, and
    /// where they are given the destination and the sender. See
    /// [`Message::encode`] for the rest.
    pub fn method_reply(
        sender: Option<UniqueName>,
        destination: Option<BusName>,
        reply_serial: u32,
        body_signature: Option<Signature>,
        body: &[u8],
        fds: Vec<i32>,
    ) -> (res: Result<Message, Error>)
        ensures
            is_encoding(
                res,
                Type::MethodReturn,
                0,
                addressed_fields(
                    seq![FieldView { code: REPLY_SERIAL, text: Seq::empty(), num: reply_serial }],
                    None,
                    match destination {
                        Some(v) => Some(v@),
                        None => None,
                    },
                    match sender {
                        Some(v) => Some(v@),
                        None => None,
                    },
                ),
                signature_text(body_signature),
                body@,
                fds@,
            ),
    {
        let ghost first = seq![
            FieldView { code: REPLY_SERIAL, text: Seq::empty(), num: reply_serial },
        ];
        let mut fields = Fields::new();
        fields.add(Field::ReplySerial(reply_serial));
        assert(fields@ =~= first);
        let fields = address_fields(fields, None, destination, sender);
        Self::encode(Type::MethodReturn, FlagSet::empty(), fields, body_signature, body, fds)
    }

    /// Makes the error reply with the name `name` to the method call with
    /// the serial number `reply_serial`: a message of the type `Error` with
    /// no flags. The fields are, in this order: the name of the error, the
    /// serial number of the call, and where they are given the destination
    /// and the sender. See [`Message::encode`] for the rest.
    pub fn method_error(
        sender: Option<UniqueName>,
        destination: Option<BusName>,
        reply_serial: u32,
        name: ErrorName,
        body_signature: Option<Signature>,
        body: &[u8],
        fds: Vec<i32>,
    ) -> (res: Result<Message, Error>)
        ensures
            is_encoding(
                res,
                Type::Error,
                0,
                addressed_fields(
                    seq![
                        FieldView { code: ERROR_NAME, text: name@, num: 0 },
                        FieldView { code: REPLY_SERIAL, text: Seq::empty(), num: reply_serial },
                    ],
                    None,
                    match destination {
                        Some(v) => Some(v@),
                        None => None,
                    },
                    match sender {
                        Some(v) => Some(v@),
                        None => None,
                    },
                ),
                signature_text(body_signature),
                body@,
                fds@,
            ),
    {
        let ghost first = seq![
            FieldView { code: ERROR_NAME, text: name@, num: 0 },
            FieldView { code: REPLY_SERIAL, text: Seq::empty(), num: reply_serial },
        ];
        let mut fields = Fields::new();
        fields.add(Field::ErrorName(name));
        fields.add(Field::ReplySerial(reply_serial));
        assert(fields@ =~= first);
        let fields = address_fields(fields, None, destination, sender);
        Self::encode(Type::Error, FlagSet::empty(), fields, body_signature, body, fds)
    }

    /// Makes the error that answers the method call `call` where nobody is
    /// there to answer it: an error with the name
    /// `org.freedesktop.DBus.Error.UnknownMethod` in reply to the serial
    /// number of the call, for the sender of the call where the call names
    /// one.
    ///
    /// A call without a serial number cannot be answered: that gives
    /// `MissingField`.
    pub fn unknown_method(call: &Message) -> (res: Result<Message, Error>)
        ensures
            match call@.primary.serial_num {
                None => res matches Err(e) && e is MissingField,
                Some(serial) => is_encoding(
                    res,
                    Type::Error,
                    0,
                    addressed_fields(
                        seq![
                            FieldView { code: ERROR_NAME, text: unknown_method_name(), num: 0 },
                            FieldView { code: REPLY_SERIAL, text: Seq::empty(), num: serial },
                        ],
                        None,
                        match find_field(call@.fields, SENDER) {
                            Some(v) => Some(v.text),
                            None => None,
                        },
                        None,
                    ),
                    None,
                    Seq::empty(),
                    Seq::empty(),
                ),
            },
    {
        let serial = match call.serial_num() {
            Some(serial) => serial,
            None => {
                return Err(Error::MissingField);
            },
        };
        let bytes: Vec<u8> = vec![
            0x6f, 0x72, 0x67, 0x2e, 0x66, 0x72, 0x65, 0x65, 0x64, 0x65, 0x73, 0x6b, 0x74, 0x6f,
            0x70, 0x2e, 0x44, 0x42, 0x75, 0x73, 0x2e, 0x45, 0x72, 0x72, 0x6f, 0x72, 0x2e, 0x55,
            0x6e, 0x6b, 0x6e, 0x6f, 0x77, 0x6e, 0x4d, 0x65, 0x74, 0x68, 0x6f, 0x64,
        ];
        proof {
            lemma_unknown_method_name();
        }
        assert(bytes@ =~= unknown_method_name());
        let name = match ErrorName::from_bytes(bytes) {
            Ok(name) => name,
            Err(e) => {
                return Err(e);
            },
        };
        let destination = match call.fields.get_field(FieldCode::Sender) {
            Some(sender) => {
                let text = vstd::slice::slice_to_vec(sender.text());
                proof {
                    reveal(crate::message::fields::text_valid);
                    assert(crate::names::is_unique_name(text@));
                    crate::names::lemma_unique_is_bus_name(text@);
                }
                match BusName::from_bytes(text) {
                    Ok(name) => Some(name),
                    Err(e) => {
                        return Err(e);
                    },
                }
            },
            None => None,
        };
        let empty: Vec<u8> = Vec::new();
        Self::method_error(None, destination, serial, name, None, empty.as_slice(), Vec::new())
    }

    /// Reads a message from its bytes `bytes`, the file descriptors `fds`
    /// that came with them, and its place `recv_seq` among the messages
    /// received.
    ///
    /// The numbers are read in the byte order that the first byte declares.
    /// The bytes have to be one whole message, in the exact form in which
    /// messages are written: see [`parse_message`] for the checks and their
    /// order.
    pub fn from_raw_parts(bytes: Vec<u8>, fds: Vec<i32>, recv_seq: u64) -> (res: Result<
        Message,
        Error,
    >)
        ensures
            match parse_message(bytes@, fds@, recv_seq) {
                Ok(v) => res matches Ok(m) && m@ == v && m.spec_bytes() == bytes@,
                Err(kind) => res matches Err(e) && e.spec_kind() == kind,
            },
    {
        let (primary, fields_len) = match PrimaryHeader::read(bytes.as_slice()) {
            Ok(r) => r,
            Err(e) => {
                return Err(e);
            },
        };
        let sig = primary.endian_sig();
        let body_len = primary.body_len();
        proof {
            lemma_padding_for(16 + fields_len, 8);
        }
        if fields_len > 0x800_0000 || body_len > 0x800_0000 {
            return Err(Error::ExcessData);
        }
        let header_len: usize = 16 + fields_len as usize;
        let body_offset = header_len + padding_for_8_bytes(header_len);
        let total = body_offset + body_len as usize;
        if total > MAX_MESSAGE_SIZE {
            return Err(Error::ExcessData);
        }
        if bytes.len() < total {
            return Err(Error::UnexpectedEof);
        }
        if bytes.len() > total {
            return Err(Error::ExcessData);
        }
        let (fields, wire_len) = match Fields::read(sig, bytes.as_slice(), 16, body_offset) {
            Ok(r) => r,
            Err(e) => {
                return Err(e);
            },
        };
        if wire_len != fields_len as usize || fields.has_duplicates() {
            return Err(Error::InvalidField);
        }
        match fields.get_field(FieldCode::UnixFDs) {
            Some(f) => {
                if fds.len() > 0xffff_ffff || f.num() != fds.len() as u32 {
                    return Err(Error::InvalidField);
                }
            },
            None => {},
        }
        if !has_required(primary.msg_type(), &fields) {
            return Err(Error::MissingField);
        }
        Ok(Message { primary, fields, bytes, body_offset, fds, recv_seq })
    }

    /// The bytes of the message as they stand on the wire.
    pub closed spec fn spec_bytes(&self) -> Seq<u8> {
        self.bytes@
    }

    /// The bytes of the message as they stand on the wire. Reading them gives
    /// the message.
    pub fn as_bytes(&self) -> (bytes: &[u8])
        ensures
            bytes@ == self.spec_bytes(),
            parse_message(bytes@, self@.fds, self@.recv_seq) == Ok::<MessageView, ErrorKind>(
                self@,
            ),
            bytes@.len() == self@.total_len(),
            MIN_MESSAGE_SIZE <= bytes@.len() <= MAX_MESSAGE_SIZE,
    {
        proof {
            use_type_invariant(self);
            lemma_padding_for(16 + self@.fields_len(), 8);
        }
        self.bytes.as_slice()
    }

    /// The bytes of the body.
    pub fn body(&self) -> (body: &[u8])
        ensures
            body@ == self@.body,
            body@.len() == self@.primary.body_len,
    {
        proof {
            use_type_invariant(self);
            lemma_padding_for(16 + self@.fields_len(), 8);
        }
        let n = self.bytes.len();
        let body = vstd::slice::slice_subrange(self.bytes.as_slice(), self.body_offset, n);
        assert(body@ =~= self.bytes@.skip(self.body_offset as int));
        body
    }

    /// The file descriptors that travel with the message.
    pub fn fds(&self) -> (fds: &Vec<i32>)
        ensures
            fds@ == self@.fds,
    {
        &self.fds
    }

    /// The place of the message among the messages received on its
    /// connection; 0 for a message that was made here.
    pub fn recv_seq(&self) -> (seq: u64)
        ensures
            seq == self@.recv_seq,
    {
        self.recv_seq
    }

    /// The primary header of the message.
    pub fn primary_header(&self) -> (primary: &PrimaryHeader)
        ensures
            primary@ == self@.primary,
    {
        &self.primary
    }

    /// The header fields of the message.
    pub fn fields(&self) -> (fields: &Fields)
        ensures
            fields@ == self@.fields,
    {
        &self.fields
    }

    /// The header of the message: a copy of its primary header and fields.
    pub fn header(&self) -> (header: Header)
        ensures
            header@.primary == self@.primary,
            header@.fields == self@.fields,
    {
        Header::new(self.primary.clone(), self.fields.clone())
    }

    /// The type of the message.
    pub fn message_type(&self) -> (t: Type)
        ensures
            t == self@.primary.msg_type,
    {
        self.primary.msg_type()
    }

    /// A short description of the message: its type, then the member for a
    /// method call and a signal and the name of the error for an error, and
    /// the sender where the message names one. See [`message_text`].
    pub fn to_string(&self) -> (text: String)
        ensures
            text@ == message_text(self@),
    {
        broadcast use vstd::utf8::encode_utf8_decode_utf8;

        let mut out = match self.primary.msg_type() {
            Type::MethodCall => String::from_str("Method call"),
            Type::MethodReturn => String::from_str("Method return"),
            Type::Error => String::from_str("Error"),
            Type::Signal => String::from_str("Signal"),
            Type::Invalid => String::from_str("Unknown message"),
        };
        let named = match self.primary.msg_type() {
            Type::MethodCall | Type::Signal => self.fields.get_field(FieldCode::Member),
            Type::Error => self.fields.get_field(FieldCode::ErrorName),
            _ => None,
        };
        match named {
            Some(Field::Member(name)) => {
                out.append(" ");
                out.append(name.as_str());
            },
            Some(Field::ErrorName(name)) => {
                out.append(" ");
                out.append(name.as_str());
            },
            _ => {},
        }
        match self.fields.get_field(FieldCode::Sender) {
            Some(Field::Sender(name)) => {
                out.append(" from ");
                out.append(name.as_str());
            },
            _ => {},
        }
        out
    }

    /// The serial number of the message, if one is assigned.
    pub fn serial_num(&self) -> (serial: Option<u32>)
        ensures
            serial == self@.primary.serial_num,
            serial != Some(0u32),
    {
        match self.primary.serial_num() {
            Some(n) => Some(*n),
            None => None,
        }
    }

    /// The serial number of the message that this message answers, if it
    /// names one.
    pub fn reply_serial(&self) -> (serial: Option<u32>)
        ensures
            serial == match find_field(self@.fields, REPLY_SERIAL) {
                Some(v) => Some(v.num),
                None => None,
            },
    {
        match self.fields.get_field(FieldCode::ReplySerial) {
            Some(f) => Some(f.num()),
            None => None,
        }
    }

    /// This message with the serial number `serial`, where it had none and
    /// `serial` is not 0; else this message as it is: a serial number that is
    /// assigned never changes, and 0 is no serial number.
    ///
    /// The serial number is written into the bytes of the message; nothing
    /// else changes.
    pub fn with_serial(self, serial: u32) -> (m: Message)
        ensures
            self@.primary.serial_num is None && serial != 0 ==> m@ == (MessageView {
                primary: PrimaryHeaderView { serial_num: Some(serial), ..self@.primary },
                ..self@
            }) && m.spec_bytes() == self.spec_bytes().take(8) + u32_to_bytes(
                self@.primary.endian_sig,
                serial,
            ) + self.spec_bytes().skip(12),
            !(self@.primary.serial_num is None && serial != 0) ==> m@ == self@ && m.spec_bytes()
                == self.spec_bytes(),
    {
        proof {
            use_type_invariant(&self);
        }
        if serial == 0 || self.primary.serial_num().is_some() {
            return self;
        }
        let ghost old_bytes = self.bytes@;
        let ghost old_view = self@;
        let Message { primary, fields, bytes, body_offset, fds, recv_seq } = self;
        let sig = primary.endian_sig();
        let mut primary = primary;
        let assigned = primary.serial_num_or_init(|| -> (n: u32) ensures n == serial { serial });
        let mut patched = copy_range(bytes.as_slice(), 0, 8);
        write_u32(sig, &mut patched, serial);
        let n = bytes.len();
        append_bytes(&mut patched, vstd::slice::slice_subrange(bytes.as_slice(), 12, n));
        proof {
            lemma_padding_for(16 + old_view.fields_len(), 8);
            let new_bytes = patched@;
            assert(new_bytes =~= old_bytes.take(8) + u32_to_bytes(sig, serial) + old_bytes.skip(12));
            lemma_u32_write_read(sig, serial, old_bytes.skip(12));
            assert(new_bytes.len() == old_bytes.len());
            assert forall|i: int| 0 <= i < new_bytes.len() && !(8 <= i < 12) implies new_bytes[i]
                == old_bytes[i] by {}
            assert(new_bytes.skip(8) =~= u32_to_bytes(sig, serial) + old_bytes.skip(12));
            let a = new_bytes.skip(4);
            let b = old_bytes.skip(4);
            assert(a[0] == b[0] && a[1] == b[1] && a[2] == b[2] && a[3] == b[3]);
            let c = new_bytes.skip(12);
            let d = old_bytes.skip(12);
            assert(c[0] == d[0] && c[1] == d[1] && c[2] == d[2] && c[3] == d[3]);
            assert(new_bytes.subrange(16, body_offset as int) =~= old_bytes.subrange(
                16,
                body_offset as int,
            ));
            assert(new_bytes.skip(body_offset as int) =~= old_bytes.skip(body_offset as int));
        }
        Message { primary, fields, bytes: patched, body_offset, fds, recv_seq }
    }
}

/// The fields `fields` with those behind them that say whom a message is
/// for and from whom it is, where they are given: the interface, the
/// destination, the sender.
pub open spec fn addressed_fields(
    fields: Seq<FieldView>,
    interface: Option<Seq<u8>>,
    destination: Option<Seq<u8>>,
    sender: Option<Seq<u8>>,
) -> Seq<FieldView> {
    let f1 = match interface {
        Some(v) => fields.push(FieldView { code: INTERFACE, text: v, num: 0 }),
        None => fields,
    };
    let f2 = match destination {
        Some(v) => f1.push(FieldView { code: DESTINATION, text: v, num: 0 }),
        None => f1,
    };
    match sender {
        Some(v) => f2.push(FieldView { code: SENDER, text: v, num: 0 }),
        None => f2,
    }
}

/// The fields `fields` with the interface, the destination and the sender
/// behind them, where they are given.
fn address_fields(
    fields: Fields,
    interface: Option<InterfaceName>,
    destination: Option<BusName>,
    sender: Option<UniqueName>,
) -> (all: Fields)
    ensures
        all@ == addressed_fields(
            fields@,
            match interface {
                Some(v) => Some(v@),
                None => None,
            },
            match destination {
                Some(v) => Some(v@),
                None => None,
            },
            match sender {
                Some(v) => Some(v@),
                None => None,
            },
        ),
{
    let mut fields = fields;
    match interface {
        Some(v) => {
            fields.add(Field::Interface(v));
        },
        None => {},
    }
    match destination {
        Some(v) => {
            fields.add(Field::Destination(v));
        },
        None => {},
    }
    match sender {
        Some(v) => {
            fields.add(Field::Sender(v));
        },
        None => {},
    }
    fields
}

/// The given fields with the signature of the body behind them, where there
/// is one, and then the count of the file descriptors, where it is not 0.
fn complete_fields(fields: Fields, body_signature: Option<Signature>, nfds: u32) -> (all: Fields)
    ensures
        all@ == encoded_fields(fields@, signature_text(body_signature), nfds as nat),
{
    let mut fields = fields;
    match body_signature {
        Some(s) => {
            fields.add(Field::Signature(s));
        },
        None => {},
    }
    if nfds > 0 {
        fields.add(Field::UnixFDs(nfds));
    }
    fields
}

/// The bytes of the message with the primary header `primary`, the fields
/// `fields` and the body `body`, and the place where the body starts in
/// them; or `ExcessData` where they are more than a message may have.
fn write_message(primary: &PrimaryHeader, fields: &Fields, body: &[u8]) -> (res: Result<
    (Vec<u8>, usize),
    Error,
>)
    requires
        body@.len() <= MAX_MESSAGE_SIZE,
    ensures
        all_valid(fields@),
        16 + padded_len(fields@) + body@.len() <= MAX_MESSAGE_SIZE ==> (res matches Ok(
            (bytes, offset),
        ) && all_wf(fields@) && offset == 16 + padded_len(fields@) && bytes@
            == primary@.to_bytes() + u32_to_bytes(
            primary@.endian_sig,
            fields_wire_len(fields@) as u32,
        ) + fields_to_bytes(primary@.endian_sig, fields@) + body@),
        16 + padded_len(fields@) + body@.len() > MAX_MESSAGE_SIZE ==> (res matches Err(e) && e
            is ExcessData),
{
    let sig = primary.endian_sig();
    let mut field_bytes: Vec<u8> = Vec::new();
    let fields_len = match fields.write(sig, &mut field_bytes) {
        Ok(len) => len,
        Err(e) => {
            return Err(e);
        },
    };
    proof {
        lemma_fields_len(sig, fields@);
        lemma_fields_wire_len(fields@);
        assert(field_bytes@ =~= fields_to_bytes(sig, fields@));
    }
    if field_bytes.len() > MAX_MESSAGE_SIZE - 16 || body.len() > MAX_MESSAGE_SIZE - 16
        - field_bytes.len() {
        return Err(Error::ExcessData);
    }
    let mut bytes: Vec<u8> = Vec::new();
    primary.write(&mut bytes);
    write_u32(sig, &mut bytes, fields_len as u32);
    append_bytes(&mut bytes, field_bytes.as_slice());
    append_bytes(&mut bytes, body);
    Ok((bytes, 16 + field_bytes.len()))
}

/// The length of a message in terms of the padded length of its fields.
pub proof fn lemma_message_len(fs: Seq<FieldView>, body_len: int)
    requires
        all_valid(fs),
    ensures
        message_len(fields_wire_len(fs), body_len) == 16 + padded_len(fs) + body_len,
{
    lemma_fields_wire_len(fs);
    lemma_padding_for(16 + fields_wire_len(fs), 8);
    lemma_padding_for(fields_wire_len(fs), 8);
}

/// Parts that can be made into a message give unique codes, the required
/// fields and the right count of file descriptors in the fields that the
/// message carries.
proof fn lemma_encoded_unique(
    msg_type: Type,
    fields: Seq<FieldView>,
    signature: Option<Seq<u8>>,
    nfds: nat,
)
    requires
        !has_code(fields, SIGNATURE),
        !has_code(fields, UNIX_FDS),
        codes_unique(fields),
        required_present(msg_type, fields),
        nfds <= u32::MAX,
    ensures
        codes_unique(encoded_fields(fields, signature, nfds)),
        required_present(msg_type, encoded_fields(fields, signature, nfds)),
        fds_match(encoded_fields(fields, signature, nfds), nfds),
{
    let count = FieldView { code: UNIX_FDS, text: Seq::empty(), num: nfds as u32 };
    match signature {
        Some(text) => {
            let v = FieldView { code: SIGNATURE, text: text, num: 0 };
            lemma_push_fresh(fields, v);
            if nfds > 0 {
                lemma_push_fresh(fields.push(v), count);
            }
        },
        None => {
            if nfds > 0 {
                lemma_push_fresh(fields, count);
            }
        },
    }
}

} // verus!
