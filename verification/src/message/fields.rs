use vstd::prelude::*;
use crate::byte_order::{read_u32, write_u32, u32_from_bytes, u32_to_bytes, lemma_u32_write_read};
use crate::error::Error;
use crate::message::header::{EndianSig, MAX_MESSAGE_SIZE};
use crate::names::{
    BusName, ErrorName, InterfaceName, MemberName, ObjectPath, Signature, UniqueName, is_bus_name,
    is_error_name, is_interface_name, is_member_name, is_object_path, is_signature,
    is_unique_name,
};
use crate::utils::{
    all_zero, append_bytes, append_zeros, copy_range, is_zero_range, lemma_padding_for, pad8,
    padded8, padding_for_8_bytes, zeros,
};

verus! {

/// The message field code.
#[derive(Debug, Clone, Copy, PartialEq, Eq, Structural)]
pub enum FieldCode {
    /// The object to send a call to, or the object a signal is emitted from.
    Path,
    /// The interface to invoke a method call on, or that a signal is emitted from.
    Interface,
    /// The member, either the method name or signal name.
    Member,
    /// The name of the error that occurred, for errors.
    ErrorName,
    /// The serial number of the message this message is a reply to.
    ReplySerial,
    /// The name of the connection this message is intended for.
    Destination,
    /// Unique name of the sending connection.
    Sender,
    /// The signature of the message body.
    Signature,
    /// The number of Unix file descriptors that accompany the message.
    UnixFDs,
}

impl FieldCode {
    /// The number of this field code on the wire, 1 to 9.
    pub open spec fn spec_code(self) -> u8 {
        match self {
            FieldCode::Path => 1,
            FieldCode::Interface => 2,
            FieldCode::Member => 3,
            FieldCode::ErrorName => 4,
            FieldCode::ReplySerial => 5,
            FieldCode::Destination => 6,
            FieldCode::Sender => 7,
            FieldCode::Signature => 8,
            FieldCode::UnixFDs => 9,
        }
    }

    /// The number of this field code on the wire, 1 to 9.
    #[verifier::when_used_as_spec(spec_code)]
    pub fn code(self) -> (c: u8)
        ensures
            c == self.spec_code(),
            1 <= c <= 9,
    {
        match self {
            FieldCode::Path => 1,
            FieldCode::Interface => 2,
            FieldCode::Member => 3,
            FieldCode::ErrorName => 4,
            FieldCode::ReplySerial => 5,
            FieldCode::Destination => 6,
            FieldCode::Sender => 7,
            FieldCode::Signature => 8,
            FieldCode::UnixFDs => 9,
        }
    }
}

/// The code of the path field.
pub const PATH: u8 = 1;

/// The code of the interface field.
pub const INTERFACE: u8 = 2;

/// The code of the member field.
pub const MEMBER: u8 = 3;

/// The code of the error name field.
pub const ERROR_NAME: u8 = 4;

/// The code of the reply serial field.
pub const REPLY_SERIAL: u8 = 5;

/// The code of the destination field.
pub const DESTINATION: u8 = 6;

/// The code of the sender field.
pub const SENDER: u8 = 7;

/// The code of the signature field.
pub const SIGNATURE: u8 = 8;

/// The code of the field that counts the file descriptors.
pub const UNIX_FDS: u8 = 9;

/// The dynamic message header.
///
/// All D-Bus messages contain a set of metadata headers. Some are fixed for
/// all types of messages (see the primary header), others depend on the type
/// of the message in question: these are the fields.
#[derive(Debug, PartialEq, Eq)]
pub enum Field {
    /// The object to send a call to, or the object a signal is emitted from.
    Path(ObjectPath),
    /// The interface to invoke a method call on, or that a signal is emitted from.
    Interface(InterfaceName),
    /// The member, either the method name or signal name.
    Member(MemberName),
    /// The name of the error that occurred, for errors.
    ErrorName(ErrorName),
    /// The serial number of the message this message is a reply to.
    ReplySerial(u32),
    /// The name of the connection this message is intended for.
    Destination(BusName),
    /// Unique name of the sending connection.
    Sender(UniqueName),
    /// The signature of the message body.
    Signature(Signature),
    /// The number of Unix file descriptors that accompany the message.
    UnixFDs(u32),
}

/// What a field says, as plain values: its code, and the text or the number
/// that it carries. A field carries the one or the other.
pub struct FieldView {
    pub code: u8,
    pub text: Seq<u8>,
    pub num: u32,
}

/// Whether the field with this code carries a number.
pub open spec fn is_num_code(code: u8) -> bool {
    code == REPLY_SERIAL || code == UNIX_FDS
}

/// Whether `text` may stand in the field with this code. The fields that
/// carry a number have no text.
#[verifier::opaque]
pub open spec fn text_valid(code: u8, text: Seq<u8>) -> bool {
    if code == PATH {
        is_object_path(text)
    } else if code == INTERFACE {
        is_interface_name(text)
    } else if code == MEMBER {
        is_member_name(text)
    } else if code == ERROR_NAME {
        is_error_name(text)
    } else if code == DESTINATION {
        is_bus_name(text)
    } else if code == SENDER {
        is_unique_name(text)
    } else if code == SIGNATURE {
        is_signature(text)
    } else {
        text.len() == 0
    }
}

/// The type code that announces the value of the field with this code: `o`
/// for the path, `g` for the signature, `u` for numbers, `s` for the rest.
pub open spec fn type_char(code: u8) -> u8 {
    if code == PATH {
        0x6f
    } else if code == SIGNATURE {
        0x67
    } else if is_num_code(code) {
        0x75
    } else {
        0x73
    }
}

/// The four bytes that start a field: its code, and the signature of its
/// value, which is one character long.
pub open spec fn field_head(code: u8) -> Seq<u8> {
    seq![code, 1u8, type_char(code), 0u8]
}

/// A string on the wire: its length as a number, its bytes, a zero byte.
pub open spec fn string_bytes(sig: EndianSig, text: Seq<u8>) -> Seq<u8> {
    u32_to_bytes(sig, text.len() as u32) + text + seq![0u8]
}

/// A signature on the wire: its length as one byte, its bytes, a zero byte.
pub open spec fn signature_bytes(text: Seq<u8>) -> Seq<u8> {
    seq![text.len() as u8] + text + seq![0u8]
}

/// Appends the four bytes that start the field with this code.
fn write_field_head(out: &mut Vec<u8>, code: u8)
    ensures
        final(out)@ == old(out)@ + field_head(code),
{
    let ghost before = out@;
    let t: u8 = if code == PATH {
        0x6f
    } else if code == SIGNATURE {
        0x67
    } else if code == REPLY_SERIAL || code == UNIX_FDS {
        0x75
    } else {
        0x73
    };
    out.push(code);
    out.push(1);
    out.push(t);
    out.push(0);
    assert(out@ =~= before + field_head(code));
}

/// Appends a string as it stands on the wire.
fn write_string(sig: EndianSig, out: &mut Vec<u8>, text: &[u8])
    requires
        text@.len() <= u32::MAX,
    ensures
        final(out)@ == old(out)@ + string_bytes(sig, text@),
{
    let ghost before = out@;
    write_u32(sig, out, text.len() as u32);
    append_bytes(out, text);
    out.push(0);
    assert(out@ =~= before + string_bytes(sig, text@));
}

/// Appends a signature as it stands on the wire.
fn write_signature(out: &mut Vec<u8>, text: &[u8])
    requires
        text@.len() <= u8::MAX,
    ensures
        final(out)@ == old(out)@ + signature_bytes(text@),
{
    let ghost before = out@;
    out.push(text.len() as u8);
    append_bytes(out, text);
    out.push(0);
    assert(out@ =~= before + signature_bytes(text@));
}

impl FieldView {
    /// A field as the type [`Field`] holds it: a known code, a text that is
    /// valid for it, and no number beside a text.
    pub open spec fn valid(self) -> bool {
        &&& 1 <= self.code <= 9
        &&& text_valid(self.code, self.text)
        &&& (is_num_code(self.code) || self.num == 0)
    }

    /// A field that can stand in a message: a valid field whose text fits in
    /// a message.
    pub open spec fn wf(self) -> bool {
        &&& self.valid()
        &&& self.text.len() <= MAX_MESSAGE_SIZE
    }

    /// The bytes of this field on the wire, in the byte order `sig`: the
    /// code, the type of the value as a signature of one character, and the
    /// value. Texts carry their length in front and a zero byte behind.
    pub open spec fn to_bytes(self, sig: EndianSig) -> Seq<u8> {
        field_head(self.code) + self.value_bytes(sig)
    }

    /// The bytes of the value of this field on the wire.
    pub open spec fn value_bytes(self, sig: EndianSig) -> Seq<u8> {
        if is_num_code(self.code) {
            u32_to_bytes(sig, self.num)
        } else if self.code == SIGNATURE {
            signature_bytes(self.text)
        } else {
            string_bytes(sig, self.text)
        }
    }

    /// The number of bytes of this field on the wire.
    pub open spec fn wire_len(self) -> int {
        if is_num_code(self.code) {
            8
        } else if self.code == SIGNATURE {
            6 + self.text.len() as int
        } else {
            9 + self.text.len() as int
        }
    }
}

impl View for Field {
    type V = FieldView;

    open spec fn view(&self) -> FieldView {
        match self {
            Field::Path(v) => FieldView { code: PATH, text: v@, num: 0 },
            Field::Interface(v) => FieldView { code: INTERFACE, text: v@, num: 0 },
            Field::Member(v) => FieldView { code: MEMBER, text: v@, num: 0 },
            Field::ErrorName(v) => FieldView { code: ERROR_NAME, text: v@, num: 0 },
            Field::ReplySerial(n) => FieldView { code: REPLY_SERIAL, text: Seq::empty(), num: *n },
            Field::Destination(v) => FieldView { code: DESTINATION, text: v@, num: 0 },
            Field::Sender(v) => FieldView { code: SENDER, text: v@, num: 0 },
            Field::Signature(v) => FieldView { code: SIGNATURE, text: v@, num: 0 },
            Field::UnixFDs(n) => FieldView { code: UNIX_FDS, text: Seq::empty(), num: *n },
        }
    }
}

impl Clone for Field {
    fn clone(&self) -> (res: Self)
        ensures
            res@ == self@,
    {
        match self {
            Field::Path(v) => Field::Path(v.clone()),
            Field::Interface(v) => Field::Interface(v.clone()),
            Field::Member(v) => Field::Member(v.clone()),
            Field::ErrorName(v) => Field::ErrorName(v.clone()),
            Field::ReplySerial(n) => Field::ReplySerial(*n),
            Field::Destination(v) => Field::Destination(v.clone()),
            Field::Sender(v) => Field::Sender(v.clone()),
            Field::Signature(v) => Field::Signature(v.clone()),
            Field::UnixFDs(n) => Field::UnixFDs(*n),
        }
    }
}

impl Field {
    /// The code of this field.
    pub fn code(&self) -> (code: FieldCode)
        ensures
            code.spec_code() == self@.code,
    {
        match self {
            Field::Path(_) => FieldCode::Path,
            Field::Interface(_) => FieldCode::Interface,
            Field::Member(_) => FieldCode::Member,
            Field::ErrorName(_) => FieldCode::ErrorName,
            Field::ReplySerial(_) => FieldCode::ReplySerial,
            Field::Destination(_) => FieldCode::Destination,
            Field::Sender(_) => FieldCode::Sender,
            Field::Signature(_) => FieldCode::Signature,
            Field::UnixFDs(_) => FieldCode::UnixFDs,
        }
    }

    /// The text that this field carries; empty for a field that carries a
    /// number. The text is valid for the field's code.
    pub fn text(&self) -> (text: &[u8])
        ensures
            text@ == self@.text,
            text_valid(self@.code, self@.text),
            1 <= self@.code <= 9,
            is_num_code(self@.code) || self@.num == 0,
    {
        reveal(text_valid);
        match self {
            Field::Path(v) => v.as_str().as_bytes(),
            Field::Interface(v) => v.as_str().as_bytes(),
            Field::Member(v) => v.as_str().as_bytes(),
            Field::ErrorName(v) => v.as_str().as_bytes(),
            Field::ReplySerial(_) => &[],
            Field::Destination(v) => v.as_str().as_bytes(),
            Field::Sender(v) => v.as_str().as_bytes(),
            Field::Signature(v) => v.as_str().as_bytes(),
            Field::UnixFDs(_) => &[],
        }
    }

    /// The number that this field carries; 0 for a field that carries a text.
    pub fn num(&self) -> (num: u32)
        ensures
            num == self@.num,
    {
        match self {
            Field::ReplySerial(n) => *n,
            Field::UnixFDs(n) => *n,
            _ => 0,
        }
    }

    /// Appends the bytes of this field to `out`, in the byte order `sig`.
    /// A text too long for any message gives `ExcessData`, and `out` is left
    /// as it was.
    pub fn write(&self, sig: EndianSig, out: &mut Vec<u8>) -> (res: Result<(), Error>)
        ensures
            self@.text.len() <= MAX_MESSAGE_SIZE ==> res is Ok && final(out)@ == old(out)@
                + self@.to_bytes(sig),
            self@.text.len() > MAX_MESSAGE_SIZE ==> (res matches Err(e) && e is ExcessData)
                && final(out)@ == old(out)@,
    {
        let ghost before = out@;
        let ghost view = self@;
        let code = self.code().code();
        let text = self.text();
        let num = self.num();
        assert(code == view.code && text@ == view.text && num == view.num);
        if text.len() > MAX_MESSAGE_SIZE {
            return Err(Error::ExcessData);
        }
        write_field_head(out, code);
        assert(code == SIGNATURE ==> text@.len() <= u8::MAX) by {
            reveal(text_valid);
        }
        if code == REPLY_SERIAL || code == UNIX_FDS {
            write_u32(sig, out, num);
        } else if code == SIGNATURE {
            write_signature(out, text);
        } else {
            write_string(sig, out, text);
        }
        assert(out@ == before + field_head(code) + view.value_bytes(sig));
        assert(out@ =~= before + view.to_bytes(sig));
        Ok(())
    }
}

/// What reading one field at the start of `s` gives, in the byte order `sig`:
/// the field and the number of bytes that it takes, or nothing where `s` does
/// not start with a field. Only the exact form that [`FieldView::to_bytes`]
/// writes is a field: a known code, the one type that goes with it, and a
/// valid text.
#[verifier::opaque]
pub open spec fn parse_field(sig: EndianSig, s: Seq<u8>) -> Option<(FieldView, int)> {
    if s.len() < 4 || !(1 <= s[0] <= 9) || s[1] != 1 || s[2] != type_char(s[0]) || s[3] != 0 {
        None
    } else if is_num_code(s[0]) {
        if s.len() < 8 {
            None
        } else {
            Some(
                (
                    FieldView {
                        code: s[0],
                        text: Seq::empty(),
                        num: u32_from_bytes(sig, s.skip(4)) as u32,
                    },
                    8,
                ),
            )
        }
    } else if s[0] == SIGNATURE {
        if s.len() < 5 || s.len() < 6 + s[4] {
            None
        } else {
            let text = s.subrange(5, 5 + s[4]);
            if s[5 + s[4]] != 0 || !text_valid(s[0], text) {
                None
            } else {
                Some((FieldView { code: s[0], text: text, num: 0 }, 6 + s[4]))
            }
        }
    } else {
        if s.len() < 8 || s.len() < 9 + u32_from_bytes(sig, s.skip(4)) {
            None
        } else {
            let n = u32_from_bytes(sig, s.skip(4));
            let text = s.subrange(8, 8 + n);
            if s[8 + n] != 0 || !text_valid(s[0], text) {
                None
            } else {
                Some((FieldView { code: s[0], text: text, num: 0 }, 9 + n))
            }
        }
    }
}

/// A well-formed field takes as many bytes as `wire_len` says, at least 6.
pub proof fn lemma_field_len(v: FieldView, sig: EndianSig)
    requires
        v.wf(),
    ensures
        v.to_bytes(sig).len() == v.wire_len(),
        6 <= v.wire_len() <= MAX_MESSAGE_SIZE + 9,
{
    lemma_u32_write_read(sig, v.num, Seq::empty());
    lemma_u32_write_read(sig, v.text.len() as u32, Seq::empty());
    if v.code == SIGNATURE {
        reveal(text_valid);
    }
}

/// Reading a written field that carries a number gives the field back.
proof fn lemma_num_field_write_read(v: FieldView, sig: EndianSig, rest: Seq<u8>)
    requires
        v.wf(),
        is_num_code(v.code),
    ensures
        parse_field(sig, v.to_bytes(sig) + rest) == Some((v, v.wire_len())),
{
    reveal(parse_field);
    reveal(text_valid);
    let s = v.to_bytes(sig) + rest;
    let head = field_head(v.code);
    let num = u32_to_bytes(sig, v.num);
    lemma_u32_write_read(sig, v.num, rest);
    assert(s =~= head + (num + rest));
    assert(s[0] == head[0] && s[1] == head[1] && s[2] == head[2] && s[3] == head[3]);
    assert(s.skip(4) =~= num + rest);
    assert(v.text =~= Seq::empty());
}

/// Reading a written field that carries a signature gives the field back.
proof fn lemma_signature_field_write_read(v: FieldView, sig: EndianSig, rest: Seq<u8>)
    requires
        v.wf(),
        v.code == SIGNATURE,
    ensures
        parse_field(sig, v.to_bytes(sig) + rest) == Some((v, v.wire_len())),
{
    reveal(parse_field);
    assert(is_signature(v.text)) by {
        reveal(text_valid);
    }
    let s = v.to_bytes(sig) + rest;
    let head = field_head(v.code);
    let n = v.text.len() as int;
    assert(n <= 255);
    let tail = seq![n as u8] + v.text + seq![0u8] + rest;
    assert(s =~= head + tail);
    assert(s[0] == head[0] && s[1] == head[1] && s[2] == head[2] && s[3] == head[3]);
    assert(s[4] == tail[0]);
    assert(s.subrange(5, 5 + n) =~= v.text);
    assert(s[5 + n] == tail[1 + n]);
    assert(text_valid(s[0], v.text));
}

/// Reading a written field that carries a string or an object path gives the
/// field back.
proof fn lemma_string_field_write_read(v: FieldView, sig: EndianSig, rest: Seq<u8>)
    requires
        v.wf(),
        !is_num_code(v.code),
        v.code != SIGNATURE,
    ensures
        parse_field(sig, v.to_bytes(sig) + rest) == Some((v, v.wire_len())),
{
    reveal(parse_field);
    let s = v.to_bytes(sig) + rest;
    let head = field_head(v.code);
    let n = v.text.len() as int;
    let len = u32_to_bytes(sig, n as u32);
    let tail = v.text + seq![0u8] + rest;
    lemma_u32_write_read(sig, n as u32, tail);
    assert(s =~= head + (len + tail));
    assert(s[0] == head[0] && s[1] == head[1] && s[2] == head[2] && s[3] == head[3]);
    assert(s.skip(4) =~= len + tail);
    assert(s.subrange(8, 8 + n) =~= v.text);
    assert(s[8 + n] == tail[n]);
}

/// Reading what was written gives the field back, whatever follows it.
pub proof fn lemma_field_write_read(v: FieldView, sig: EndianSig, rest: Seq<u8>)
    requires
        v.wf(),
    ensures
        parse_field(sig, v.to_bytes(sig) + rest) == Some((v, v.wire_len())),
{
    if is_num_code(v.code) {
        lemma_num_field_write_read(v, sig, rest);
    } else if v.code == SIGNATURE {
        lemma_signature_field_write_read(v, sig, rest);
    } else {
        lemma_string_field_write_read(v, sig, rest);
    }
}

/// The field with the code `code` that carries `text`, or `InvalidField`
/// where the text is not valid for the code.
fn text_field(code: u8, text: Vec<u8>) -> (res: Result<Field, Error>)
    requires
        1 <= code <= 9,
        !is_num_code(code),
    ensures
        text_valid(code, text@) ==> (res matches Ok(f) && f@ == FieldView {
            code: code,
            text: text@,
            num: 0,
        }),
        !text_valid(code, text@) ==> (res matches Err(e) && e is InvalidField),
{
    reveal(text_valid);
    if code == PATH {
        match ObjectPath::from_bytes(text) {
            Ok(v) => Ok(Field::Path(v)),
            Err(e) => Err(e),
        }
    } else if code == INTERFACE {
        match InterfaceName::from_bytes(text) {
            Ok(v) => Ok(Field::Interface(v)),
            Err(e) => Err(e),
        }
    } else if code == MEMBER {
        match MemberName::from_bytes(text) {
            Ok(v) => Ok(Field::Member(v)),
            Err(e) => Err(e),
        }
    } else if code == ERROR_NAME {
        match ErrorName::from_bytes(text) {
            Ok(v) => Ok(Field::ErrorName(v)),
            Err(e) => Err(e),
        }
    } else if code == DESTINATION {
        match BusName::from_bytes(text) {
            Ok(v) => Ok(Field::Destination(v)),
            Err(e) => Err(e),
        }
    } else if code == SENDER {
        match UniqueName::from_bytes(text) {
            Ok(v) => Ok(Field::Sender(v)),
            Err(e) => Err(e),
        }
    } else {
        match Signature::from_bytes(text) {
            Ok(v) => Ok(Field::Signature(v)),
            Err(e) => Err(e),
        }
    }
}

/// Reads the field that starts at `pos` and ends before `end`, in the byte
/// order `sig`. Gives the field and the number of bytes that it takes, or
/// `InvalidField` where the bytes are not a field.
pub fn read_field(sig: EndianSig, buf: &[u8], pos: usize, end: usize) -> (res: Result<
    (Field, usize),
    Error,
>)
    requires
        pos <= end <= buf.len(),
    ensures
        match parse_field(sig, buf@.subrange(pos as int, end as int)) {
            Some((v, size)) => res matches Ok((f, n)) && f@ == v && n == size && pos + size
                <= end,
            None => res matches Err(e) && e is InvalidField,
        },
{
    reveal(parse_field);
    let ghost s = buf@.subrange(pos as int, end as int);
    let avail = end - pos;
    if avail < 4 {
        return Err(Error::InvalidField);
    }
    let code = buf[pos];
    assert(s[0] == buf@[pos as int] && s[1] == buf@[pos + 1] && s[2] == buf@[pos + 2] && s[3]
        == buf@[pos + 3]);
    if code < 1 || code > 9 || buf[pos + 1] != 1 || buf[pos + 3] != 0 {
        return Err(Error::InvalidField);
    }
    let t = buf[pos + 2];
    let num = code == REPLY_SERIAL || code == UNIX_FDS;
    let expected: u8 = if code == PATH {
        0x6f
    } else if code == SIGNATURE {
        0x67
    } else if num {
        0x75
    } else {
        0x73
    };
    if t != expected {
        return Err(Error::InvalidField);
    }
    if num {
        if avail < 8 {
            return Err(Error::InvalidField);
        }
        let n = read_u32(sig, buf, pos + 4);
        proof {
            let a = buf@.skip(pos + 4);
            let b = s.skip(4);
            assert(a[0] == b[0] && a[1] == b[1] && a[2] == b[2] && a[3] == b[3]);
        }
        let field = if code == REPLY_SERIAL {
            Field::ReplySerial(n)
        } else {
            Field::UnixFDs(n)
        };
        Ok((field, 8))
    } else if code == SIGNATURE {
        if avail < 5 {
            return Err(Error::InvalidField);
        }
        let n = buf[pos + 4] as usize;
        assert(s[4] == buf@[pos + 4]);
        if avail < 6 + n {
            return Err(Error::InvalidField);
        }
        assert(s[5 + n] == buf@[pos + 5 + n]);
        if buf[pos + 5 + n] != 0 {
            return Err(Error::InvalidField);
        }
        let text = copy_range(buf, pos + 5, pos + 5 + n);
        assert(text@ =~= s.subrange(5, 5 + n));
        match text_field(code, text) {
            Ok(field) => Ok((field, 6 + n)),
            Err(e) => Err(e),
        }
    } else {
        if avail < 8 {
            return Err(Error::InvalidField);
        }
        let n = read_u32(sig, buf, pos + 4) as usize;
        proof {
            let a = buf@.skip(pos + 4);
            let b = s.skip(4);
            assert(a[0] == b[0] && a[1] == b[1] && a[2] == b[2] && a[3] == b[3]);
        }
        if avail - 8 < 1 || avail - 9 < n {
            return Err(Error::InvalidField);
        }
        assert(s[8 + n] == buf@[pos + 8 + n]);
        if buf[pos + 8 + n] != 0 {
            return Err(Error::InvalidField);
        }
        let text = copy_range(buf, pos + 8, pos + 8 + n);
        assert(text@ =~= s.subrange(8, 8 + n));
        match text_field(code, text) {
            Ok(field) => Ok((field, 9 + n)),
            Err(e) => Err(e),
        }
    }
}

/// The first of the fields that has the code `code`, if there is one.
pub open spec fn find_field(fs: Seq<FieldView>, code: u8) -> Option<FieldView>
    decreases fs.len(),
{
    if fs.len() == 0 {
        None
    } else if fs[0].code == code {
        Some(fs[0])
    } else {
        find_field(fs.skip(1), code)
    }
}

/// Whether one of the fields has the code `code`.
pub open spec fn has_code(fs: Seq<FieldView>, code: u8) -> bool {
    find_field(fs, code) is Some
}

/// Whether no two of the fields have the same code.
pub open spec fn codes_unique(fs: Seq<FieldView>) -> bool {
    forall|i: int, j: int| 0 <= i < j < fs.len() ==> #[trigger] fs[i].code != #[trigger] fs[j].code
}

/// Whether every one of the fields is well formed.
pub open spec fn all_wf(fs: Seq<FieldView>) -> bool {
    forall|i: int| 0 <= i < fs.len() ==> #[trigger] fs[i].wf()
}

/// The bytes of the fields on the wire, in the byte order `sig`: each field
/// followed by the zero bytes that bring it to a multiple of 8.
pub open spec fn fields_to_bytes(sig: EndianSig, fs: Seq<FieldView>) -> Seq<u8>
    decreases fs.len(),
{
    if fs.len() == 0 {
        Seq::empty()
    } else {
        padded8(fs[0].to_bytes(sig)) + fields_to_bytes(sig, fs.skip(1))
    }
}

/// The number of bytes that the fields take on the wire, each with the
/// padding behind it.
pub open spec fn padded_len(fs: Seq<FieldView>) -> int
    decreases fs.len(),
{
    if fs.len() == 0 {
        0
    } else {
        fs[0].wire_len() + pad8(fs[0].wire_len()) + padded_len(fs.skip(1))
    }
}

/// The length of the fields as the header states it: the padding behind the
/// last field does not count.
pub open spec fn fields_wire_len(fs: Seq<FieldView>) -> int {
    if fs.len() == 0 {
        0
    } else {
        padded_len(fs) - pad8(fs.last().wire_len())
    }
}

/// What reading fields from `s` up to its end gives, in the byte order `sig`:
/// the fields, or nothing where `s` is not made of fields, each followed by
/// zero bytes up to a multiple of 8.
pub open spec fn parse_fields(sig: EndianSig, s: Seq<u8>) -> Option<Seq<FieldView>>
    decreases s.len(),
{
    if s.len() == 0 {
        Some(Seq::empty())
    } else {
        match parse_field(sig, s) {
            None => None,
            Some((v, size)) => {
                let step = size + pad8(size);
                if size <= 0 || step > s.len() || !all_zero(s.subrange(size, step)) {
                    None
                } else {
                    prepend(seq![v], parse_fields(sig, s.skip(step)))
                }
            },
        }
    }
}

/// `rest` with `first` in front of it, where there is a `rest`.
pub open spec fn prepend(first: Seq<FieldView>, rest: Option<Seq<FieldView>>) -> Option<
    Seq<FieldView>,
> {
    match rest {
        Some(r) => Some(first + r),
        None => None,
    }
}

/// The bytes of two lists of fields, one after the other, are the bytes of
/// the joined list; and so for the lengths.
pub proof fn lemma_fields_concat(sig: EndianSig, a: Seq<FieldView>, b: Seq<FieldView>)
    ensures
        fields_to_bytes(sig, a + b) == fields_to_bytes(sig, a) + fields_to_bytes(sig, b),
        padded_len(a + b) == padded_len(a) + padded_len(b),
    decreases a.len(),
{
    if a.len() == 0 {
        assert(a + b =~= b);
        assert(fields_to_bytes(sig, a) + fields_to_bytes(sig, b) =~= fields_to_bytes(sig, b));
    } else {
        lemma_fields_concat(sig, a.skip(1), b);
        assert((a + b).skip(1) =~= a.skip(1) + b);
        assert((a + b)[0] == a[0]);
        assert(fields_to_bytes(sig, a + b) =~= fields_to_bytes(sig, a) + fields_to_bytes(sig, b));
    }
}

/// The bytes of a list with one more field at its end.
pub proof fn lemma_fields_push(sig: EndianSig, a: Seq<FieldView>, v: FieldView)
    ensures
        fields_to_bytes(sig, a.push(v)) == fields_to_bytes(sig, a) + padded8(v.to_bytes(sig)),
        padded_len(a.push(v)) == padded_len(a) + v.wire_len() + pad8(v.wire_len()),
{
    let one = seq![v];
    assert(a.push(v) =~= a + one);
    lemma_fields_concat(sig, a, one);
    assert(one.skip(1) =~= Seq::<FieldView>::empty());
    assert(fields_to_bytes(sig, one) =~= padded8(v.to_bytes(sig))) by {
        reveal_with_fuel(fields_to_bytes, 2);
    }
    assert(padded_len(one) == v.wire_len() + pad8(v.wire_len())) by {
        reveal_with_fuel(padded_len, 2);
    }
}

/// Whether every one of the fields is valid.
pub open spec fn all_valid(fs: Seq<FieldView>) -> bool {
    forall|i: int| 0 <= i < fs.len() ==> #[trigger] fs[i].valid()
}

/// The padded length is a multiple of 8, at least 8 for each field.
pub proof fn lemma_padded_len(fs: Seq<FieldView>)
    requires
        all_valid(fs),
    ensures
        padded_len(fs) % 8 == 0,
        padded_len(fs) >= 8 * fs.len(),
        forall|i: int| 0 <= i < fs.len() ==> (#[trigger] fs[i]).wire_len() <= padded_len(fs),
    decreases fs.len(),
{
    if fs.len() > 0 {
        let rest = fs.skip(1);
        assert(fs[0].valid());
        assert forall|i: int| 0 <= i < rest.len() implies #[trigger] rest[i].valid() by {
            assert(fs[i + 1].valid());
        }
        lemma_padded_len(rest);
        lemma_padding_for(fs[0].wire_len(), 8);
        assert forall|i: int| 0 <= i < fs.len() implies (#[trigger] fs[i]).wire_len()
            <= padded_len(fs) by {
            if i > 0 {
                assert(fs[i] == rest[i - 1]);
            }
        }
    }
}

/// Well-formed fields take `padded_len` bytes on the wire.
pub proof fn lemma_fields_len(sig: EndianSig, fs: Seq<FieldView>)
    requires
        all_wf(fs),
    ensures
        fields_to_bytes(sig, fs).len() == padded_len(fs),
    decreases fs.len(),
{
    if fs.len() > 0 {
        let rest = fs.skip(1);
        assert(fs[0].wf());
        assert forall|i: int| 0 <= i < rest.len() implies #[trigger] rest[i].wf() by {
            assert(fs[i + 1].wf());
        }
        lemma_fields_len(sig, rest);
        lemma_field_len(fs[0], sig);
        lemma_padding_for(fs[0].wire_len(), 8);
    }
}

/// The length that the header states and the padded length differ by the
/// padding that aligns the first to 8.
pub proof fn lemma_fields_wire_len(fs: Seq<FieldView>)
    requires
        all_valid(fs),
    ensures
        0 <= fields_wire_len(fs) <= padded_len(fs),
        padded_len(fs) == fields_wire_len(fs) + pad8(fields_wire_len(fs)),
        fs.len() > 0 ==> fields_wire_len(fs) == padded_len(fs.drop_last()) + fs.last().wire_len(),
{
    if fs.len() > 0 {
        let front = fs.drop_last();
        let last = fs.last();
        assert(last.valid());
        assert forall|i: int| 0 <= i < front.len() implies #[trigger] front[i].valid() by {
            assert(fs[i].valid());
        }
        assert(front.push(last) =~= fs);
        lemma_fields_push(EndianSig::Little, front, last);
        lemma_padded_len(front);
        let size = last.wire_len();
        let w = fields_wire_len(fs);
        assert(w == padded_len(front) + size);
        lemma_padding_for(size, 8);
        lemma_padding_for(w, 8);
        assert(w % 8 == size % 8);
    } else {
        lemma_padding_for(0, 8);
    }
}

/// Reading the bytes of well-formed fields gives the fields back.
pub proof fn lemma_fields_write_read(sig: EndianSig, fs: Seq<FieldView>)
    requires
        all_wf(fs),
    ensures
        parse_fields(sig, fields_to_bytes(sig, fs)) == Some(fs),
    decreases fs.len(),
{
    if fs.len() > 0 {
        let rest = fs.skip(1);
        let v = fs[0];
        assert(v.wf());
        assert forall|i: int| 0 <= i < rest.len() implies #[trigger] rest[i].wf() by {
            assert(fs[i + 1].wf());
        }
        lemma_fields_write_read(sig, rest);
        lemma_field_len(v, sig);
        let size = v.wire_len();
        let pad = zeros(pad8(size));
        let tail = fields_to_bytes(sig, rest);
        let s = fields_to_bytes(sig, fs);
        lemma_padding_for(size, 8);
        assert(s =~= v.to_bytes(sig) + (pad + tail));
        lemma_field_write_read(v, sig, pad + tail);
        let step = size + pad8(size);
        assert(s.subrange(size, step) =~= pad);
        assert(s.skip(step) =~= tail);
        assert(seq![v] + rest =~= fs);
    } else {
        assert(fs =~= Seq::empty());
    }
}

/// The fields of a message header, in the order in which they stand there.
#[derive(Debug, PartialEq, Eq)]
pub struct Fields(Vec<Field>);

impl View for Fields {
    type V = Seq<FieldView>;

    closed spec fn view(&self) -> Seq<FieldView> {
        self.0@.map_values(|f: Field| f@)
    }
}

impl Clone for Fields {
    fn clone(&self) -> (res: Self)
        ensures
            res@ == self@,
    {
        let mut out: Vec<Field> = Vec::new();
        let n = self.0.len();
        let mut i: usize = 0;
        while i < n
            invariant
                i <= n,
                n == self.0@.len(),
                out@.len() == i,
                forall|j: int| 0 <= j < i ==> (#[trigger] out@[j])@ == self.0@[j]@,
            decreases n - i,
        {
            out.push(self.0[i].clone());
            i += 1;
        }
        let res = Fields(out);
        assert(res@ =~= self@);
        res
    }
}

impl Fields {
    /// Creates an empty collection of fields.
    pub fn new() -> (fields: Self)
        ensures
            fields@ == Seq::<FieldView>::empty(),
    {
        let fields = Fields(Vec::new());
        assert(fields@ =~= Seq::<FieldView>::empty());
        fields
    }

    /// Appends a [`Field`] to the collection of fields in the message.
    pub fn add(&mut self, field: Field)
        ensures
            final(self)@ == old(self)@.push(field@),
    {
        let ghost before = self@;
        self.0.push(field);
        assert(self@ =~= before.push(field@));
    }

    /// The number of fields.
    pub fn len(&self) -> (n: usize)
        ensures
            n == self@.len(),
    {
        self.0.len()
    }

    /// The field at the place `i`.
    pub fn get(&self, i: usize) -> (field: &Field)
        requires
            i < self@.len(),
        ensures
            field@ == self@[i as int],
            field@.valid(),
    {
        let field = &self.0[i];
        let _ = field.text();
        field
    }

    /// Whether every field of the collection is valid, which always holds:
    /// a way for callers to learn it.
    pub(crate) fn check_valid(&self) -> (ok: bool)
        ensures
            ok,
            all_valid(self@),
    {
        let n = self.0.len();
        let mut i: usize = 0;
        while i < n
            invariant
                i <= n,
                n == self.0@.len(),
                forall|j: int| 0 <= j < i ==> (#[trigger] self@[j]).valid(),
            decreases n - i,
        {
            let _ = self.0[i].text();
            i += 1;
        }
        true
    }

    /// The first field with the code `code`, if there is one.
    pub fn get_field(&self, code: FieldCode) -> (field: Option<&Field>)
        ensures
            match field {
                Some(f) => find_field(self@, code.spec_code()) == Some(f@) && f@.code
                    == code.spec_code() && f@.valid(),
                None => find_field(self@, code.spec_code()) is None,
            },
    {
        let n = self.0.len();
        let c = code.code();
        let mut i: usize = 0;
        assert(self@.skip(0) =~= self@);
        while i < n
            invariant
                i <= n,
                n == self.0@.len(),
                n == self@.len(),
                c == code.spec_code(),
                find_field(self@, c) == find_field(self@.skip(i as int), c),
            decreases n - i,
        {
            let ghost rest = self@.skip(i as int);
            assert(rest[0] == self.0@[i as int]@);
            assert(rest.skip(1) =~= self@.skip(i + 1));
            if self.0[i].code().code() == c {
                let _ = self.0[i].text();
                return Some(&self.0[i]);
            }
            i += 1;
        }
        assert(self@.skip(n as int).len() == 0);
        None
    }

    /// Whether two of the fields have the same code.
    pub fn has_duplicates(&self) -> (dup: bool)
        ensures
            dup == !codes_unique(self@),
    {
        let n = self.0.len();
        let mut j: usize = 0;
        while j < n
            invariant
                j <= n,
                n == self.0@.len(),
                forall|a: int, b: int|
                    0 <= a < b < j ==> #[trigger] self@[a].code != #[trigger] self@[b].code,
            decreases n - j,
        {
            let c = self.0[j].code().code();
            let mut i: usize = 0;
            while i < j
                invariant
                    i <= j < n,
                    n == self.0@.len(),
                    c == self@[j as int].code,
                    forall|a: int| 0 <= a < i ==> #[trigger] self@[a].code != c,
                decreases j - i,
            {
                if self.0[i].code().code() == c {
                    assert(self@[i as int].code == self@[j as int].code);
                    return true;
                }
                i += 1;
            }
            j += 1;
        }
        false
    }

    /// Appends the bytes of the fields to `out`, in the byte order `sig`, each
    /// field followed by zero bytes up to a multiple of 8, and gives the
    /// length of the fields as the header states it. Fields that together
    /// are too long for any message give `ExcessData`.
    pub fn write(&self, sig: EndianSig, out: &mut Vec<u8>) -> (res: Result<usize, Error>)
        ensures
            all_valid(self@),
            padded_len(self@) <= MAX_MESSAGE_SIZE ==> (res matches Ok(len) && final(out)@ == old(
                out,
            )@ + fields_to_bytes(sig, self@) && len == fields_wire_len(self@) && all_wf(self@)),
            padded_len(self@) > MAX_MESSAGE_SIZE ==> (res matches Err(e) && e is ExcessData),
    {
        let _ = self.check_valid();
        let ghost before = out@;
        let ghost fs = self@;
        let n = self.0.len();
        let mut i: usize = 0;
        let mut total: usize = 0;
        let mut last_pad: usize = 0;
        while i < n
            invariant
                i <= n,
                n == self.0@.len(),
                fs == self@,
                all_valid(fs),
                all_wf(fs.take(i as int)),
                out@ == before + fields_to_bytes(sig, fs.take(i as int)),
                total == padded_len(fs.take(i as int)),
                total <= MAX_MESSAGE_SIZE,
                i > 0 ==> last_pad == pad8(fs[i - 1].wire_len()),
                last_pad <= total,
            decreases n - i,
        {
            let field = &self.0[i];
            let ghost v = fs[i as int];
            assert(v == field@);
            proof {
                lemma_prefix_step(sig, fs, i as int);
            }
            let step = match write_padded(field, sig, out) {
                Ok(step) => step,
                Err(e) => {
                    return Err(e);
                },
            };
            if step > MAX_MESSAGE_SIZE - total {
                return Err(Error::ExcessData);
            }
            assert(out@ =~= before + (fields_to_bytes(sig, fs.take(i as int)) + padded8(
                v.to_bytes(sig),
            )));
            last_pad = step - field_wire_len(field);
            total = total + step;
            i += 1;
        }
        assert(fs.take(n as int) =~= fs);
        proof {
            lemma_fields_wire_len(fs);
        }
        Ok(total - last_pad)
    }

    /// Reads fields from the bytes of `buf` from `from` up to `to`, in the
    /// byte order `sig`. Gives the fields and their length as a header would
    /// state it, or `InvalidField` where the bytes are not made of fields,
    /// each followed by zero bytes up to a multiple of 8.
    pub fn read(sig: EndianSig, buf: &[u8], from: usize, to: usize) -> (res: Result<
        (Fields, usize),
        Error,
    >)
        requires
            from <= to <= buf.len(),
        ensures
            match parse_fields(sig, buf@.subrange(from as int, to as int)) {
                Some(fs) => res matches Ok((fields, len)) && fields@ == fs && padded_len(fs) == to
                    - from && len == fields_wire_len(fs) && all_valid(fs),
                None => res matches Err(e) && e is InvalidField,
            },
    {
        let ghost whole = parse_fields(sig, buf@.subrange(from as int, to as int));
        let mut fields = Fields::new();
        let mut pos: usize = from;
        let mut last_pad: usize = 0;
        while pos < to
            invariant
                from <= pos <= to <= buf.len(),
                whole == parse_fields(sig, buf@.subrange(from as int, to as int)),
                whole == prepend(fields@, parse_fields(sig, buf@.subrange(pos as int, to as int))),
                padded_len(fields@) == pos - from,
                all_valid(fields@),
                fields@.len() > 0 ==> last_pad == pad8(fields@.last().wire_len()),
                fields@.len() == 0 ==> last_pad == 0,
                last_pad <= pos - from,
            decreases to - pos,
        {
            let ghost s = buf@.subrange(pos as int, to as int);
            let ghost acc = fields@;
            assert(s.len() > 0);
            let (field, size) = match read_field(sig, buf, pos, to) {
                Ok(r) => r,
                Err(e) => {
                    assert(parse_fields(sig, s) is None);
                    return Err(e);
                },
            };
            let pad = padding_for_8_bytes(size);
            if size == 0 || pad > to - pos - size {
                assert(parse_fields(sig, s) is None);
                return Err(Error::InvalidField);
            }
            let step = size + pad;
            if !is_zero_range(buf, pos + size, pos + step) {
                assert(s.subrange(size as int, step as int) =~= buf@.subrange(
                    pos + size,
                    pos + step,
                ));
                assert(parse_fields(sig, s) is None);
                return Err(Error::InvalidField);
            }
            proof {
                assert(s.subrange(size as int, step as int) =~= buf@.subrange(
                    pos + size,
                    pos + step,
                ));
                assert(s.skip(step as int) =~= buf@.subrange(pos + step, to as int));
                let rest = parse_fields(sig, buf@.subrange(pos + step, to as int));
                assert(parse_fields(sig, s) == prepend(seq![field@], rest));
                lemma_prepend_push(acc, field@, rest);
                lemma_fields_push(sig, acc, field@);
                lemma_parsed_len(sig, s, field@, size as int);
                assert forall|j: int| 0 <= j < acc.push(field@).len() implies (#[trigger] acc.push(
                    field@,
                )[j]).valid() by {
                    if j < acc.len() {
                        assert(acc[j].valid());
                    }
                }
            }
            fields.add(field);
            pos = pos + step;
            last_pad = pad;
        }
        proof {
            assert(buf@.subrange(pos as int, to as int) =~= Seq::<u8>::empty());
            assert(fields@ + Seq::<FieldView>::empty() =~= fields@);
            lemma_fields_wire_len(fields@);
        }
        Ok((fields, to - from - last_pad))
    }
}

/// The number of bytes that `field` takes on the wire.
fn field_wire_len(field: &Field) -> (n: usize)
    requires
        field@.wf(),
    ensures
        n == field@.wire_len(),
{
    let code = field.code().code();
    if code == REPLY_SERIAL || code == UNIX_FDS {
        8
    } else if code == SIGNATURE {
        6 + field.text().len()
    } else {
        9 + field.text().len()
    }
}

/// Appends the bytes of `field` and the zero bytes that bring them to a
/// multiple of 8, and gives the number of bytes appended.
fn write_padded(field: &Field, sig: EndianSig, out: &mut Vec<u8>) -> (res: Result<usize, Error>)
    ensures
        field@.text.len() <= MAX_MESSAGE_SIZE ==> (res matches Ok(step) && field@.wf() && step
            == field@.wire_len() + pad8(field@.wire_len()) && final(out)@ == old(out)@ + padded8(
            field@.to_bytes(sig),
        )),
        field@.text.len() > MAX_MESSAGE_SIZE ==> (res matches Err(e) && e is ExcessData),
{
    let ghost before = out@;
    let ghost v = field@;
    let text_len = field.text().len();
    match field.write(sig, out) {
        Ok(()) => {},
        Err(e) => {
            return Err(e);
        },
    }
    proof {
        lemma_field_len(v, sig);
    }
    let size = field_wire_len(field);
    let pad = padding_for_8_bytes(size);
    append_zeros(out, pad);
    assert(out@ =~= before + padded8(v.to_bytes(sig)));
    Ok(size + pad)
}

/// What one more field adds to the bytes and to the length of those before
/// it; the length of a part is at most the length of the whole.
proof fn lemma_prefix_step(sig: EndianSig, fs: Seq<FieldView>, i: int)
    requires
        all_valid(fs),
        0 <= i < fs.len(),
    ensures
        fields_to_bytes(sig, fs.take(i + 1)) == fields_to_bytes(sig, fs.take(i)) + padded8(
            fs[i].to_bytes(sig),
        ),
        padded_len(fs.take(i + 1)) == padded_len(fs.take(i)) + fs[i].wire_len() + pad8(
            fs[i].wire_len(),
        ),
        padded_len(fs.take(i + 1)) <= padded_len(fs),
        0 <= pad8(fs[i].wire_len()) < 8,
        all_wf(fs.take(i)) && fs[i].wf() ==> all_wf(fs.take(i + 1)),
        fs[i].wire_len() >= 6,
        fs[i].wire_len() >= fs[i].text.len(),
{
    assert(is_num_code(fs[i].code) ==> fs[i].text.len() == 0) by {
        reveal(text_valid);
        assert(fs[i].valid());
    }
    let prefix = fs.take(i);
    let next = fs.take(i + 1);
    let v = fs[i];
    let rest = fs.skip(i + 1);
    assert(v.valid());
    lemma_fields_push(sig, prefix, v);
    assert(next =~= prefix.push(v));
    lemma_padding_for(v.wire_len(), 8);
    lemma_fields_concat(sig, next, rest);
    assert(next + rest =~= fs);
    assert forall|j: int| 0 <= j < rest.len() implies (#[trigger] rest[j]).valid() by {
        assert(fs[i + 1 + j].valid());
    }
    lemma_padded_len(rest);
    if all_wf(prefix) && v.wf() {
        assert forall|j: int| 0 <= j < next.len() implies (#[trigger] next[j]).wf() by {
            if j < i {
                assert(prefix[j].wf());
            }
        }
    }
}

/// A field that was read takes as many bytes as `wire_len` says.
proof fn lemma_parsed_len(sig: EndianSig, s: Seq<u8>, v: FieldView, size: int)
    requires
        parse_field(sig, s) == Some((v, size)),
    ensures
        size == v.wire_len(),
        v.valid(),
        size <= s.len(),
{
    reveal(parse_field);
    reveal(text_valid);
    if !is_num_code(v.code) && v.code != SIGNATURE {
        crate::byte_order::lemma_u32_range(sig, s.skip(4));
    }
}

/// The first field with a code, in a list with one more field at its end.
pub proof fn lemma_find_push(fs: Seq<FieldView>, v: FieldView, code: u8)
    ensures
        find_field(fs.push(v), code) == if find_field(fs, code) is Some {
            find_field(fs, code)
        } else if v.code == code {
            Some(v)
        } else {
            None
        },
    decreases fs.len(),
{
    let all = fs.push(v);
    if fs.len() == 0 {
        assert(all.skip(1) =~= Seq::<FieldView>::empty());
        assert(find_field(all.skip(1), code) is None);
    } else {
        assert(all[0] == fs[0]);
        assert(all.skip(1) =~= fs.skip(1).push(v));
        lemma_find_push(fs.skip(1), v, code);
    }
}

/// A field that is found is one of the fields and has the code that was
/// looked for; where none is found, no field has that code.
pub proof fn lemma_find_field(fs: Seq<FieldView>, code: u8)
    ensures
        match find_field(fs, code) {
            Some(v) => v.code == code && exists|i: int| 0 <= i < fs.len() && fs[i] == v,
            None => forall|i: int| 0 <= i < fs.len() ==> (#[trigger] fs[i]).code != code,
        },
    decreases fs.len(),
{
    if fs.len() > 0 {
        if fs[0].code == code {
            assert(fs[0] == fs[0]);
        } else {
            let rest = fs.skip(1);
            lemma_find_field(rest, code);
            match find_field(rest, code) {
                Some(v) => {
                    let i = choose|i: int| 0 <= i < rest.len() && rest[i] == v;
                    assert(fs[i + 1] == v);
                },
                None => {
                    assert forall|i: int| 0 <= i < fs.len() implies (#[trigger] fs[i]).code
                        != code by {
                        if i > 0 {
                            assert(rest[i - 1].code != code);
                        }
                    }
                },
            }
        }
    }
}

/// Putting `v` behind `acc` and then `rest` behind both is putting `v` and
/// `rest` behind `acc`.
proof fn lemma_prepend_push(acc: Seq<FieldView>, v: FieldView, rest: Option<Seq<FieldView>>)
    ensures
        prepend(acc, prepend(seq![v], rest)) == prepend(acc.push(v), rest),
{
    match rest {
        Some(r) => {
            assert(acc + (seq![v] + r) =~= acc.push(v) + r);
        },
        None => {},
    }
}

} // verus!
