use vstd::prelude::*;
use vstd::std_specs::convert::FromSpecImpl;
use vstd::std_specs::convert::TryFromSpecImpl;
use crate::byte_order::{native_endian_sig, read_u32, write_u32, u32_from_bytes, u32_to_bytes};
use crate::error::{Error, ErrorKind};
use crate::message::fields::{
    Field, FieldCode, FieldView, Fields, find_field, DESTINATION, ERROR_NAME, INTERFACE, MEMBER,
    PATH, REPLY_SERIAL, SENDER, SIGNATURE, UNIX_FDS,
};
use crate::names::{
    BusName, ErrorName, InterfaceName, MemberName, ObjectPath, Signature, UniqueName,
};

verus! {

/// Size of the fixed part that starts every message.
pub const PRIMARY_HEADER_SIZE: usize = 12;

/// Size of the smallest message: the fixed part and the length of the fields.
pub const MIN_MESSAGE_SIZE: usize = 16;

/// Size of the largest message: 128 MiB.
pub const MAX_MESSAGE_SIZE: usize = 134217728;

/// D-Bus code for endianness: the first byte of every message.
#[derive(Debug, Clone, Copy, PartialEq, Eq, Structural)]
pub enum EndianSig {
    /// Big-endian (network) byte order, written `B`.
    Big,
    /// Little-endian byte order, written `l`.
    Little,
}

impl EndianSig {
    /// The byte that stands for this byte order on the wire.
    pub open spec fn spec_byte(self) -> u8 {
        match self {
            EndianSig::Big => 0x42,
            EndianSig::Little => 0x6c,
        }
    }

    /// The byte that stands for this byte order on the wire.
    #[verifier::when_used_as_spec(spec_byte)]
    pub fn byte(self) -> (b: u8)
        ensures
            b == self.spec_byte(),
    {
        match self {
            EndianSig::Big => 0x42,
            EndianSig::Little => 0x6c,
        }
    }

    /// The byte order that `val` stands for, if any.
    pub open spec fn of_byte(val: u8) -> Option<EndianSig> {
        if val == 0x42 {
            Some(EndianSig::Big)
        } else if val == 0x6c {
            Some(EndianSig::Little)
        } else {
            None
        }
    }
}

impl TryFrom<u8> for EndianSig {
    type Error = Error;

    fn try_from(val: u8) -> (res: Result<EndianSig, Error>) {
        if val == 0x42 {
            Ok(EndianSig::Big)
        } else if val == 0x6c {
            Ok(EndianSig::Little)
        } else {
            Err(Error::IncorrectEndian)
        }
    }
}

impl TryFromSpecImpl<u8> for EndianSig {
    open spec fn obeys_try_from_spec() -> bool {
        true
    }

    open spec fn try_from_spec(val: u8) -> Result<EndianSig, Error> {
        match EndianSig::of_byte(val) {
            Some(sig) => Ok(sig),
            None => Err(Error::IncorrectEndian),
        }
    }
}

/// The kind of a message, as the second byte of its header says.
#[derive(Debug, Clone, Copy, PartialEq, Eq, Hash, Structural)]
pub enum Type {
    /// Invalid message type. Every unknown code on the wire is read as this.
    Invalid,
    /// Method call. This message type may prompt a reply (and typically does).
    MethodCall,
    /// A reply to a method call.
    MethodReturn,
    /// An error in response to a method call.
    Error,
    /// Signal emission.
    Signal,
}

impl Type {
    /// The code of this message type on the wire.
    pub open spec fn spec_code(self) -> u8 {
        match self {
            Type::Invalid => 0,
            Type::MethodCall => 1,
            Type::MethodReturn => 2,
            Type::Error => 3,
            Type::Signal => 4,
        }
    }

    /// The code of this message type on the wire.
    #[verifier::when_used_as_spec(spec_code)]
    pub fn code(self) -> (c: u8)
        ensures
            c == self.spec_code(),
    {
        match self {
            Type::Invalid => 0,
            Type::MethodCall => 1,
            Type::MethodReturn => 2,
            Type::Error => 3,
            Type::Signal => 4,
        }
    }

    /// The message type that the code `val` stands for.
    pub open spec fn of_code(val: u8) -> Type {
        if val == 1 {
            Type::MethodCall
        } else if val == 2 {
            Type::MethodReturn
        } else if val == 3 {
            Type::Error
        } else if val == 4 {
            Type::Signal
        } else {
            Type::Invalid
        }
    }
}

impl From<u8> for Type {
    fn from(val: u8) -> (t: Type) {
        if val == 1 {
            Type::MethodCall
        } else if val == 2 {
            Type::MethodReturn
        } else if val == 3 {
            Type::Error
        } else if val == 4 {
            Type::Signal
        } else {
            Type::Invalid
        }
    }
}

impl FromSpecImpl<u8> for Type {
    open spec fn obeys_from_spec() -> bool {
        true
    }

    open spec fn from_spec(val: u8) -> Type {
        Type::of_code(val)
    }
}

/// Pre-defined flags that can be passed in a message header.
#[derive(Debug, Clone, Copy, PartialEq, Eq, Structural)]
pub enum Flags {
    /// This message does not expect method return replies or error replies,
    /// even if it is of a type that can have a reply; the reply should be
    /// omitted.
    NoReplyExpected,
    /// The bus must not launch an owner for the destination name in response
    /// to this message.
    NoAutoStart,
    /// The caller is prepared to wait for interactive authorization, which
    /// might take a considerable time to complete.
    AllowInteractiveAuth,
}

impl Flags {
    /// The bit of this flag in the flags byte.
    pub open spec fn spec_bit(self) -> u8 {
        match self {
            Flags::NoReplyExpected => 0x1,
            Flags::NoAutoStart => 0x2,
            Flags::AllowInteractiveAuth => 0x4,
        }
    }

    /// The bit of this flag in the flags byte.
    #[verifier::when_used_as_spec(spec_bit)]
    pub fn bit(self) -> (b: u8)
        ensures
            b == self.spec_bit(),
    {
        match self {
            Flags::NoReplyExpected => 0x1,
            Flags::NoAutoStart => 0x2,
            Flags::AllowInteractiveAuth => 0x4,
        }
    }
}

/// All the bits that stand for a flag.
pub const ALL_FLAG_BITS: u8 = 0x7;

/// A set of [`Flags`], held as the flags byte of a header.
#[derive(Debug, Clone, Copy, PartialEq, Eq, Structural)]
pub struct FlagSet {
    bits: u8,
}

impl FlagSet {
    /// The flags byte: the union of the bits of the flags in the set.
    pub closed spec fn spec_bits(self) -> u8 {
        self.bits
    }

    /// Whether `flag` is in the set.
    pub open spec fn spec_contains(self, flag: Flags) -> bool {
        self.spec_bits() & flag.spec_bit() != 0
    }

    /// A set never holds a bit that stands for no flag.
    #[verifier::type_invariant]
    spec fn inv(self) -> bool {
        self.bits & !ALL_FLAG_BITS == 0
    }

    /// The empty set.
    pub fn empty() -> (set: FlagSet)
        ensures
            set.spec_bits() == 0,
    {
        assert(0u8 & !0x7u8 == 0) by (bit_vector);
        FlagSet { bits: 0 }
    }

    /// The set that the byte `bits` stands for; bits that stand for no flag
    /// are dropped.
    pub fn from_bits_truncate(bits: u8) -> (set: FlagSet)
        ensures
            set.spec_bits() == bits & ALL_FLAG_BITS,
            bits & !ALL_FLAG_BITS == 0 ==> set.spec_bits() == bits,
    {
        assert((bits & 0x7u8) & !0x7u8 == 0) by (bit_vector);
        assert(bits & !0x7u8 == 0 ==> bits & 0x7u8 == bits) by (bit_vector);
        FlagSet { bits: bits & ALL_FLAG_BITS }
    }

    /// The flags byte. It holds no bit that stands for no flag.
    pub fn bits(self) -> (b: u8)
        ensures
            b == self.spec_bits(),
            b & !ALL_FLAG_BITS == 0,
    {
        proof {
            use_type_invariant(self);
        }
        self.bits
    }

    /// Whether `flag` is in the set.
    pub fn contains(self, flag: Flags) -> (b: bool)
        ensures
            b == self.spec_contains(flag),
    {
        self.bits & flag.bit() != 0
    }

    /// The set with `flag` added.
    pub fn insert(self, flag: Flags) -> (set: FlagSet)
        ensures
            set.spec_bits() == self.spec_bits() | flag.spec_bit(),
            set.spec_contains(flag),
            forall|other: Flags| self.spec_contains(other) ==> set.spec_contains(other),
    {
        proof {
            use_type_invariant(self);
        }
        let a = self.bits;
        let b = flag.bit();
        assert(b == 1 || b == 2 || b == 4);
        assert((b == 1 || b == 2 || b == 4) ==> (a | b) & b != 0) by (bit_vector);
        assert(forall|o: u8| a & o != 0 ==> #[trigger] ((a | b) & o) != 0) by (bit_vector);
        assert((b == 1 || b == 2 || b == 4) && a & !0x7u8 == 0 ==> (a | b) & !0x7u8 == 0)
            by (bit_vector);
        FlagSet { bits: a | b }
    }
}

/// The cell type of the `once_cell` crate: empty, or set once and for all.
#[verifier::external_type_specification]
#[verifier::external_body]
#[verifier::reject_recursive_types(T)]
pub struct ExOnceCell<T>(once_cell::sync::OnceCell<T>);

/// What a serial-number cell holds: nothing yet, or the number it was set to.
pub uninterp spec fn cell_value(cell: once_cell::sync::OnceCell<u32>) -> Option<u32>;

/// `OnceCell::new`: a cell that holds nothing.
#[verifier::external_body]
fn cell_new() -> (cell: once_cell::sync::OnceCell<u32>)
    ensures
        cell_value(cell) is None,
{
    once_cell::sync::OnceCell::new()
}

/// `OnceCell::with_value`: a cell that holds `value`.
#[verifier::external_body]
fn cell_with_value(value: u32) -> (cell: once_cell::sync::OnceCell<u32>)
    ensures
        cell_value(cell) == Some(value),
{
    once_cell::sync::OnceCell::with_value(value)
}

/// `OnceCell::get`: what the cell holds.
#[verifier::external_body]
fn cell_get(cell: &once_cell::sync::OnceCell<u32>) -> (value: Option<&u32>)
    ensures
        cell_value(*cell) == match value {
            Some(v) => Some(*v),
            None => None,
        },
{
    cell.get()
}

/// The serial number of a message: unset until the connection assigns one,
/// and then fixed.
#[derive(Debug)]
struct SerialNum(once_cell::sync::OnceCell<u32>);

/// The primary message header, which is present in all D-Bus messages.
///
/// This header contains all the essential information about a message,
/// regardless of its type.
#[derive(Debug)]
pub struct PrimaryHeader {
    endian_sig: EndianSig,
    msg_type: Type,
    flags: FlagSet,
    protocol_version: u8,
    body_len: u32,
    serial_num: SerialNum,
}

/// What a primary header says, as plain values.
pub struct PrimaryHeaderView {
    pub endian_sig: EndianSig,
    pub msg_type: Type,
    pub flags: u8,
    pub protocol_version: u8,
    pub body_len: u32,
    pub serial_num: Option<u32>,
}

impl PrimaryHeaderView {
    /// The serial number as written on the wire: 0 stands for "not assigned".
    pub open spec fn wire_serial(self) -> u32 {
        match self.serial_num {
            Some(n) => n,
            None => 0,
        }
    }

    /// The twelve bytes of this header on the wire.
    pub open spec fn to_bytes(self) -> Seq<u8> {
        seq![
            self.endian_sig.spec_byte(),
            self.msg_type.spec_code(),
            self.flags,
            self.protocol_version,
        ] + u32_to_bytes(self.endian_sig, self.body_len) + u32_to_bytes(
            self.endian_sig,
            self.wire_serial(),
        )
    }

    /// A header that can be written and read back: only known flags, and a
    /// serial number that, where assigned, is not 0.
    pub open spec fn wf(self) -> bool {
        &&& self.flags & !ALL_FLAG_BITS == 0
        &&& self.serial_num != Some(0u32)
    }
}

/// What reading the start of a message gives: the primary header and the length
/// of the header fields, or the kind of error that the bytes lead to.
pub open spec fn parse_primary(buf: Seq<u8>) -> Result<(PrimaryHeaderView, u32), ErrorKind> {
    if buf.len() < MIN_MESSAGE_SIZE {
        Err(ErrorKind::InputOutput)
    } else {
        match EndianSig::of_byte(buf[0]) {
            None => Err(ErrorKind::IncorrectEndian),
            Some(sig) => if buf[3] != 1 {
                Err(ErrorKind::UnknownProtocol)
            } else {
                let serial = u32_from_bytes(sig, buf.skip(8)) as u32;
                Ok(
                    (
                        PrimaryHeaderView {
                            endian_sig: sig,
                            msg_type: Type::of_code(buf[1]),
                            flags: buf[2] & ALL_FLAG_BITS,
                            protocol_version: 1,
                            body_len: u32_from_bytes(sig, buf.skip(4)) as u32,
                            serial_num: if serial == 0 {
                                None
                            } else {
                                Some(serial)
                            },
                        },
                        u32_from_bytes(sig, buf.skip(12)) as u32,
                    ),
                )
            },
        }
    }
}

impl View for PrimaryHeader {
    type V = PrimaryHeaderView;

    closed spec fn view(&self) -> PrimaryHeaderView {
        PrimaryHeaderView {
            endian_sig: self.endian_sig,
            msg_type: self.msg_type,
            flags: self.flags.spec_bits(),
            protocol_version: self.protocol_version,
            body_len: self.body_len,
            serial_num: cell_value(self.serial_num.0),
        }
    }
}

impl Clone for PrimaryHeader {
    fn clone(&self) -> (res: Self)
        ensures
            res@ == self@,
    {
        proof {
            use_type_invariant(self);
        }
        let serial_num = match cell_get(&self.serial_num.0) {
            Some(n) => SerialNum(cell_with_value(*n)),
            None => SerialNum(cell_new()),
        };
        PrimaryHeader {
            endian_sig: self.endian_sig,
            msg_type: self.msg_type,
            flags: self.flags,
            protocol_version: self.protocol_version,
            body_len: self.body_len,
            serial_num,
        }
    }
}

impl PrimaryHeader {
    /// Every header that this library hands out is well formed.
    #[verifier::type_invariant]
    spec fn inv(self) -> bool {
        self@.wf()
    }

    /// Create a new `PrimaryHeader` instance: protocol version 1, no flags, no
    /// serial number yet, in the byte order of this machine.
    pub fn new(msg_type: Type, body_len: u32) -> (header: Self)
        ensures
            header@.msg_type == msg_type,
            header@.body_len == body_len,
            header@.flags == 0,
            header@.protocol_version == 1,
            header@.serial_num is None,
            header@.wf(),
    {
        let flags = FlagSet::empty();
        let _ = flags.bits();
        Self {
            endian_sig: native_endian_sig(),
            msg_type,
            flags,
            protocol_version: 1,
            body_len,
            serial_num: SerialNum(cell_new()),
        }
    }

    /// Reads the primary header at the start of `buf`, and the length of the
    /// header fields that follows it.
    ///
    /// The numbers are read in the byte order that the first byte declares.
    /// Fails on fewer than 16 bytes, on a first byte that is no endian
    /// signature, and on a protocol version other than 1, in this order.
    pub fn read(buf: &[u8]) -> (res: Result<(PrimaryHeader, u32), Error>)
        ensures
            match parse_primary(buf@) {
                Ok((view, fields_len)) => res matches Ok((header, len)) && header@ == view && len
                    == fields_len && view.wf(),
                Err(kind) => res matches Err(e) && e.spec_kind() == kind,
            },
    {
        if buf.len() < MIN_MESSAGE_SIZE {
            return Err(Error::UnexpectedEof);
        }
        let endian_sig = match EndianSig::try_from(buf[0]) {
            Ok(sig) => sig,
            Err(e) => {
                return Err(e);
            },
        };
        let msg_type = Type::from(buf[1]);
        let flags = FlagSet::from_bits_truncate(buf[2]);
        let _ = flags.bits();
        let protocol_version = buf[3];
        if protocol_version != 1 {
            return Err(Error::UnknownProtocol);
        }
        let body_len = read_u32(endian_sig, buf, 4);
        let serial = read_u32(endian_sig, buf, 8);
        let fields_len = read_u32(endian_sig, buf, 12);
        let serial_num = if serial == 0 {
            SerialNum(cell_new())
        } else {
            SerialNum(cell_with_value(serial))
        };
        let header = PrimaryHeader {
            endian_sig,
            msg_type,
            flags,
            protocol_version,
            body_len,
            serial_num,
        };
        Ok((header, fields_len))
    }

    /// Appends the twelve bytes of this header to `out`.
    pub fn write(&self, out: &mut Vec<u8>)
        ensures
            final(out)@ == old(out)@ + self@.to_bytes(),
            self@.wf(),
    {
        proof {
            use_type_invariant(self);
        }
        let ghost before = out@;
        out.push(self.endian_sig.byte());
        out.push(self.msg_type.code());
        out.push(self.flags.bits());
        out.push(self.protocol_version);
        write_u32(self.endian_sig, out, self.body_len);
        let serial = match cell_get(&self.serial_num.0) {
            Some(n) => *n,
            None => 0,
        };
        write_u32(self.endian_sig, out, serial);
        assert(out@ =~= before + self@.to_bytes());
    }

    /// D-Bus code for byte order encoding of the message.
    pub fn endian_sig(&self) -> (sig: EndianSig)
        ensures
            sig == self@.endian_sig,
    {
        self.endian_sig
    }

    /// Set the D-Bus code for byte order encoding of the message.
    pub fn set_endian_sig(&mut self, sig: EndianSig)
        ensures
            final(self)@ == (PrimaryHeaderView { endian_sig: sig, ..old(self)@ }),
    {
        proof {
            use_type_invariant(&*self);
        }
        self.endian_sig = sig;
    }

    /// The message type.
    pub fn msg_type(&self) -> (t: Type)
        ensures
            t == self@.msg_type,
    {
        self.msg_type
    }

    /// Set the message type.
    pub fn set_msg_type(&mut self, msg_type: Type)
        ensures
            final(self)@ == (PrimaryHeaderView { msg_type: msg_type, ..old(self)@ }),
    {
        proof {
            use_type_invariant(&*self);
        }
        self.msg_type = msg_type;
    }

    /// The message flags.
    pub fn flags(&self) -> (flags: FlagSet)
        ensures
            flags.spec_bits() == self@.flags,
    {
        self.flags
    }

    /// Set the message flags.
    pub fn set_flags(&mut self, flags: FlagSet)
        ensures
            final(self)@ == (PrimaryHeaderView { flags: flags.spec_bits(), ..old(self)@ }),
            final(self)@.wf(),
    {
        proof {
            use_type_invariant(&*self);
        }
        let _ = flags.bits();
        self.flags = flags;
    }

    /// The major version of the protocol the message is compliant to.
    ///
    /// Currently only `1` is valid.
    pub fn protocol_version(&self) -> (version: u8)
        ensures
            version == self@.protocol_version,
    {
        self.protocol_version
    }

    /// Set the major version of the protocol the message is compliant to.
    ///
    /// Currently only `1` is valid.
    pub fn set_protocol_version(&mut self, version: u8)
        ensures
            final(self)@ == (PrimaryHeaderView { protocol_version: version, ..old(self)@ }),
    {
        proof {
            use_type_invariant(&*self);
        }
        self.protocol_version = version;
    }

    /// The byte length of the message body.
    pub fn body_len(&self) -> (len: u32)
        ensures
            len == self@.body_len,
    {
        self.body_len
    }

    /// Set the byte length of the message body.
    pub fn set_body_len(&mut self, len: u32)
        ensures
            final(self)@ == (PrimaryHeaderView { body_len: len, ..old(self)@ }),
    {
        proof {
            use_type_invariant(&*self);
        }
        self.body_len = len;
    }

    /// The serial number of the message (if set).
    ///
    /// This is used to match a reply to a method call.
    ///
    /// **Note:** There is no setter provided for this in the public API since
    /// this is set by the connection the message is sent over.
    pub fn serial_num(&self) -> (serial: Option<&u32>)
        ensures
            self@.serial_num == match serial {
                Some(n) => Some(*n),
                None => None,
            },
            serial != Some(&0u32),
    {
        proof {
            use_type_invariant(self);
        }
        cell_get(&self.serial_num.0)
    }

    /// The serial number of the message, which is set to what `f` returns if
    /// the message has none yet. A serial number that is set never changes.
    pub fn serial_num_or_init<F: FnOnce() -> u32>(&mut self, f: F) -> (serial: u32)
        requires
            f.requires(()),
            forall|n: u32| f.ensures((), n) ==> n != 0,
        ensures
            final(self)@ == (PrimaryHeaderView { serial_num: Some(serial), ..old(self)@ }),
            match old(self)@.serial_num {
                Some(n) => serial == n,
                None => f.ensures((), serial),
            },
            serial != 0,
    {
        proof {
            use_type_invariant(&*self);
        }
        match cell_get(&self.serial_num.0) {
            Some(n) => *n,
            None => {
                let n = f();
                self.serial_num = SerialNum(cell_with_value(n));
                n
            },
        }
    }
}

/// The message header, containing all the metadata about the message.
///
/// This includes both the [`PrimaryHeader`] and [`Fields`].
#[derive(Debug)]
pub struct Header {
    primary: PrimaryHeader,
    fields: Fields,
}

impl Clone for Header {
    fn clone(&self) -> (res: Self)
        ensures
            res@ == self@,
    {
        Header { primary: self.primary.clone(), fields: self.fields.clone() }
    }
}

/// What a header says, as plain values.
pub struct HeaderView {
    pub primary: PrimaryHeaderView,
    pub fields: Seq<FieldView>,
}

impl HeaderView {
    /// The text of the first field with the code `code`, if there is one.
    pub open spec fn text_of(self, code: u8) -> Option<Seq<u8>> {
        match find_field(self.fields, code) {
            Some(v) => Some(v.text),
            None => None,
        }
    }

    /// The number of the first field with the code `code`, if there is one.
    pub open spec fn num_of(self, code: u8) -> Option<u32> {
        match find_field(self.fields, code) {
            Some(v) => Some(v.num),
            None => None,
        }
    }
}

impl View for Header {
    type V = HeaderView;

    closed spec fn view(&self) -> HeaderView {
        HeaderView { primary: self.primary@, fields: self.fields@ }
    }
}

impl Header {
    /// Create a new `Header` instance.
    pub fn new(primary: PrimaryHeader, fields: Fields) -> (header: Self)
        ensures
            header@ == (HeaderView { primary: primary@, fields: fields@ }),
    {
        Self { primary, fields }
    }

    /// Get a reference to the primary header.
    pub fn primary(&self) -> (primary: &PrimaryHeader)
        ensures
            primary@ == self@.primary,
    {
        &self.primary
    }

    /// Get a mutable reference to the primary header.
    pub fn primary_mut(&mut self) -> (primary: &mut PrimaryHeader)
        ensures
            primary@ == old(self)@.primary,
            final(self)@ == (HeaderView { primary: final(primary)@, fields: old(self)@.fields }),
    {
        &mut self.primary
    }

    /// Get the primary header, consuming `self`.
    pub fn into_primary(self) -> (primary: PrimaryHeader)
        ensures
            primary@ == self@.primary,
    {
        self.primary
    }

    /// Get a reference to the message fields.
    pub fn fields(&self) -> (fields: &Fields)
        ensures
            fields@ == self@.fields,
    {
        &self.fields
    }

    /// Get a mutable reference to the message fields.
    pub fn fields_mut(&mut self) -> (fields: &mut Fields)
        ensures
            fields@ == old(self)@.fields,
            final(self)@ == (HeaderView { primary: old(self)@.primary, fields: final(fields)@ }),
    {
        &mut self.fields
    }

    /// Get the message fields, consuming `self`.
    pub fn into_fields(self) -> (fields: Fields)
        ensures
            fields@ == self@.fields,
    {
        self.fields
    }

    /// The message type.
    pub fn message_type(&self) -> (res: Result<Type, Error>)
        ensures
            res matches Ok(t) && t == self@.primary.msg_type,
    {
        Ok(self.primary.msg_type())
    }

    /// The object to send a call to, or the object a signal is emitted from.
    pub fn path(&self) -> (res: Result<Option<&ObjectPath>, Error>)
        ensures
            res matches Ok(value) && self@.text_of(PATH) == match value {
                Some(v) => Some(v@),
                None => None,
            },
    {
        match self.fields.get_field(FieldCode::Path) {
            Some(Field::Path(value)) => Ok(Some(value)),
            Some(_) => Err(Error::InvalidField),
            None => Ok(None),
        }
    }

    /// The interface to invoke a method call on, or that a signal is emitted from.
    pub fn interface(&self) -> (res: Result<Option<&InterfaceName>, Error>)
        ensures
            res matches Ok(value) && self@.text_of(INTERFACE) == match value {
                Some(v) => Some(v@),
                None => None,
            },
    {
        match self.fields.get_field(FieldCode::Interface) {
            Some(Field::Interface(value)) => Ok(Some(value)),
            Some(_) => Err(Error::InvalidField),
            None => Ok(None),
        }
    }

    /// The member, either the method name or signal name.
    pub fn member(&self) -> (res: Result<Option<&MemberName>, Error>)
        ensures
            res matches Ok(value) && self@.text_of(MEMBER) == match value {
                Some(v) => Some(v@),
                None => None,
            },
    {
        match self.fields.get_field(FieldCode::Member) {
            Some(Field::Member(value)) => Ok(Some(value)),
            Some(_) => Err(Error::InvalidField),
            None => Ok(None),
        }
    }

    /// The name of the error that occurred, for errors.
    pub fn error_name(&self) -> (res: Result<Option<&ErrorName>, Error>)
        ensures
            res matches Ok(value) && self@.text_of(ERROR_NAME) == match value {
                Some(v) => Some(v@),
                None => None,
            },
    {
        match self.fields.get_field(FieldCode::ErrorName) {
            Some(Field::ErrorName(value)) => Ok(Some(value)),
            Some(_) => Err(Error::InvalidField),
            None => Ok(None),
        }
    }

    /// The serial number of the message this message is a reply to.
    pub fn reply_serial(&self) -> (res: Result<Option<u32>, Error>)
        ensures
            res matches Ok(value) && self@.num_of(REPLY_SERIAL) == value,
    {
        match self.fields.get_field(FieldCode::ReplySerial) {
            Some(Field::ReplySerial(value)) => Ok(Some(*value)),
            Some(_) => Err(Error::InvalidField),
            None => Ok(None),
        }
    }

    /// The name of the connection this message is intended for.
    pub fn destination(&self) -> (res: Result<Option<&BusName>, Error>)
        ensures
            res matches Ok(value) && self@.text_of(DESTINATION) == match value {
                Some(v) => Some(v@),
                None => None,
            },
    {
        match self.fields.get_field(FieldCode::Destination) {
            Some(Field::Destination(value)) => Ok(Some(value)),
            Some(_) => Err(Error::InvalidField),
            None => Ok(None),
        }
    }

    /// Unique name of the sending connection.
    pub fn sender(&self) -> (res: Result<Option<&UniqueName>, Error>)
        ensures
            res matches Ok(value) && self@.text_of(SENDER) == match value {
                Some(v) => Some(v@),
                None => None,
            },
    {
        match self.fields.get_field(FieldCode::Sender) {
            Some(Field::Sender(value)) => Ok(Some(value)),
            Some(_) => Err(Error::InvalidField),
            None => Ok(None),
        }
    }

    /// The signature of the message body.
    pub fn signature(&self) -> (res: Result<Option<&Signature>, Error>)
        ensures
            res matches Ok(value) && self@.text_of(SIGNATURE) == match value {
                Some(v) => Some(v@),
                None => None,
            },
    {
        match self.fields.get_field(FieldCode::Signature) {
            Some(Field::Signature(value)) => Ok(Some(value)),
            Some(_) => Err(Error::InvalidField),
            None => Ok(None),
        }
    }

    /// The number of Unix file descriptors that accompany the message.
    pub fn unix_fds(&self) -> (res: Result<Option<u32>, Error>)
        ensures
            res matches Ok(value) && self@.num_of(UNIX_FDS) == value,
    {
        match self.fields.get_field(FieldCode::UnixFDs) {
            Some(Field::UnixFDs(value)) => Ok(Some(*value)),
            Some(_) => Err(Error::InvalidField),
            None => Ok(None),
        }
    }
}

} // verus!
