//! The strings that header fields carry: object paths, signatures, and the
//! names of interfaces, members, errors and connections.
//!
//! Each type holds a string that was checked when the value was made, so a
//! value of these types is always valid.

use vstd::prelude::*;
use vstd::utf8::{encode_utf8, decode_utf8, valid_utf8};
use vstd::string::StringSliceAdditionalSpecFns;
use crate::error::Error;

verus! {

broadcast use vstd::utf8::encode_utf8_decode_utf8, vstd::utf8::decode_utf8_encode_utf8,
    vstd::utf8::encode_utf8_valid_utf8;

/// No name is longer than this.
pub const MAX_NAME_LEN: usize = 255;

/// An ASCII letter.
pub open spec fn is_alpha(b: u8) -> bool {
    (0x41 <= b <= 0x5a) || (0x61 <= b <= 0x7a)
}

/// An ASCII digit.
pub open spec fn is_digit(b: u8) -> bool {
    0x30 <= b <= 0x39
}

/// A character of a name element: a letter, a digit, `_`, and `-` where
/// `dash` allows it.
pub open spec fn is_element_char(b: u8, dash: bool) -> bool {
    is_alpha(b) || is_digit(b) || b == 0x5f || (dash && b == 0x2d)
}

/// Two or more elements joined by `.`, each of one or more element
/// characters; an element starts with a digit only where `digit_first`
/// allows it.
pub open spec fn is_dotted(s: Seq<u8>, dash: bool, digit_first: bool) -> bool {
    &&& s.len() > 0
    &&& s.last() != 0x2e
    &&& exists|i: int| 0 <= i < s.len() && s[i] == 0x2e
    &&& forall|i: int| 0 <= i < s.len() ==> s[i] == 0x2e || is_element_char(#[trigger] s[i], dash)
    &&& forall|i: int|
        0 <= i < s.len() && (i == 0 || s[i - 1] == 0x2e) ==> #[trigger] s[i] != 0x2e && (
        digit_first || !is_digit(s[i]))
}

/// A member name: letters, digits and `_`, not starting with a digit, 1 to
/// 255 characters.
pub open spec fn is_member_name(s: Seq<u8>) -> bool {
    &&& 1 <= s.len() <= MAX_NAME_LEN
    &&& !is_digit(s[0])
    &&& forall|i: int| 0 <= i < s.len() ==> is_element_char(#[trigger] s[i], false)
}

/// An interface name: two or more elements of letters, digits and `_`, none
/// starting with a digit, joined by `.`; at most 255 characters.
pub open spec fn is_interface_name(s: Seq<u8>) -> bool {
    s.len() <= MAX_NAME_LEN && is_dotted(s, false, false)
}

/// An error name: the rules of interface names.
pub open spec fn is_error_name(s: Seq<u8>) -> bool {
    is_interface_name(s)
}

/// A well-known bus name: as an interface name, with `-` allowed too.
pub open spec fn is_well_known_name(s: Seq<u8>) -> bool {
    s.len() <= MAX_NAME_LEN && is_dotted(s, true, false)
}

/// The bytes of `org.freedesktop.DBus`, the name of the bus itself.
pub open spec fn bus_driver_name() -> Seq<u8> {
    seq![
        0x6f, 0x72, 0x67, 0x2e, 0x66, 0x72, 0x65, 0x65, 0x64, 0x65, 0x73, 0x6b, 0x74, 0x6f, 0x70,
        0x2e, 0x44, 0x42, 0x75, 0x73,
    ]
}

/// A unique connection name: `:` and then two or more elements of letters,
/// digits, `_` and `-`, joined by `.`; or the name of the bus itself. At most
/// 255 characters.
pub open spec fn is_unique_name(s: Seq<u8>) -> bool {
    &&& s.len() <= MAX_NAME_LEN
    &&& (s == bus_driver_name() || (s.len() > 0 && s[0] == 0x3a && is_dotted(s.skip(1), true, true)))
}

/// A bus name: a unique name or a well-known name.
pub open spec fn is_bus_name(s: Seq<u8>) -> bool {
    is_unique_name(s) || is_well_known_name(s)
}

/// An object path: `/`, or one or more elements of letters, digits and `_`,
/// each preceded by `/`.
pub open spec fn is_object_path(s: Seq<u8>) -> bool {
    &&& s.len() >= 1
    &&& s[0] == 0x2f
    &&& (s.len() == 1 || s.last() != 0x2f)
    &&& forall|i: int| 0 <= i < s.len() ==> s[i] == 0x2f || is_element_char(#[trigger] s[i], false)
    &&& forall|i: int| 0 < i < s.len() && s[i - 1] == 0x2f ==> #[trigger] s[i] != 0x2f
}

/// A signature: at most 255 characters, each the code of a type or a
/// bracket, that spell complete types one after the other.
pub open spec fn is_signature(s: Seq<u8>) -> bool {
    &&& s.len() <= MAX_NAME_LEN
    &&& forall|i: int| 0 <= i < s.len() ==> is_signature_char(#[trigger] s[i])
    &&& types_from(s, 0)
}

/// The greatest number of arrays within each other, and of structures and
/// dict entries within each other.
pub const MAX_TYPE_DEPTH: u8 = 32;

/// The code of a basic type: a number, a boolean, a string, an object path, a
/// signature or a file descriptor.
pub open spec fn is_basic_type(b: u8) -> bool {
    b == 0x79 || b == 0x62 || b == 0x6e || b == 0x71 || b == 0x69 || b == 0x75 || b == 0x78 || b
        == 0x74 || b == 0x64 || b == 0x73 || b == 0x6f || b == 0x67 || b == 0x68
}

/// The place behind the complete type that starts at the place `i` of `s`,
/// which stands within `arrays` arrays and `structs` structures and dict
/// entries; or nothing where no complete type starts there.
///
/// A complete type is a basic type; a variant, `v`; an array, `a` and the
/// type of its elements, which may be a dict entry: `{`, a basic type, a
/// complete type, `}`; or a structure: `(`, one or more complete types, `)`.
pub open spec fn type_end(s: Seq<u8>, i: int, arrays: nat, structs: nat) -> Option<int>
    decreases s.len() - i, 0nat,
{
    if i < 0 || i >= s.len() {
        None
    } else if is_basic_type(s[i]) || s[i] == 0x76 {
        Some(i + 1)
    } else if s[i] == 0x61 {
        if arrays >= MAX_TYPE_DEPTH {
            None
        } else if i + 1 < s.len() && s[i + 1] == 0x7b {
            if structs >= MAX_TYPE_DEPTH || i + 2 >= s.len() || !is_basic_type(s[i + 2]) {
                None
            } else {
                match type_end(s, i + 3, arrays + 1, structs + 1) {
                    Some(j) => if j < s.len() && s[j] == 0x7d {
                        Some(j + 1)
                    } else {
                        None
                    },
                    None => None,
                }
            }
        } else {
            type_end(s, i + 1, arrays + 1, structs)
        }
    } else if s[i] == 0x28 {
        if structs >= MAX_TYPE_DEPTH {
            None
        } else {
            struct_end(s, i + 1, arrays, structs + 1)
        }
    } else {
        None
    }
}

/// The place behind the `)` that closes the structure whose fields start at
/// the place `i` of `s`; or nothing where no complete types and a `)` stand
/// there.
pub open spec fn struct_end(s: Seq<u8>, i: int, arrays: nat, structs: nat) -> Option<int>
    decreases s.len() - i, 1nat,
{
    match type_end(s, i, arrays, structs) {
        None => None,
        Some(j) => if j <= i || j >= s.len() {
            None
        } else if s[j] == 0x29 {
            Some(j + 1)
        } else {
            struct_end(s, j, arrays, structs)
        },
    }
}

/// Whether `s` spells complete types, one after the other, from the place
/// `i` to its end.
pub open spec fn types_from(s: Seq<u8>, i: int) -> bool
    decreases s.len() - i,
{
    if i >= s.len() {
        i == s.len()
    } else {
        match type_end(s, i, 0, 0) {
            Some(j) => if i < j <= s.len() {
                types_from(s, j)
            } else {
                false
            },
            None => false,
        }
    }
}

/// A character that may stand in a signature.
pub open spec fn is_signature_char(b: u8) -> bool {
    b == 0x79 || b == 0x62 || b == 0x6e || b == 0x71 || b == 0x69 || b == 0x75 || b == 0x78 || b
        == 0x74 || b == 0x64 || b == 0x73 || b == 0x6f || b == 0x67 || b == 0x68 || b == 0x76 || b
        == 0x61 || b == 0x28 || b == 0x29 || b == 0x7b || b == 0x7d
}

/// `zbus_names::InterfaceName::try_from` on a string: whether the string is
/// accepted as an interface name.
#[verifier::external_body]
fn interface_name_ok(name: &str) -> (ok: bool)
    ensures
        ok == is_interface_name(name.spec_bytes()),
{
    zbus_names::InterfaceName::try_from(name).is_ok()
}

/// `zbus_names::MemberName::try_from` on a string: whether the string is
/// accepted as a member name.
#[verifier::external_body]
fn member_name_ok(name: &str) -> (ok: bool)
    ensures
        ok == is_member_name(name.spec_bytes()),
{
    zbus_names::MemberName::try_from(name).is_ok()
}

/// `zbus_names::ErrorName::try_from` on a string: whether the string is
/// accepted as an error name.
#[verifier::external_body]
fn error_name_ok(name: &str) -> (ok: bool)
    ensures
        ok == is_error_name(name.spec_bytes()),
{
    zbus_names::ErrorName::try_from(name).is_ok()
}

/// `zbus_names::UniqueName::try_from` on a string: whether the string is
/// accepted as a unique name.
#[verifier::external_body]
fn unique_name_ok(name: &str) -> (ok: bool)
    ensures
        ok == is_unique_name(name.spec_bytes()),
{
    zbus_names::UniqueName::try_from(name).is_ok()
}

/// `zbus_names::BusName::try_from` on a string: whether the string is
/// accepted as a bus name, unique or well-known.
#[verifier::external_body]
fn bus_name_ok(name: &str) -> (ok: bool)
    ensures
        ok == is_bus_name(name.spec_bytes()),
{
    zbus_names::BusName::try_from(name).is_ok()
}

/// Whether `bytes` spell an object path.
pub fn object_path_ok(bytes: &[u8]) -> (ok: bool)
    ensures
        ok == is_object_path(bytes@),
{
    let n = bytes.len();
    if n == 0 || bytes[0] != 0x2f {
        return false;
    }
    if n > 1 && bytes[n - 1] == 0x2f {
        return false;
    }
    let mut i: usize = 1;
    while i < n
        invariant
            1 <= i <= n,
            n == bytes@.len(),
            bytes@[0] == 0x2f,
            forall|j: int| 0 <= j < i ==> bytes@[j] == 0x2f || is_element_char(#[trigger] bytes@[j], false),
            forall|j: int| 0 < j < i && bytes@[j - 1] == 0x2f ==> #[trigger] bytes@[j] != 0x2f,
        decreases n - i,
    {
        let b = bytes[i];
        let element = (0x41 <= b && b <= 0x5a) || (0x61 <= b && b <= 0x7a) || (0x30 <= b && b
            <= 0x39) || b == 0x5f;
        if b == 0x2f {
            if bytes[i - 1] == 0x2f {
                return false;
            }
        } else if !element {
            return false;
        }
        i += 1;
    }
    true
}

/// Whether `b` is the code of a basic type.
fn basic_type(b: u8) -> (r: bool)
    ensures
        r == is_basic_type(b),
{
    b == 0x79 || b == 0x62 || b == 0x6e || b == 0x71 || b == 0x69 || b == 0x75 || b == 0x78 || b
        == 0x74 || b == 0x64 || b == 0x73 || b == 0x6f || b == 0x67 || b == 0x68
}

/// The place behind the complete type that starts at the place `i` of
/// `bytes`, which stands within `arrays` arrays and `structs` structures and
/// dict entries.
fn find_type_end(bytes: &[u8], i: usize, arrays: u8, structs: u8) -> (end: Option<usize>)
    requires
        arrays <= MAX_TYPE_DEPTH,
        structs <= MAX_TYPE_DEPTH,
    ensures
        match type_end(bytes@, i as int, arrays as nat, structs as nat) {
            Some(j) => end == Some(j as usize) && i < j <= bytes@.len(),
            None => end is None,
        },
    decreases bytes@.len() - i,
        0nat,
{
    let n = bytes.len();
    if i >= n {
        return None;
    }
    let b = bytes[i];
    if basic_type(b) || b == 0x76 {
        Some(i + 1)
    } else if b == 0x61 {
        if arrays >= MAX_TYPE_DEPTH {
            None
        } else if i + 1 < n && bytes[i + 1] == 0x7b {
            if structs >= MAX_TYPE_DEPTH || i + 2 >= n || !basic_type(bytes[i + 2]) {
                return None;
            }
            match find_type_end(bytes, i + 3, arrays + 1, structs + 1) {
                Some(j) => if j < n && bytes[j] == 0x7d {
                    Some(j + 1)
                } else {
                    None
                },
                None => None,
            }
        } else {
            find_type_end(bytes, i + 1, arrays + 1, structs)
        }
    } else if b == 0x28 {
        if structs >= MAX_TYPE_DEPTH {
            None
        } else {
            find_struct_end(bytes, i + 1, arrays, structs + 1)
        }
    } else {
        None
    }
}

/// The place behind the `)` that closes the structure whose fields start at
/// the place `i` of `bytes`.
fn find_struct_end(bytes: &[u8], i: usize, arrays: u8, structs: u8) -> (end: Option<usize>)
    requires
        arrays <= MAX_TYPE_DEPTH,
        structs <= MAX_TYPE_DEPTH,
    ensures
        match struct_end(bytes@, i as int, arrays as nat, structs as nat) {
            Some(j) => end == Some(j as usize) && i < j <= bytes@.len(),
            None => end is None,
        },
    decreases bytes@.len() - i,
        1nat,
{
    match find_type_end(bytes, i, arrays, structs) {
        None => None,
        Some(j) => if j >= bytes.len() {
            None
        } else if bytes[j] == 0x29 {
            Some(j + 1)
        } else {
            find_struct_end(bytes, j, arrays, structs)
        },
    }
}

/// Whether `bytes` spell a signature.
pub fn signature_ok(bytes: &[u8]) -> (ok: bool)
    ensures
        ok == is_signature(bytes@),
{
    let n = bytes.len();
    if n > MAX_NAME_LEN {
        return false;
    }
    let mut i: usize = 0;
    while i < n
        invariant
            i <= n,
            n == bytes@.len(),
            forall|j: int| 0 <= j < i ==> is_signature_char(#[trigger] bytes@[j]),
        decreases n - i,
    {
        let b = bytes[i];
        let known = b == 0x79 || b == 0x62 || b == 0x6e || b == 0x71 || b == 0x69 || b == 0x75 || b
            == 0x78 || b == 0x74 || b == 0x64 || b == 0x73 || b == 0x6f || b == 0x67 || b == 0x68
            || b == 0x76 || b == 0x61 || b == 0x28 || b == 0x29 || b == 0x7b || b == 0x7d;
        if !known {
            return false;
        }
        i += 1;
    }
    let mut pos: usize = 0;
    while pos < n
        invariant
            pos <= n,
            n == bytes@.len(),
            types_from(bytes@, 0) == types_from(bytes@, pos as int),
        decreases n - pos,
    {
        match find_type_end(bytes, pos, 0, 0) {
            Some(end) => {
                pos = end;
            },
            None => {
                return false;
            },
        }
    }
    true
}

/// Whether `name` spells an object path.
fn object_path_str_ok(name: &str) -> (ok: bool)
    ensures
        ok == is_object_path(name.spec_bytes()),
{
    object_path_ok(name.as_bytes())
}

/// Whether `name` spells a signature.
fn signature_str_ok(name: &str) -> (ok: bool)
    ensures
        ok == is_signature(name.spec_bytes()),
{
    signature_ok(name.as_bytes())
}

/// `String::from_utf8`: the string that the bytes spell, where they are valid
/// UTF-8, and nothing where they are not.
#[verifier::external_body]
pub(crate) fn string_from_utf8(bytes: Vec<u8>) -> (res: Option<String>)
    ensures
        res is Some <==> valid_utf8(bytes@),
        res matches Some(s) ==> s@ == decode_utf8(bytes@),
{
    String::from_utf8(bytes).ok()
}

/// A unique name is a bus name.
pub proof fn lemma_unique_is_bus_name(s: Seq<u8>)
    ensures
        is_unique_name(s) ==> is_bus_name(s),
{
}

/// Bytes that are all below 128 are valid UTF-8.
pub proof fn lemma_ascii_is_utf8(s: Seq<u8>)
    requires
        forall|i: int| 0 <= i < s.len() ==> #[trigger] s[i] < 0x80,
    ensures
        valid_utf8(s),
{
    assert(s.subrange(0, 0) =~= Seq::<u8>::empty());
    assert(vstd::utf8::partial_valid_utf8(s, 0));
    vstd::utf8::partial_valid_utf8_extend_ascii_block(s, 0, s.len() as int);
    assert(s.subrange(0, s.len() as int) =~= s);
}

/// Every valid name, path and signature is made of ASCII characters, and so
/// is valid UTF-8.
pub proof fn lemma_names_are_utf8(s: Seq<u8>)
    ensures
        is_object_path(s) ==> valid_utf8(s),
        is_signature(s) ==> valid_utf8(s),
        is_interface_name(s) ==> valid_utf8(s),
        is_member_name(s) ==> valid_utf8(s),
        is_error_name(s) ==> valid_utf8(s),
        is_unique_name(s) ==> valid_utf8(s),
        is_bus_name(s) ==> valid_utf8(s),
{
    if is_object_path(s) || is_signature(s) || is_member_name(s) {
        lemma_ascii_is_utf8(s);
    }
    if is_interface_name(s) || is_well_known_name(s) {
        lemma_ascii_is_utf8(s);
    }
    if is_unique_name(s) {
        if s == bus_driver_name() {
            lemma_ascii_is_utf8(s);
        } else {
            let t = s.skip(1);
            assert forall|i: int| 0 <= i < s.len() implies #[trigger] s[i] < 0x80 by {
                if i > 0 {
                    assert(t[i - 1] == s[i]);
                }
            }
            lemma_ascii_is_utf8(s);
        }
    }
}

/// String that identifies an object of a connection.
#[derive(Debug, PartialEq, Eq)]
pub struct ObjectPath {
    name: String,
}

impl Clone for ObjectPath {
    fn clone(&self) -> (res: Self)
        ensures
            res@ == self@,
    {
        proof {
            use_type_invariant(self);
        }
        ObjectPath { name: self.name.clone() }
    }
}

impl View for ObjectPath {
    type V = Seq<u8>;

    closed spec fn view(&self) -> Seq<u8> {
        encode_utf8(self.name@)
    }
}

impl ObjectPath {
    #[verifier::type_invariant]
    spec fn inv(self) -> bool {
        is_object_path(self@)
    }

    /// The object path that `name` spells, or `InvalidField` if it spells none.
    pub fn try_from(name: &str) -> (res: Result<Self, Error>)
        ensures
            is_object_path(name.spec_bytes()) ==> (res matches Ok(n) && n@ == name.spec_bytes()),
            !is_object_path(name.spec_bytes()) ==> (res matches Err(e) && e is InvalidField),
    {
        if object_path_str_ok(name) {
            Ok(ObjectPath { name: name.to_owned() })
        } else {
            Err(Error::InvalidField)
        }
    }

    /// The object path that the bytes `name` spell, or `InvalidField` if they
    /// spell none.
    pub fn from_bytes(name: Vec<u8>) -> (res: Result<Self, Error>)
        ensures
            is_object_path(name@) ==> (res matches Ok(n) && n@ == name@),
            !is_object_path(name@) ==> (res matches Err(e) && e is InvalidField),
    {
        let ghost bytes = name@;
        match string_from_utf8(name) {
            Some(s) => {
                if object_path_str_ok(s.as_str()) {
                    Ok(ObjectPath { name: s })
                } else {
                    Err(Error::InvalidField)
                }
            },
            None => {
                proof {
                    lemma_names_are_utf8(bytes);
                }
                Err(Error::InvalidField)
            },
        }
    }

    /// The object path that `name` spells. The caller has made sure that it
    /// spells one.
    pub fn from_str_unchecked(name: &str) -> (res: Self)
        requires
            is_object_path(name.spec_bytes()),
        ensures
            res@ == name.spec_bytes(),
    {
        ObjectPath { name: name.to_owned() }
    }

    /// The name as a string.
    pub fn as_str(&self) -> (s: &str)
        ensures
            s.spec_bytes() == self@,
            is_object_path(self@),
    {
        proof {
            use_type_invariant(self);
        }
        self.name.as_str()
    }
}

/// String that describes the types of the values in a message body.
#[derive(Debug, PartialEq, Eq)]
pub struct Signature {
    name: String,
}

impl Clone for Signature {
    fn clone(&self) -> (res: Self)
        ensures
            res@ == self@,
    {
        proof {
            use_type_invariant(self);
        }
        Signature { name: self.name.clone() }
    }
}

impl View for Signature {
    type V = Seq<u8>;

    closed spec fn view(&self) -> Seq<u8> {
        encode_utf8(self.name@)
    }
}

impl Signature {
    #[verifier::type_invariant]
    spec fn inv(self) -> bool {
        is_signature(self@)
    }

    /// The signature that `name` spells, or `InvalidField` if it spells none.
    pub fn try_from(name: &str) -> (res: Result<Self, Error>)
        ensures
            is_signature(name.spec_bytes()) ==> (res matches Ok(n) && n@ == name.spec_bytes()),
            !is_signature(name.spec_bytes()) ==> (res matches Err(e) && e is InvalidField),
    {
        if signature_str_ok(name) {
            Ok(Signature { name: name.to_owned() })
        } else {
            Err(Error::InvalidField)
        }
    }

    /// The signature that the bytes `name` spell, or `InvalidField` if they
    /// spell none.
    pub fn from_bytes(name: Vec<u8>) -> (res: Result<Self, Error>)
        ensures
            is_signature(name@) ==> (res matches Ok(n) && n@ == name@),
            !is_signature(name@) ==> (res matches Err(e) && e is InvalidField),
    {
        let ghost bytes = name@;
        match string_from_utf8(name) {
            Some(s) => {
                if signature_str_ok(s.as_str()) {
                    Ok(Signature { name: s })
                } else {
                    Err(Error::InvalidField)
                }
            },
            None => {
                proof {
                    lemma_names_are_utf8(bytes);
                }
                Err(Error::InvalidField)
            },
        }
    }

    /// The signature that `name` spells. The caller has made sure that it
    /// spells one.
    pub fn from_str_unchecked(name: &str) -> (res: Self)
        requires
            is_signature(name.spec_bytes()),
        ensures
            res@ == name.spec_bytes(),
    {
        Signature { name: name.to_owned() }
    }

    /// The name as a string.
    pub fn as_str(&self) -> (s: &str)
        ensures
            s.spec_bytes() == self@,
            is_signature(self@),
    {
        proof {
            use_type_invariant(self);
        }
        self.name.as_str()
    }
}

/// String that identifies an interface on the bus.
#[derive(Debug, PartialEq, Eq)]
pub struct InterfaceName {
    name: String,
}

impl Clone for InterfaceName {
    fn clone(&self) -> (res: Self)
        ensures
            res@ == self@,
    {
        proof {
            use_type_invariant(self);
        }
        InterfaceName { name: self.name.clone() }
    }
}

impl View for InterfaceName {
    type V = Seq<u8>;

    closed spec fn view(&self) -> Seq<u8> {
        encode_utf8(self.name@)
    }
}

impl InterfaceName {
    #[verifier::type_invariant]
    spec fn inv(self) -> bool {
        is_interface_name(self@)
    }

    /// The interface name that `name` spells, or `InvalidField` if it spells none.
    pub fn try_from(name: &str) -> (res: Result<Self, Error>)
        ensures
            is_interface_name(name.spec_bytes()) ==> (res matches Ok(n) && n@ == name.spec_bytes()),
            !is_interface_name(name.spec_bytes()) ==> (res matches Err(e) && e is InvalidField),
    {
        if interface_name_ok(name) {
            Ok(InterfaceName { name: name.to_owned() })
        } else {
            Err(Error::InvalidField)
        }
    }

    /// The interface name that the bytes `name` spell, or `InvalidField` if they
    /// spell none.
    pub fn from_bytes(name: Vec<u8>) -> (res: Result<Self, Error>)
        ensures
            is_interface_name(name@) ==> (res matches Ok(n) && n@ == name@),
            !is_interface_name(name@) ==> (res matches Err(e) && e is InvalidField),
    {
        let ghost bytes = name@;
        match string_from_utf8(name) {
            Some(s) => {
                if interface_name_ok(s.as_str()) {
                    Ok(InterfaceName { name: s })
                } else {
                    Err(Error::InvalidField)
                }
            },
            None => {
                proof {
                    lemma_names_are_utf8(bytes);
                }
                Err(Error::InvalidField)
            },
        }
    }

    /// The interface name that `name` spells. The caller has made sure that it
    /// spells one.
    pub fn from_str_unchecked(name: &str) -> (res: Self)
        requires
            is_interface_name(name.spec_bytes()),
        ensures
            res@ == name.spec_bytes(),
    {
        InterfaceName { name: name.to_owned() }
    }

    /// The name as a string.
    pub fn as_str(&self) -> (s: &str)
        ensures
            s.spec_bytes() == self@,
            is_interface_name(self@),
    {
        proof {
            use_type_invariant(self);
        }
        self.name.as_str()
    }
}

/// String that identifies a member (a method or a signal) of an interface.
#[derive(Debug, PartialEq, Eq)]
pub struct MemberName {
    name: String,
}

impl Clone for MemberName {
    fn clone(&self) -> (res: Self)
        ensures
            res@ == self@,
    {
        proof {
            use_type_invariant(self);
        }
        MemberName { name: self.name.clone() }
    }
}

impl View for MemberName {
    type V = Seq<u8>;

    closed spec fn view(&self) -> Seq<u8> {
        encode_utf8(self.name@)
    }
}

impl MemberName {
    #[verifier::type_invariant]
    spec fn inv(self) -> bool {
        is_member_name(self@)
    }

    /// The member name that `name` spells, or `InvalidField` if it spells none.
    pub fn try_from(name: &str) -> (res: Result<Self, Error>)
        ensures
            is_member_name(name.spec_bytes()) ==> (res matches Ok(n) && n@ == name.spec_bytes()),
            !is_member_name(name.spec_bytes()) ==> (res matches Err(e) && e is InvalidField),
    {
        if member_name_ok(name) {
            Ok(MemberName { name: name.to_owned() })
        } else {
            Err(Error::InvalidField)
        }
    }

    /// The member name that the bytes `name` spell, or `InvalidField` if they
    /// spell none.
    pub fn from_bytes(name: Vec<u8>) -> (res: Result<Self, Error>)
        ensures
            is_member_name(name@) ==> (res matches Ok(n) && n@ == name@),
            !is_member_name(name@) ==> (res matches Err(e) && e is InvalidField),
    {
        let ghost bytes = name@;
        match string_from_utf8(name) {
            Some(s) => {
                if member_name_ok(s.as_str()) {
                    Ok(MemberName { name: s })
                } else {
                    Err(Error::InvalidField)
                }
            },
            None => {
                proof {
                    lemma_names_are_utf8(bytes);
                }
                Err(Error::InvalidField)
            },
        }
    }

    /// The member name that `name` spells. The caller has made sure that it
    /// spells one.
    pub fn from_str_unchecked(name: &str) -> (res: Self)
        requires
            is_member_name(name.spec_bytes()),
        ensures
            res@ == name.spec_bytes(),
    {
        MemberName { name: name.to_owned() }
    }

    /// The name as a string.
    pub fn as_str(&self) -> (s: &str)
        ensures
            s.spec_bytes() == self@,
            is_member_name(self@),
    {
        proof {
            use_type_invariant(self);
        }
        self.name.as_str()
    }
}

/// String that identifies an error on the bus.
#[derive(Debug, PartialEq, Eq)]
pub struct ErrorName {
    name: String,
}

impl Clone for ErrorName {
    fn clone(&self) -> (res: Self)
        ensures
            res@ == self@,
    {
        proof {
            use_type_invariant(self);
        }
        ErrorName { name: self.name.clone() }
    }
}

impl View for ErrorName {
    type V = Seq<u8>;

    closed spec fn view(&self) -> Seq<u8> {
        encode_utf8(self.name@)
    }
}

impl ErrorName {
    #[verifier::type_invariant]
    spec fn inv(self) -> bool {
        is_error_name(self@)
    }

    /// The error name that `name` spells, or `InvalidField` if it spells none.
    pub fn try_from(name: &str) -> (res: Result<Self, Error>)
        ensures
            is_error_name(name.spec_bytes()) ==> (res matches Ok(n) && n@ == name.spec_bytes()),
            !is_error_name(name.spec_bytes()) ==> (res matches Err(e) && e is InvalidField),
    {
        if error_name_ok(name) {
            Ok(ErrorName { name: name.to_owned() })
        } else {
            Err(Error::InvalidField)
        }
    }

    /// The error name that the bytes `name` spell, or `InvalidField` if they
    /// spell none.
    pub fn from_bytes(name: Vec<u8>) -> (res: Result<Self, Error>)
        ensures
            is_error_name(name@) ==> (res matches Ok(n) && n@ == name@),
            !is_error_name(name@) ==> (res matches Err(e) && e is InvalidField),
    {
        let ghost bytes = name@;
        match string_from_utf8(name) {
            Some(s) => {
                if error_name_ok(s.as_str()) {
                    Ok(ErrorName { name: s })
                } else {
                    Err(Error::InvalidField)
                }
            },
            None => {
                proof {
                    lemma_names_are_utf8(bytes);
                }
                Err(Error::InvalidField)
            },
        }
    }

    /// The error name that `name` spells. The caller has made sure that it
    /// spells one.
    pub fn from_str_unchecked(name: &str) -> (res: Self)
        requires
            is_error_name(name.spec_bytes()),
        ensures
            res@ == name.spec_bytes(),
    {
        ErrorName { name: name.to_owned() }
    }

    /// The name as a string.
    pub fn as_str(&self) -> (s: &str)
        ensures
            s.spec_bytes() == self@,
            is_error_name(self@),
    {
        proof {
            use_type_invariant(self);
        }
        self.name.as_str()
    }
}

/// String that identifies one connection on the bus: the name that the bus gave it.
#[derive(Debug, PartialEq, Eq)]
pub struct UniqueName {
    name: String,
}

impl Clone for UniqueName {
    fn clone(&self) -> (res: Self)
        ensures
            res@ == self@,
    {
        proof {
            use_type_invariant(self);
        }
        UniqueName { name: self.name.clone() }
    }
}

impl View for UniqueName {
    type V = Seq<u8>;

    closed spec fn view(&self) -> Seq<u8> {
        encode_utf8(self.name@)
    }
}

impl UniqueName {
    #[verifier::type_invariant]
    spec fn inv(self) -> bool {
        is_unique_name(self@)
    }

    /// The unique name that `name` spells, or `InvalidField` if it spells none.
    pub fn try_from(name: &str) -> (res: Result<Self, Error>)
        ensures
            is_unique_name(name.spec_bytes()) ==> (res matches Ok(n) && n@ == name.spec_bytes()),
            !is_unique_name(name.spec_bytes()) ==> (res matches Err(e) && e is InvalidField),
    {
        if unique_name_ok(name) {
            Ok(UniqueName { name: name.to_owned() })
        } else {
            Err(Error::InvalidField)
        }
    }

    /// The unique name that the bytes `name` spell, or `InvalidField` if they
    /// spell none.
    pub fn from_bytes(name: Vec<u8>) -> (res: Result<Self, Error>)
        ensures
            is_unique_name(name@) ==> (res matches Ok(n) && n@ == name@),
            !is_unique_name(name@) ==> (res matches Err(e) && e is InvalidField),
    {
        let ghost bytes = name@;
        match string_from_utf8(name) {
            Some(s) => {
                if unique_name_ok(s.as_str()) {
                    Ok(UniqueName { name: s })
                } else {
                    Err(Error::InvalidField)
                }
            },
            None => {
                proof {
                    lemma_names_are_utf8(bytes);
                }
                Err(Error::InvalidField)
            },
        }
    }

    /// The unique name that `name` spells. The caller has made sure that it
    /// spells one.
    pub fn from_str_unchecked(name: &str) -> (res: Self)
        requires
            is_unique_name(name.spec_bytes()),
        ensures
            res@ == name.spec_bytes(),
    {
        UniqueName { name: name.to_owned() }
    }

    /// The name as a string.
    pub fn as_str(&self) -> (s: &str)
        ensures
            s.spec_bytes() == self@,
            is_unique_name(self@),
    {
        proof {
            use_type_invariant(self);
        }
        self.name.as_str()
    }
}

/// String that identifies a connection on the bus, by its unique name or by a well-known name.
#[derive(Debug, PartialEq, Eq)]
pub struct BusName {
    name: String,
}

impl Clone for BusName {
    fn clone(&self) -> (res: Self)
        ensures
            res@ == self@,
    {
        proof {
            use_type_invariant(self);
        }
        BusName { name: self.name.clone() }
    }
}

impl View for BusName {
    type V = Seq<u8>;

    closed spec fn view(&self) -> Seq<u8> {
        encode_utf8(self.name@)
    }
}

impl BusName {
    #[verifier::type_invariant]
    spec fn inv(self) -> bool {
        is_bus_name(self@)
    }

    /// The bus name that `name` spells, or `InvalidField` if it spells none.
    pub fn try_from(name: &str) -> (res: Result<Self, Error>)
        ensures
            is_bus_name(name.spec_bytes()) ==> (res matches Ok(n) && n@ == name.spec_bytes()),
            !is_bus_name(name.spec_bytes()) ==> (res matches Err(e) && e is InvalidField),
    {
        if bus_name_ok(name) {
            Ok(BusName { name: name.to_owned() })
        } else {
            Err(Error::InvalidField)
        }
    }

    /// The bus name that the bytes `name` spell, or `InvalidField` if they
    /// spell none.
    pub fn from_bytes(name: Vec<u8>) -> (res: Result<Self, Error>)
        ensures
            is_bus_name(name@) ==> (res matches Ok(n) && n@ == name@),
            !is_bus_name(name@) ==> (res matches Err(e) && e is InvalidField),
    {
        let ghost bytes = name@;
        match string_from_utf8(name) {
            Some(s) => {
                if bus_name_ok(s.as_str()) {
                    Ok(BusName { name: s })
                } else {
                    Err(Error::InvalidField)
                }
            },
            None => {
                proof {
                    lemma_names_are_utf8(bytes);
                }
                Err(Error::InvalidField)
            },
        }
    }

    /// The bus name that `name` spells. The caller has made sure that it
    /// spells one.
    pub fn from_str_unchecked(name: &str) -> (res: Self)
        requires
            is_bus_name(name.spec_bytes()),
        ensures
            res@ == name.spec_bytes(),
    {
        BusName { name: name.to_owned() }
    }

    /// The name as a string.
    pub fn as_str(&self) -> (s: &str)
        ensures
            s.spec_bytes() == self@,
            is_bus_name(self@),
    {
        proof {
            use_type_invariant(self);
        }
        self.name.as_str()
    }
}

} // verus!
