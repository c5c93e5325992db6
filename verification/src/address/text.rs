//! Values of an address that are text: strings held as their UTF-8 bytes.

use vstd::prelude::*;
use vstd::string::StringSliceAdditionalSpecFns;
use vstd::utf8::{encode_utf8, valid_utf8};
use crate::names::string_from_utf8;

verus! {

broadcast use vstd::utf8::encode_utf8_decode_utf8, vstd::utf8::decode_utf8_encode_utf8,
    vstd::utf8::encode_utf8_valid_utf8;

/// The UTF-8 bytes of `s`.
pub open spec fn text_bytes(s: String) -> Seq<u8> {
    encode_utf8(s@)
}

/// The UTF-8 bytes of `s`, where there is an `s`.
pub open spec fn opt_text_bytes(s: Option<String>) -> Option<Seq<u8>> {
    match s {
        Some(s) => Some(text_bytes(s)),
        None => None,
    }
}

/// Whether `bytes`, where there are any, are valid UTF-8.
pub open spec fn opt_valid_utf8(bytes: Option<Seq<u8>>) -> bool {
    match bytes {
        Some(b) => valid_utf8(b),
        None => true,
    }
}

/// The text that `bytes` spell in UTF-8, if they spell one.
pub fn text_of(bytes: &Vec<u8>) -> (res: Option<String>)
    ensures
        res is Some <==> valid_utf8(bytes@),
        res matches Some(s) ==> text_bytes(s) == bytes@,
{
    string_from_utf8(bytes.clone())
}

/// A copy of the text `s`.
pub fn text_from_str(s: &str) -> (res: String)
    ensures
        text_bytes(res) == s.spec_bytes(),
        valid_utf8(text_bytes(res)),
{
    s.to_owned()
}

/// The UTF-8 bytes of `s`, which are valid UTF-8.
pub fn bytes_of(s: &String) -> (bytes: Vec<u8>)
    ensures
        bytes@ == text_bytes(*s),
        valid_utf8(bytes@),
{
    vstd::slice::slice_to_vec(s.as_str().as_bytes())
}

} // verus!
