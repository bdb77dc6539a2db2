//! The byte strings of the `bstr` crate, as far as the writer uses them.
//!
//! Nothing in this file is proved. Each function states, over the bytes that a
//! byte string holds, what the `bstr` method it calls does.

use bstr::{BStr, BString, B};
use vstd::prelude::*;
use vstd::string::StringSliceAdditionalSpecFns;

verus! {

/// `bstr::BString`: an owned, growable string of bytes.
#[verifier::external_type_specification]
#[verifier::external_body]
pub struct ExBString(BString);

/// `bstr::BStr`: a borrowed string of bytes.
#[verifier::external_type_specification]
#[verifier::external_body]
pub struct ExBStr(BStr);

/// The bytes that a `BString` holds, first to last.
pub uninterp spec fn bstring_bytes(s: BString) -> Seq<u8>;

/// The bytes that a `BStr` borrows, first to last.
pub uninterp spec fn bstr_bytes(s: &BStr) -> Seq<u8>;

/// `BString::new`: the new byte string holds no bytes.
#[verifier::external_body]
pub(crate) fn bstring_new() -> (s: BString)
    ensures
        bstring_bytes(s) == Seq::<u8>::empty(),
{
    BString::new()
}

/// `BString::clear`: afterwards the byte string holds no bytes.
#[verifier::external_body]
pub(crate) fn bstring_clear(s: &mut BString)
    ensures
        bstring_bytes(*final(s)) == Seq::<u8>::empty(),
{
    s.clear()
}

/// `BString::push_byte`: the byte is appended, the bytes before it stay.
#[verifier::external_body]
pub(crate) fn bstring_push_byte(s: &mut BString, byte: u8)
    ensures
        bstring_bytes(*final(s)) == bstring_bytes(*old(s)).push(byte),
{
    s.push_byte(byte)
}

/// `BString::push`: the bytes of the slice are appended in order, the bytes
/// before them stay.
#[verifier::external_body]
pub(crate) fn bstring_push(s: &mut BString, bytes: &[u8])
    ensures
        bstring_bytes(*final(s)) == bstring_bytes(*old(s)) + bytes@,
{
    s.push(bytes)
}

/// `BStr::as_bytes`, reached through `BString`'s `Deref`: the slice is the
/// bytes that the byte string holds.
#[verifier::external_body]
pub(crate) fn bstring_as_bytes(s: &BString) -> (bytes: &[u8])
    ensures
        bytes@ == bstring_bytes(*s),
{
    s.as_bytes()
}

/// `bstr::B` on a `&str`: the result borrows the UTF-8 bytes of the text.
#[verifier::external_body]
pub(crate) fn bstr_of(text: &str) -> (s: &BStr)
    ensures
        bstr_bytes(s) == text.spec_bytes(),
{
    B(text)
}

} // verus!
