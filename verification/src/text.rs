//! Short immutable strings, as the `smol_str` crate provides them.

use smol_str::{SmolStr, ToSmolStr};
use vstd::prelude::*;

verus! {

/// The string type of the `smol_str` crate. Its representation (inline, static
/// or shared) is not looked at; `chars_of` says which text it holds.
#[verifier::external_type_specification]
#[verifier::external_body]
pub struct ExSmolStr(smol_str::SmolStr);

/// The characters that a `SmolStr` holds.
pub uninterp spec fn chars_of(s: SmolStr) -> Seq<char>;

/// `SmolStr::as_str`: the same text as a string slice.
pub assume_specification[ SmolStr::as_str ](s: &SmolStr) -> (r: &str)
    ensures
        r@ == chars_of(*s),
;

/// `SmolStr::new`: a `SmolStr` with the text of the given slice.
#[verifier::external_body]
pub(crate) fn smol(text: &str) -> (r: SmolStr)
    ensures
        chars_of(r) == text@,
{
    SmolStr::new(text)
}

/// `<SmolStr as Clone>::clone`: a copy with the same text.
#[verifier::external_body]
pub(crate) fn smol_clone(s: &SmolStr) -> (r: SmolStr)
    ensures
        chars_of(r) == chars_of(*s),
{
    s.clone()
}

/// `<SmolStr as PartialEq>::eq`: whether two strings hold the same text.
#[verifier::external_body]
pub(crate) fn smol_same(a: &SmolStr, b: &SmolStr) -> (r: bool)
    ensures
        r == (chars_of(*a) == chars_of(*b)),
{
    *a == *b
}

/// `<SmolStr as PartialEq<str>>::eq`: whether a string holds the text of a slice.
#[verifier::external_body]
pub(crate) fn smol_is(a: &SmolStr, b: &str) -> (r: bool)
    ensures
        r == (chars_of(*a) == b@),
{
    *a == *b
}

/// `ToSmolStr::to_smolstr` on a string slice: formats the slice, which gives its
/// text back.
#[verifier::external_body]
pub(crate) fn to_smolstr(text: &str) -> (r: SmolStr)
    ensures
        chars_of(r) == text@,
{
    text.to_smolstr()
}

} // verus!
