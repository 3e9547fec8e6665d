//! Interned text.
//!
//! Topic names repeat: every publish on a channel carries the same name, and
//! every level of it shows up again in the filters that match it. An
//! `internship::IStr` stores each distinct text of a thread once, so a copy
//! costs no allocation and equal texts compare by their handles.

use vstd::prelude::*;
use internship::IStr;

verus! {

/// `internship::IStr`, an immutable interned string.
#[verifier::external_type_specification]
#[verifier::external_body]
pub struct ExIStr(IStr);

/// The text that an interned string holds.
pub uninterp spec fn text_of(interned: IStr) -> Seq<char>;

/// Interns `src` (`IStr::new`): the handle holds the text that it was made
/// from.
#[verifier::external_body]
pub(crate) fn intern(src: &str) -> (interned: IStr)
    ensures
        text_of(interned) == src@,
{
    IStr::new(src)
}

/// The text of `interned` as a string slice (`IStr::as_str`).
#[verifier::external_body]
pub(crate) fn str_of(interned: &IStr) -> (text: &str)
    ensures
        text@ == text_of(*interned),
{
    interned.as_str()
}

/// A second handle to the same text (`IStr::clone`).
pub assume_specification[ <IStr as Clone>::clone ](interned: &IStr) -> (copy: IStr)
    ensures
        text_of(copy) == text_of(*interned),
;

} // verus!
