//! A container for either an owned or a borrowed string.
//!
//! Records built by hand can borrow their strings from existing data with no
//! copy; records produced by the decoder own their strings. One accessor
//! yields a read-only view regardless of the variant, and equality compares
//! the characters, not the storage.

use vstd::prelude::*;
use crate::util::str_eq;

verus! {

/// Container for an owned or a borrowed string.
#[derive(Debug)]
pub enum InfoStr<'a> {
    /// Borrowed variant; no copy of the text is made.
    Borrowed(&'a str),
    /// Owned variant, used whenever the text cannot borrow from anywhere.
    Owned(String),
}

impl<'a> View for InfoStr<'a> {
    type V = Seq<char>;

    open spec fn view(&self) -> Seq<char> {
        match self {
            InfoStr::Borrowed(s) => s@,
            InfoStr::Owned(s) => s@,
        }
    }
}

impl<'a> InfoStr<'a> {
    /// Create an `InfoStr` from a borrowed string slice.
    pub fn from_borrowed(stir: &'a str) -> (r: Self)
        ensures
            r@ == stir@,
    {
        InfoStr::Borrowed(stir)
    }

    /// Create an `InfoStr` from an owned string.
    pub fn from_string(stir: String) -> (r: InfoStr<'static>)
        ensures
            r@ == stir@,
    {
        InfoStr::Owned(stir)
    }

    /// View the contained text as a string slice.
    pub fn as_str(&'a self) -> (r: &'a str)
        ensures
            r@ == self@,
    {
        match self {
            InfoStr::Borrowed(s) => s,
            InfoStr::Owned(s) => s.as_str(),
        }
    }
}

impl<'a> PartialEq for InfoStr<'a> {
    fn eq(&self, other: &Self) -> (r: bool) {
        str_eq(self.as_str(), other.as_str())
    }
}

impl<'a> vstd::std_specs::cmp::PartialEqSpecImpl for InfoStr<'a> {
    open spec fn obeys_eq_spec() -> bool {
        true
    }

    open spec fn eq_spec(&self, other: &InfoStr<'a>) -> bool {
        self@ == other@
    }
}

} // verus!
