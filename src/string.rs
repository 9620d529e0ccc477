//! Borrowed string views.
use vstd::prelude::*;
use vstd::string::StringSliceAdditionalSpecFns;

verus! {

/// A borrowed view of a string, valid while the string is.
pub struct StringRef<'a> {
    pub data: &'a str,
}

impl<'a> StringRef<'a> {
    pub open spec fn view(&self) -> Seq<char> {
        self.data@
    }

    pub fn from_str(s: &'a str) -> (r: StringRef<'a>)
        ensures
            r.view() == s@,
    {
        StringRef { data: s }
    }

    pub fn as_str(&self) -> (r: &'a str)
        ensures
            r@ == self.view(),
    {
        self.data
    }

    /// The UTF-8 bytes of the view.
    pub fn as_bytes(&self) -> (r: &'a [u8])
        ensures
            r@ == self.data.spec_bytes(),
    {
        self.data.as_bytes()
    }

    /// Whether two views hold the same characters.
    pub fn equal_to(&self, other: &StringRef) -> (r: bool)
        ensures
            r == (self.view() == other.view()),
    {
        crate::text::str_eq(self.data, other.data)
    }
}

} // verus!
