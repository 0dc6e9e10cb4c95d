//! Rendered prompt text.
use vstd::prelude::*;

verus! {

/// A block of prompt text that a context type rendered.
///
/// Only the render functions of the context module make values of it, so
/// rendered context is never confused with arbitrary text.
#[derive(Debug, PartialEq, Eq)]
pub struct RenderedContext {
    text: String,
}

impl View for RenderedContext {
    type V = Seq<char>;

    closed spec fn view(&self) -> Seq<char> {
        self.text@
    }
}

impl Clone for RenderedContext {
    fn clone(&self) -> (r: Self)
        ensures
            r == *self,
    {
        RenderedContext { text: self.text.clone() }
    }
}

impl RenderedContext {
    /// Wrap text that a context type rendered.
    pub(super) fn new(text: String) -> (r: Self)
        ensures
            r@ == text@,
    {
        RenderedContext { text }
    }

    /// The rendered text.
    pub fn as_str(&self) -> (r: &str)
        ensures
            r@ == self@,
    {
        self.text.as_str()
    }

    /// The rendered text, by value.
    pub fn into_string(self) -> (r: String)
        ensures
            r@ == self@,
    {
        self.text
    }
}

} // verus!
