//! Writing ANSI attributes into text.
use vstd::prelude::*;
use crate::ansi::ansi::Ansi;
use crate::text::push_str;

verus! {

/// Text to which an ANSI attribute can be appended.
pub trait AddAnsi {
    /// Appends the escape sequence of `ansi`.
    fn push_ansi(&mut self, ansi: Ansi);
}

impl AddAnsi for String {
    fn push_ansi(&mut self, ansi: Ansi)
        ensures
            final(self)@ == old(self)@ + ansi.escape(),
    {
        push_str(self, ansi.to_str());
    }
}

} // verus!
