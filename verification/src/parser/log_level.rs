//! Severity categories a log entry can carry.
use vstd::prelude::*;

verus! {

/// Severity category of one log entry.
#[derive(Clone, Copy, PartialEq, Eq, Structural, Debug)]
pub enum EntryLevel {
    Info,
    Warn,
    Error,
    Custom,
    Unknown,
}

impl EntryLevel {
    /// The one-letter class name this level carries in the HTML rendering.
    pub open spec fn css_class_spec(self) -> Seq<char> {
        match self {
            EntryLevel::Info => seq!['i'],
            EntryLevel::Warn => seq!['w'],
            EntryLevel::Error => seq!['e'],
            EntryLevel::Custom => seq!['c'],
            EntryLevel::Unknown => seq!['u'],
        }
    }

    /// The one-letter class name this level carries in the HTML rendering.
    pub fn css_class(&self) -> (r: &'static str)
        ensures
            r@ == self.css_class_spec(),
    {
        proof {
            reveal_strlit("i");
            reveal_strlit("w");
            reveal_strlit("e");
            reveal_strlit("c");
            reveal_strlit("u");
        }
        let r = match self {
            EntryLevel::Info => "i",
            EntryLevel::Warn => "w",
            EntryLevel::Error => "e",
            EntryLevel::Custom => "c",
            EntryLevel::Unknown => "u",
        };
        assert(r@ =~= self.css_class_spec());
        r
    }
}

} // verus!
