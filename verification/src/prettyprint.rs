//! The two texts that a label can have: the one that the indented rendering
//! shows, and the one that the compact rendering shows.

use vstd::prelude::*;
use crate::text::{decimal, signed_decimal, signed_text, unsigned_text};

verus! {

/// A label that the indented rendering can show.
pub trait PrettyPrint {
    /// The text that stands for the value. An implementation says here
    /// what `ascii` returns; until it does, nothing is known of the text.
    open spec fn pretty_text(&self) -> Seq<char> {
        arbitrary()
    }

    /// The text that stands for the value.
    fn ascii(&self) -> (text: String)
        ensures
            text@ == self.pretty_text(),
    ;
}

/// A label that the compact rendering can show.
pub trait DebugText {
    /// The text that stands for the value. An implementation says here
    /// what `debug_string` returns; until it does, nothing is known of the
    /// text.
    open spec fn debug_text(&self) -> Seq<char> {
        arbitrary()
    }

    /// The text that stands for the value.
    fn debug_string(&self) -> (text: String)
        ensures
            text@ == self.debug_text(),
    ;
}

impl PrettyPrint for u64 {
    open spec fn pretty_text(&self) -> Seq<char> {
        decimal(*self as nat)
    }

    fn ascii(&self) -> (text: String) {
        unsigned_text(*self)
    }
}

impl DebugText for u64 {
    open spec fn debug_text(&self) -> Seq<char> {
        decimal(*self as nat)
    }

    fn debug_string(&self) -> (text: String) {
        unsigned_text(*self)
    }
}

impl DebugText for u32 {
    open spec fn debug_text(&self) -> Seq<char> {
        decimal(*self as nat)
    }

    fn debug_string(&self) -> (text: String) {
        unsigned_text(*self as u64)
    }
}

impl DebugText for usize {
    open spec fn debug_text(&self) -> Seq<char> {
        decimal(*self as nat)
    }

    fn debug_string(&self) -> (text: String) {
        unsigned_text(*self as u64)
    }
}

impl DebugText for i64 {
    open spec fn debug_text(&self) -> Seq<char> {
        signed_decimal(*self as int)
    }

    fn debug_string(&self) -> (text: String) {
        signed_text(*self)
    }
}

impl DebugText for i32 {
    open spec fn debug_text(&self) -> Seq<char> {
        signed_decimal(*self as int)
    }

    fn debug_string(&self) -> (text: String) {
        signed_text(*self as i64)
    }
}

} // verus!
