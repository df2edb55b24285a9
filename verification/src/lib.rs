//! Converts the constrained markup dialect of imageboard posts into a flat
//! text rendering plus positional style annotations ("spannables").
//!
//! All text is handled as UTF-16 code units (`u16`), the granularity the host
//! renderer indexes text by; every offset and length stored in a spannable is
//! measured in those units over the final flattened text.

use vstd::prelude::*;

pub mod attrs;
pub mod context;
pub mod debug;
pub mod decode;
pub mod digits;
pub mod engine;
pub mod laws;
pub mod node;
pub mod parser;
pub mod rule_handler;
pub mod span;
pub mod spoiler;
pub mod tag;
pub mod text_part;

verus! {

/// A resolved reference to another post: either a quote of a post in the same
/// thread or a dead link to a post outside it.
#[derive(Clone, Copy, Debug, PartialEq, Eq, Structural)]
pub enum PostLink {
    Quote { post_no: u64 },
    Dead { post_no: u64 },
}

/// The style a spannable applies to its range of the flattened text.
#[derive(Clone, Copy, Debug, PartialEq, Eq, Structural)]
pub enum SpannableData {
    GreenText,
    Spoiler,
    Link(PostLink),
}

/// A style annotation over `[start, start + len)` of the flattened text,
/// measured in text units.
#[derive(Clone, Copy, Debug, PartialEq, Eq, Structural)]
pub struct Spannable {
    pub start: usize,
    pub len: usize,
    pub spannable_data: SpannableData,
}

impl Spannable {
    /// A spannable is only worth keeping when it covers at least one text unit.
    pub fn is_valid(&self) -> (r: bool)
        ensures
            r == (self.len > 0),
    {
        self.len > 0
    }
}

} // verus!
