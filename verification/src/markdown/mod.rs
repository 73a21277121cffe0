//! Discord-flavoured Markdown.
//!
//! This is not CommonMark: `__underline__`, `||spoiler||`, `-# subtext`,
//! `<@123>` and `>>> ` exist, and emphasis boundaries differ (see [`inline`]).
//!
//! The result is [`Block`]s only: no colours, no sizes, no name lookup.
//! Syntax that does not parse stays as literal text, because dropping it would
//! make body content silently disappear.

pub mod block;
pub mod inline;
pub mod laws;
pub mod model;

pub use model::{Block, Deco, Inline, InlineKind, Item, Marker, Mention};

use vstd::prelude::*;

verus! {

/// Parses a message body.
pub fn parse(text: &str) -> (out: Vec<Block>)
    ensures
        model::parts_of(out@) == block::body(text@),
{
    block::parse(text)
}

/// Parses inline syntax only, for contexts where the block is already known.
pub fn parse_inline(text: &str) -> (out: Vec<Inline>)
    ensures
        model::spans_of(out@) == inline::inlines(text@),
{
    inline::parse(text)
}

} // verus!
