// Rewrites wiki-style link markers in the chapters of a book into Markdown links.
//
// - `anchor`: section labels into anchors.
// - `link`: the marker grammar and the rewriting of a text.
// - `tree`: the book's items, and their traversal.
// - `envelope`: finding the book in a request.
// - `cli`: the capability query.
use vstd::prelude::*;

pub mod anchor;
pub mod cli;
pub mod envelope;
pub mod link;
mod text;
pub mod tree;

verus! {

} // verus!
