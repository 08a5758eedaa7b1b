//! A small command-line HTTP client's core: argument validation, the POST body
//! built from `key=value` pairs, and the rendering of a response body.
use vstd::prelude::*;

pub mod cli;
pub mod dispatch;
pub mod json;
pub mod render;

verus! {

} // verus!
