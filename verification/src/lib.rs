//! Generators for the conversions into the XCM types `Location` and
//! `Junctions`: the impls that let a tuple or an array of junctions, with a
//! number of parents in front, be written where a `Location` is wanted, and
//! the impl that converts the `Junctions` of the previous version.
//!
//! - [`tokens`] models a token stream as a sequence of tokens and holds the
//!   contracts under which a `proc_macro2::TokenStream` is built.
//! - [`fragments`] specifies and emits the pieces that the impls share.
//! - [`location`] and [`junctions`] specify, token for token, what is
//!   emitted for the two types, and emit it; [`location::laws`] proves that
//!   a conversion is emitted for each shape of value within the bounds, for
//!   no shape twice, and from a different type each.
//! - [`model`] states what the emitted conversions compute, as functions
//!   over sequences of junctions, and proves what holds of them.

use vstd::prelude::*;

pub mod fragments;
pub mod junctions;
pub mod location;
pub mod model;
pub mod tokens;

verus! {

/// The largest number of junctions in an interior, and of parents given
/// as markers, for which conversions are emitted.
pub const MAX_JUNCTIONS: usize = 8;

} // verus!
