//! The pages that are rendered from templates.

use vstd::prelude::*;

verus! {

/// The version that the pages show.
pub const VERSION: &'static str = "0.4.0";

/// What the start page shows.
#[derive(Debug, Clone, Copy)]
pub struct IndexTemplate {
    pub version: &'static str,
}

/// What the page with the documentation shows.
#[derive(Debug, Clone, Copy)]
pub struct DocsTemplate {}

} // verus!
