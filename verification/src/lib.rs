//! Aggregates the latest releases of starred repositories into a bounded,
//! deduplicated, recency-ordered digest, rendered as an RSS channel.

use vstd::prelude::*;

verus! {

pub mod collect;
pub mod config;
pub mod digest;
pub mod feed;
pub mod github;
pub mod graphql;
pub mod text;

} // verus!
