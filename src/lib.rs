use vstd::prelude::*;

pub mod config;
pub mod store;
pub mod redirect;
pub mod query;
pub mod indexing;
pub mod handlers;

verus! {

} // verus!
