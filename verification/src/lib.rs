use vstd::prelude::*;

pub mod compiler;
pub mod jinja;
pub mod json;
pub mod lineage;
pub mod openlineage;
pub mod project;
pub mod rewrite;
pub mod search;
pub mod service;
pub mod sql;
pub mod scan;
pub mod test_runner;
pub mod text;

verus! {
} // verus!
