//! Tessera's retrieval and event logic, verified.
use vstd::prelude::*;

pub mod blob;
pub mod boards;
pub mod chars;
pub mod chunking;
pub mod contract;
pub mod digest;
pub mod embed;
pub mod event;
pub mod index;
pub mod indexed;
pub mod ingest;
pub mod pages;
pub mod parse;
pub mod projection;
pub mod repo;
pub mod schema;
pub mod store_error;
pub mod web;
verus! {
} // verus!
