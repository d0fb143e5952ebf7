use vstd::prelude::*;

pub mod text;
pub mod id;
pub mod api;
pub mod error;
pub mod config;
pub mod db;
pub mod rate_limit;
pub mod storage;
pub mod janitor;

verus! {

} // verus!
