use vstd::prelude::*;

pub mod text;
pub mod catalog;
pub mod provider;
pub mod transcript;
pub mod wire;
pub mod agent;
pub mod compat;
pub mod responses;
pub mod describe;
pub mod action_log;
pub mod validate;
pub mod config;
pub mod schema;

verus! {

} // verus!
