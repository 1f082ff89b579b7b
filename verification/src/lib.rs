use vstd::prelude::*;

pub mod cli;
pub mod commands;
pub mod config;
pub mod contracts;
pub mod controller;
pub mod digest;
pub mod executor;
pub mod helper;
pub mod json;
pub mod model;
pub mod names;
pub mod owner;
pub mod policy;
pub mod providers;
pub mod state;
pub mod table;
pub mod text;

verus! {

/// Identifies the build attempt this library was cut for.
pub const BUILD_ATTEMPT_ID: &'static str = "slice001-20260909T180108Z-retry";

} // verus!
