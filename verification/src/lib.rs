//! Core of a small tool that installs third-party binary packages into an
//! isolated per-user storage area and exposes their executables through
//! generated wrapper scripts, tracking everything in a persisted index.
use vstd::prelude::*;

pub mod answer;
pub mod codec;
pub mod commands;
pub mod conan_package;
pub mod db;
pub mod errors;
pub mod extract;
pub mod orchestrator;
pub mod paths;
pub mod permissions;
pub mod script;
pub mod text;

verus! {

} // verus!
