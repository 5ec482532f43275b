//! Decision logic of a community patch for the 64-bit build of Black Ops III.
//!
//! Everything that computes or decides stands here, proved against its contract.
//! Reading the game's memory, Win32 calls and the network belong to the program
//! around this library.
use vstd::prelude::*;

pub mod arxan;
pub mod bytes;
pub mod config;
pub mod diagnostics;
pub mod exceptions;
pub mod game_build;
pub mod hashing;
pub mod hooks;
pub mod imports;
pub mod launcher;
pub mod launcher_api;
pub mod laws;
pub mod memory;
pub mod minhook;
pub mod network_guard;
pub mod numbers;
pub mod packets;
pub mod profiling;
pub mod protection;
pub mod reader;
pub mod runtime;
pub mod sanitize;
pub mod settings;
pub mod structs;
pub mod text;
pub mod utf16;
pub mod words;

verus! {

} // verus!
