//! What the library promises, said in the terms of those who use it: with the values of the game
//! and of the files, and not with the functions by which the other modules say how they work.
pub mod actions;
pub mod budgets;
pub mod details;
pub mod faults;
pub mod files;
pub mod filter;
pub mod images;
pub mod installation;
pub mod journal;
pub mod lives;
pub mod messages;
pub mod questions;
pub mod readers;
pub mod replacement;
pub mod sessions;
pub mod steam;
pub mod strings;
pub mod updates;
pub mod values;
pub mod window;
