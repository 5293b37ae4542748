//! A small card collection driven by a slash-command line.
//!
//! The library is the part of a desktop application that decides: what a
//! line of input asks for, how the card store and the undo history change,
//! and where the cursor goes in the grid of cards. Drawing, files and the
//! inference program are the host's business; the host hands events in and
//! takes the new state out.
//!
//! - [`text`]: white space, trimming and scanning, over `Seq<char>`.
//! - [`card`]: the card record.
//! - [`command`]: the grammar of the command line.
//! - [`navigation`]: cursor movement in the wrapped grid.
//! - [`inference`]: the inference program's command line and its answer.
//! - [`display`]: how a card's name and tags are written.
//! - [`state`]: the application state and its transitions.
//! - [`worked`]: command lines read step by step, as proofs.

pub mod card;
pub mod command;
pub mod display;
pub mod inference;
pub mod navigation;
pub mod state;
pub mod text;
pub mod worked;
