//! An input-remapping engine.
//!
//! - `keys`, `combo`: the key catalog, character tables and hotkey
//!   combinations.
//! - `types`, `parser`, `send_parser`: the hotkey script language, its syntax
//!   tree, and key-sequence strings.
//! - `interpreter`: expands script actions into primitive actions for a
//!   window context.
//! - `hotstring`: incremental matching of typed text.
//! - `multipurpose`: keys with a tapped and a held role.
//! - `config`: compiling scripts into the keymap table.
//! - `event_handler`: the per-event resolution state machine.
//! - `action`: the primitive actions handed to the dispatcher.
use vstd::prelude::*;

pub mod action;
pub mod combo;
pub mod config;
pub mod event_handler;
pub mod hotstring;
pub mod interpreter;
pub mod keys;
pub mod multipurpose;
pub mod parser;
pub mod send_parser;
pub mod text;
pub mod types;

verus! {

} // verus!
