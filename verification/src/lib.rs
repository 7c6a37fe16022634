//! Core of a restaurant-ordering chat bot: per-state command grammar, the
//! dialogue state machine, a basket ledger, the ticket lifecycle and the
//! catalog with its dense numbering invariant. Transport and persistence sit
//! outside; this crate holds the decisions and the data rules.

use vstd::prelude::*;

pub mod basket;
pub mod callback;
pub mod catalog;
pub mod commands;
pub mod dialogue;
pub mod digits;
pub mod keys;
pub mod language;
pub mod settings;
pub mod strutil;
pub mod texts;
pub mod tickets;
pub mod transition;
pub mod users;

pub use digits::parse_i32_or_zero;
pub use keys::{make_key_3_int, parse_key_3_int};
