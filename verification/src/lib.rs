//! Combat and card-state engine for a grid-based tactical card game.
//!
//! The engine tracks units standing on a line of grid cells, a deck / hand /
//! discard pipeline of card instances, and the resolution of playing a card:
//! paying its cost by burning other cards of the hand, checking its range,
//! applying its damage and removing units that die.
//!
//! Everything here is plain data. The engine does no input or output and
//! keeps no global state: randomness is handed in by the caller as a sequence
//! of rolls, and state changes are reported through a queue of
//! [`event::Notification`] values that the host drains.
//!
//! [`field::Field`] is the entry point. [`model::FieldView`] says what a field
//! is and what each command does to it, and [`theorems`] holds what is proved
//! of every field.

pub mod burn;
pub mod card;
pub mod data;
pub mod deck;
pub mod error;
pub mod event;
pub mod field;
pub mod model;
pub mod theorems;
pub mod unit;
