//! Core model for declarative, typed game-item components.
//!
//! The primitive value types that component payloads carry live in
//! [`vio`]; the descriptor model, its validity rules and the
//! serialization contract live in [`component`]; structured fragment
//! values and their canonical JSON text live in [`fragment`]; the item
//! registration surface lives in [`item`].

pub mod component;
pub mod decimal;
pub mod fragment;
pub mod item;
pub mod vio;
