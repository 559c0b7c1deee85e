//! In-memory model, binary codec and semantic builder for a custom
//! "webidl-bindings" section: interface type descriptions, function
//! marshaling recipes, and the statements that attach a recipe to a
//! concrete host-module function.

pub mod ast;
pub mod views;
pub mod binary;
pub mod builder;
