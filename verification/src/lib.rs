//! A small library of saved AI prompts: records with a title, a tag and a
//! body, keyword search, tag listing, and the state machine behind the
//! manager's window.

pub mod text;
pub mod clock;
pub mod db;
pub mod app;
pub mod laws;
