//! Verified core of the ONA input/display/lifecycle diagnostic screen.
pub mod text;
pub mod runtime;
pub mod lifecycle;
pub mod input;
pub mod diagnostic;
pub mod display;
pub mod rendering;
pub mod layout;
pub mod laws;
