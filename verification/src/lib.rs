//! A line-oriented lint engine for dotenv files: a fixed registry of rule
//! checkers, a comment-driven protocol that switches them off and on, and the
//! dispatch loop that applies them to each line and collects the warnings.

pub mod text;
pub mod common;
pub mod comment;
pub mod rules;
pub mod checks;
pub mod laws;
