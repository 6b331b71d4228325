//! A small line-oriented command interpreter: it classifies one input line as a
//! builtin or an external command, resolves external commands along a search
//! path, and turns every outcome into the text that is due.
pub mod builtin;
pub mod dispatch;
pub mod report;
pub mod resolver;
pub mod text;
