//! A chat companion's helpers: message classification, chat history, and the
//! calendar logic that decides which appointments fall on a given day.

pub mod ai;
pub mod message_parsers;
pub mod modules;
pub mod pattern;
pub mod text;
