pub mod chat;
pub mod image;
