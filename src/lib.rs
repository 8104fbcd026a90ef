//! Hiding messages in PNG files: chunk types, chunks and the PNG container,
//! with their byte formats proved against mathematical models.

pub mod args;
pub mod chunk;
pub mod chunk_type;
pub mod commands;
pub mod error;
pub mod png;
