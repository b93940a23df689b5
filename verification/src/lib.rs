pub mod aggregate;
pub mod assemble;
pub mod config;
pub mod decks;
pub mod models;
pub mod notify;
pub mod render;
pub mod text;
