pub mod args;
pub mod command;
pub mod container;
pub mod error;
pub mod image;
pub mod key_values;
pub mod models;
pub mod network;
pub mod records;
pub mod text;
