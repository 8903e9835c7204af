pub mod client;
pub mod command;
pub mod error;
pub mod grammar;
pub mod model;
pub mod text;
