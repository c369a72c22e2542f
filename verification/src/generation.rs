pub mod chat;
pub mod embed;
pub mod frames;
pub mod generate;
pub mod parameters;
pub mod rerank;
pub mod tools;
