pub mod board;
pub mod search;
