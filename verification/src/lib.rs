//! A word-puzzle engine: a puzzle shows the sorted letters of a word, and the
//! engine judges guesses, runs multi-round contests and hands out hints.

pub mod chance;
pub mod decimal;
pub mod dictionary;
pub mod hint;
pub mod judge;
pub mod lang;
pub mod order;
pub mod ranking;
pub mod results;
pub mod session;
pub mod settings;
pub mod signature;
pub mod status;
