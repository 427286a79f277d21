pub mod data;
pub mod error;
pub mod face;
pub mod laws;
pub mod mtlreader;
pub mod number;
pub mod parser;
pub mod reader;
pub mod scene;
pub mod seqs;
pub mod text;
