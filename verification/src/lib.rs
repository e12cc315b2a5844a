pub mod error;
pub mod lex;
pub mod names;
pub mod text;
pub mod types;
pub mod grammar;
pub mod parse;
pub mod represent;
pub mod irgen;
pub mod optimise;
pub mod asmgen;
pub mod preprocess;
