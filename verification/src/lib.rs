pub mod text;
pub mod split;
pub mod number;
pub mod cli;
pub mod error;
pub mod github;
pub mod digest;
pub mod filter;
pub mod render;
pub mod repo;
pub mod output;
pub mod run;
