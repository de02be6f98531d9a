pub mod filter;
pub mod reductivesearch;
pub mod text;
