//! Request matching with composable filters, and the workflow definitions,
//! index and execution rules of a workflow runner, with a digest-keyed
//! index of code snippets.
pub mod text;
pub mod value;
pub mod rejection;
pub mod request;
pub mod filter;
pub mod laws;
pub mod workflow;
pub mod index;
pub mod run;
pub mod code_indexer;
