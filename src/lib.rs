//! Ad discovery pipeline: keyword filters, listing store, feed rendering and
//! the decisions of the fetch cycle, with their contracts.

pub mod sorted;
pub mod strmap;
pub mod text;
pub mod filter;
pub mod store;
pub mod config;
pub mod cycle;
pub mod extract;
pub mod feed;
pub mod worker;
pub mod db;
