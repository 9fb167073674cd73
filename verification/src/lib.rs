//! A key-value database service: the rules that decide what each request
//! becomes and what it is answered, with their proofs.

pub mod keyname;
pub mod text;
pub mod clock;
pub mod models;
pub mod store;
pub mod key;
pub mod laws;
pub mod cors;
pub mod config;
