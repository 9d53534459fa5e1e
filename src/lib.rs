//! A directory-tree content dumper: byte-level text/binary and encoding
//! detection, a safety gate for displaying files, and a path filter engine.

pub mod cli;
pub mod config;
pub mod detector;
pub mod filter;
pub mod foreign;
pub mod pathname;
pub mod text;
pub mod traversal;
pub mod validator;
