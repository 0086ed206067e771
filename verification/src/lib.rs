//! A personal reading tracker's library of books: the ordered record list,
//! the rules that name and own cover image assets, and the backup document
//! that carries a whole library, images included, in one file.
//!
//! Everything here works on plain values. Reading and writing files and
//! fetching images over the network is left to the caller.

pub mod text;
pub mod outside;
pub mod error;
pub mod book;
pub mod asset;
pub mod store;
pub mod backup;
pub mod commands;
