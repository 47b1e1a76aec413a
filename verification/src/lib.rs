//! Core of a knowledge-base service: credential hashing, session tokens,
//! pagination of listings and an ownership-scoped store of accounts,
//! knowledge entries and replies.

pub mod config;
pub mod db;
pub mod error;
pub mod routes;
pub mod types;
