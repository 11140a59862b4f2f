//! Credential and account-activation core: peppered password hashing, and the
//! pending → activated lifecycle of accounts that gates login.
pub mod api;
pub mod auth;
pub mod config;
pub mod entity;
pub mod setup;
