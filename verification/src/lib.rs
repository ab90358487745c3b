//! A local broker that hands narrowly scoped vault secrets to remote agents.
//!
//! The library holds the broker's rules: request signing, replay protection,
//! the catalog and its permissions, the command lines of the vault program and
//! of the keychain helper, and the course of one request from its headers to
//! its reply. It performs no input or output of its own: where a file has to
//! be read or a program has to be run, a function says which, and another one
//! takes what came back.
pub mod approval;
pub mod audit;
pub mod bw;
pub mod catalog;
pub mod certs;
pub mod cli;
pub mod command;
pub mod config;
pub mod exchange;
pub mod fetch;
pub mod json;
pub mod keychain;
pub mod nonce;
pub mod primitives;
pub mod process;
pub mod server;
pub mod signing;
pub mod text;
pub mod textmap;
pub mod vault;
