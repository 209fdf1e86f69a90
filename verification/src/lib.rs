//! Verified core of the A2A STDIO transport, the request handler and the CLI.

pub mod cli;
pub mod config;
pub mod errors;
pub mod framing;
pub mod handler;
pub mod handshake;
pub mod ids;
pub mod push;
pub mod requests;
pub mod rest;
pub mod rpc;
pub mod task;
pub mod text;
