//! Client-side logic for a coordination service's administrative
//! "four-letter-word" text protocol: each command is a short ASCII word sent
//! over a fresh TCP connection, answered by free-form text that this crate
//! decodes into a typed record.
//!
//! The crate holds the verified core: the key/value text decoder, the error
//! taxonomy, the command contract, and the `mntr` (monitor) field mapper.
//! The socket transport lives outside and hands response text in.

pub mod client;
pub mod commands;
pub mod errors;
pub mod numbers;
pub mod parsing;
pub mod result;
pub mod state;
pub mod text;
