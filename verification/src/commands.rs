//! The four-letter-word commands this crate understands, one module per
//! command, plus values they share.

pub mod common;
pub mod mntr;
