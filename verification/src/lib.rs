//! Core data structures and byte formats of Zcash Crosslink, with their
//! contracts proved by Verus.

pub mod block_dump;
pub mod block_header;
pub mod bytes;
pub mod chain;
pub mod crosslink_chain;
pub mod crypto;
pub mod fat_pointer;
pub mod finality_command;
pub mod hex_text;
pub mod mal_driver;
pub mod mal_system;
pub mod malctx;
pub mod serialization;
pub mod service;
pub mod test_format;
pub mod tfl;
pub mod viz_graph;
pub mod viz_logic;
