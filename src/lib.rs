//! A verified engine for sprite-animation node graphs: node identities, a
//! per-entity attribute store, the node variants, the graph driver and the
//! loader of textual node definitions.

pub mod assoc;
pub mod error;
pub mod node_id;
pub mod state;
pub mod nodes;
pub mod tree;
pub mod lexer;
pub mod parser;
pub mod loader;
pub mod writer;
