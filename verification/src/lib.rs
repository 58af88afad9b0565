//! Block tree and proposal generation for a leader-based BFT replication
//! protocol, together with the pure decisions of the deployment tooling
//! that surrounds it.

pub mod block;
pub mod block_tree;
pub mod config;
pub mod helm;
pub mod proposal;
pub mod text;
