//! Knowledge blocks stored on IPFS: the runtime logic of the knowledge,
//! knowledge-market and IPFS-core pallets, modelled as verified state machines.

pub mod dispatch;
pub mod market;
pub mod storage;
pub mod primitives;
pub mod ipfs_core;
pub mod content;
pub mod knowledge;
pub mod rpc;
