//! Indexing of an ERC-721 collection: which tokens changed hands, who may transfer them, and what
//! newly created contracts say of themselves.

use vstd::prelude::*;

pub mod abi;
pub mod answer_laws;
pub mod block;
pub mod block_laws;
pub mod changes;
pub mod contract;
pub mod creation_laws;
pub mod creations;
pub mod event_laws;
pub mod evm;
pub mod execution;
pub mod handlers;
pub mod opcode;
pub mod opcode_laws;
pub mod run_laws;
pub mod schema;
pub mod storage;
pub mod table_laws;
pub mod tables;
pub mod text;
pub mod text_laws;

verus! {

/// The contract of the collection.
pub const ADDRESS: &'static str = "0xBC4CA0EdA7647A8aB7C2061c2E118A18a936f13D";

/// The block with which the collection starts.
pub const START_BLOCK: u64 = 12287507;

} // verus!
