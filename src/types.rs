//! Plain records shared between nodes.
use vstd::prelude::*;

verus! {

/// A work item handed to a node: the task and the content id of its model shard.
#[derive(Debug, Clone, PartialEq, Eq)]
pub struct TaskPayload {
    pub task_id: String,
    pub model_shard_cid: String,
}

/// A blob together with the hex digest it is stored under.
#[derive(Debug, Clone, PartialEq, Eq)]
pub struct Chunk {
    pub data: Vec<u8>,
    pub hash: String,
}

/// A unit of compute work whose operands and result live in the content store.
#[derive(Debug, Clone, PartialEq, Eq)]
pub enum ComputeTask {
    MatrixMul { matrix_a_cid: String, matrix_b_cid: String, result_cid: String },
}

} // verus!
