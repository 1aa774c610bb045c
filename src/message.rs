//! The two messages nodes exchange on the broadcast topic.
use vstd::prelude::*;

verus! {

/// A message of the task protocol.
#[derive(Debug, PartialEq, Eq)]
pub enum Message {
    /// Asks the swarm to run `prompt` on `model_name`; `download_url` says
    /// where the model file can be fetched, `layer_range` which layers to load
    /// (`None`: the whole model).
    TaskRequest {
        task_id: String,
        prompt: String,
        model_name: String,
        download_url: Option<String>,
        layer_range: Option<(usize, usize)>,
    },
    /// The outcome of the request with the same `task_id`.
    TaskResponse { task_id: String, result: Result<String, String> },
}

/// The name of the broadcast topic every node subscribes to.
pub fn topic_name() -> (r: &'static str)
    ensures
        r@ == "hive-main"@,
{
    "hive-main"
}

/// The response that reports `result` for `task_id`.
pub fn task_response(task_id: String, result: Result<String, String>) -> (r: Message)
    ensures
        r == (Message::TaskResponse { task_id, result }),
{
    Message::TaskResponse { task_id, result }
}

} // verus!
