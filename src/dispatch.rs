//! What a node does with a request: the broadcast wait and its timeout, the
//! handling of inbound protocol messages, and the choices around the local
//! engine and its model files.
use vstd::prelude::*;

use crate::message::Message;
use crate::registry::texts;
use crate::pending::{resolve_outcome, PendingError, PendingRequests};

verus! {

/// Seconds a broadcast request waits for its response.
pub const BROADCAST_TIMEOUT_SECS: u64 = 1200;

/// Seconds a local generation may take.
pub const LOCAL_TIMEOUT_SECS: u64 = 300;

/// The port a peer's worker listens on.
pub const WORKER_PORT: u16 = 50052;

/// Layers offloaded to a peer's worker: all of them.
pub const FULL_OFFLOAD_LAYERS: usize = 99;

/// Tokens generated for a request made on this node.
pub const LOCAL_SAMPLE_LEN: usize = 20;

/// Tokens generated for a request received from the swarm.
pub const SWARM_SAMPLE_LEN: usize = 50;

/// Why a request produced no text.
#[derive(Debug, Clone, PartialEq, Eq)]
pub enum InferenceError {
    /// The model could not be loaded into the engine.
    LoadFailed(String),
    /// The engine failed while generating.
    GenerationFailed(String),
    /// The local generation overran its time limit.
    EngineTimeout,
    /// The work running the engine stopped without an outcome.
    WorkerLost,
    /// No response came back from the swarm in time.
    BroadcastTimeout,
    /// The completion slot was dropped without a response.
    ChannelClosed,
    /// The peer that ran the task reported this failure.
    Remote(String),
    /// The peer's worker failed; its message.
    Direct(String),
    /// The generated task id was already outstanding.
    DuplicateTask,
    /// The requested model is neither here nor could it be fetched.
    ModelUnavailable,
    /// The request could not be handed to the broadcast loop.
    SendFailed(String),
}

pub open spec fn error_text(e: InferenceError) -> Seq<char> {
    match e {
        InferenceError::LoadFailed(m) => "Failed to load model: "@ + m@,
        InferenceError::GenerationFailed(m) => "Inference failed: "@ + m@,
        InferenceError::EngineTimeout => "Inference timed out (engine too slow or stuck)"@,
        InferenceError::WorkerLost => "Internal server error (task panic)"@,
        InferenceError::BroadcastTimeout => "Distributed inference timed out (1200s limit exceeded)"@,
        InferenceError::ChannelClosed => "Internal channel closed"@,
        InferenceError::Remote(m) => "Remote Error: "@ + m@,
        InferenceError::Direct(m) => m@,
        InferenceError::DuplicateTask => "Internal error: task id already outstanding"@,
        InferenceError::ModelUnavailable => "Model not found or failed to load (Download might have failed)"@,
        InferenceError::SendFailed(m) => "Failed to send to P2P loop: "@ + m@,
    }
}

fn prefixed(prefix: &str, m: &String) -> (r: String)
    ensures
        r@ == prefix@ + m@,
{
    let mut r = prefix.to_owned();
    r.append(m.as_str());
    r
}

impl InferenceError {
    /// The message shown to the caller.
    pub fn message(&self) -> (r: String)
        ensures
            r@ == error_text(*self),
    {
        match self {
            InferenceError::LoadFailed(m) => prefixed("Failed to load model: ", m),
            InferenceError::GenerationFailed(m) => prefixed("Inference failed: ", m),
            InferenceError::EngineTimeout => "Inference timed out (engine too slow or stuck)".to_owned(),
            InferenceError::WorkerLost => "Internal server error (task panic)".to_owned(),
            InferenceError::BroadcastTimeout => "Distributed inference timed out (1200s limit exceeded)".to_owned(),
            InferenceError::ChannelClosed => "Internal channel closed".to_owned(),
            InferenceError::Remote(m) => prefixed("Remote Error: ", m),
            InferenceError::Direct(m) => m.clone(),
            InferenceError::DuplicateTask => "Internal error: task id already outstanding".to_owned(),
            InferenceError::ModelUnavailable => "Model not found or failed to load (Download might have failed)".to_owned(),
            InferenceError::SendFailed(m) => prefixed("Failed to send to P2P loop: ", m),
        }
    }
}

/// The text after the last `/` of a path (all of it when there is none).
pub open spec fn file_name_spec(p: Seq<char>) -> Seq<char>
    decreases p.len(),
{
    if p.len() == 0 {
        p
    } else if p.last() == '/' {
        seq![]
    } else {
        file_name_spec(p.drop_last()).push(p.last())
    }
}

/// The file name part of `path`: the text after its last `/`.
pub fn file_name(path: &String) -> (r: String)
    ensures
        r@ == file_name_spec(path@),
{
    let s = path.as_str();
    let n = s.unicode_len();
    let mut i: usize = n;
    assert(s@.subrange(0, n as int) =~= s@);
    assert(s@.subrange(n as int, n as int) =~= seq![]);
    while i > 0 && s.get_char(i - 1) != '/'
        invariant
            n == s@.len(),
            i <= n,
            file_name_spec(s@) == file_name_spec(s@.subrange(0, i as int)) + s@.subrange(i as int, n as int),
        decreases i,
    {
        let ghost pre = s@.subrange(0, i as int);
        assert(pre.drop_last() =~= s@.subrange(0, i - 1));
        assert(pre.last() == s@[i - 1]);
        assert(s@.subrange(i - 1, n as int) =~= seq![s@[i - 1]] + s@.subrange(i as int, n as int));
        assert(file_name_spec(pre) == file_name_spec(s@.subrange(0, i - 1)).push(s@[i - 1]));
        assert(file_name_spec(s@.subrange(0, i - 1)).push(s@[i - 1]) + s@.subrange(i as int, n as int)
            =~= file_name_spec(s@.subrange(0, i - 1)) + s@.subrange(i - 1, n as int));
        i = i - 1;
    }
    if i > 0 {
        let ghost pre = s@.subrange(0, i as int);
        assert(pre.last() == s@[i - 1]);
        assert(file_name_spec(pre) =~= seq![]);
    } else {
        assert(s@.subrange(0, 0) =~= seq![]);
    }
    assert(file_name_spec(s@) =~= s@.subrange(i as int, n as int));
    s.substring_char(i, n).to_owned()
}

/// Where peers fetch a model file that this node serves.
pub open spec fn download_url_spec(host: Seq<char>, file: Seq<char>) -> Seq<char> {
    "http://"@ + host + ":3000/models/"@ + file
}

/// The address at which `host` serves the model file `file`.
pub fn download_url(host: &String, file: &String) -> (r: String)
    ensures
        r@ == download_url_spec(host@, file@),
{
    let mut r = "http://".to_owned();
    r.append(host.as_str());
    r.append(":3000/models/");
    r.append(file.as_str());
    r
}

/// Relies on uuid::Uuid::new_v4 and its text form: a fresh random task id.
#[verifier::external_body]
fn new_task_id() -> (r: String) {
    uuid::Uuid::new_v4().to_string()
}

/// Relies on local_ip_address::local_ip: this machine's address on the
/// local network, in text form, when one is found.
#[verifier::external_body]
fn local_ip_text() -> (r: Option<String>) {
    match local_ip_address::local_ip() {
        Ok(ip) => Some(ip.to_string()),
        Err(_) => None,
    }
}

/// The broadcast request for `prompt` on the model at `model_path`, to be
/// fetched from `host` by peers that lack it. The whole model is asked for.
pub fn task_request(task_id: String, prompt: String, model_path: &String, host: &String) -> (r: Message)
    ensures
        r matches Message::TaskRequest { task_id: t, prompt: p, model_name: m, download_url: Some(u), layer_range: None }
            && t@ == task_id@ && p@ == prompt@ && m@ == file_name_spec(model_path@)
            && u@ == download_url_spec(host@, file_name_spec(model_path@)),
{
    let model_name = file_name(model_path);
    let url = download_url(host, &model_name);
    Message::TaskRequest { task_id, prompt, model_name, download_url: Some(url), layer_range: None }
}

/// The host this node advertises for downloads: its local address when one
/// was found, else the loopback address.
pub open spec fn advertised_host_spec(ip: Option<Seq<char>>) -> Seq<char> {
    match ip {
        Some(s) => s,
        None => "127.0.0.1"@,
    }
}

/// The host to advertise, given the local address lookup's result.
pub fn advertised_host(ip: Option<String>) -> (r: String)
    ensures
        r@ == advertised_host_spec(
            match ip {
                Some(s) => Some(s@),
                None => None,
            },
        ),
{
    match ip {
        Some(s) => s,
        None => "127.0.0.1".to_owned(),
    }
}

/// Starts a broadcast under `task_id`: registers it with `slot` and returns
/// the request to publish, offering the model for download from `host`.
/// Refused, with the table unchanged, while `task_id` is outstanding.
pub fn start_broadcast<S>(
    table: &mut PendingRequests<S>,
    slot: S,
    task_id: String,
    host: &String,
    model_path: &String,
    prompt: String,
) -> (r: Result<Message, InferenceError>)
    requires
        old(table).wf(),
    ensures
        final(table).wf(),
        r is Ok <==> !old(table)@.contains_key(task_id@),
        match r {
            Ok(msg) => msg matches Message::TaskRequest { task_id: t, prompt: p, model_name: m, download_url: Some(u), layer_range: None }
                && t@ == task_id@ && final(table)@ == old(table)@.insert(task_id@, slot)
                && p@ == prompt@ && m@ == file_name_spec(model_path@)
                && u@ == download_url_spec(host@, file_name_spec(model_path@)),
            Err(e) => e is DuplicateTask && final(table)@ == old(table)@,
        },
{
    let t = task_id.clone();
    match table.register(task_id, slot) {
        Ok(()) => Ok(task_request(t, prompt, model_path, host)),
        Err(PendingError::DuplicateTask) => Err(InferenceError::DuplicateTask),
    }
}

/// Starts a broadcast: registers a fresh random task id with `slot` and
/// returns the request to publish. The model is offered for download from
/// this node's local address (the loopback address when none is found).
/// On an empty table it always succeeds; otherwise only a drawn id that is
/// already outstanding makes it fail.
pub fn begin_broadcast<S>(table: &mut PendingRequests<S>, slot: S, model_path: &String, prompt: String) -> (r: Result<Message, InferenceError>)
    requires
        old(table).wf(),
    ensures
        final(table).wf(),
        old(table)@ == Map::<Seq<char>, S>::empty() ==> r is Ok,
        match r {
            Ok(msg) => msg matches Message::TaskRequest { task_id: t, prompt: p, model_name: m, download_url: Some(u), layer_range: None }
                && !old(table)@.contains_key(t@) && final(table)@ == old(table)@.insert(t@, slot)
                && p@ == prompt@ && m@ == file_name_spec(model_path@)
                && exists|ip: Option<Seq<char>>| u@ == download_url_spec(advertised_host_spec(ip), file_name_spec(model_path@)),
            Err(e) => e is DuplicateTask && final(table)@ == old(table)@
                && exists|t: Seq<char>| old(table)@.contains_key(t),
        },
{
    let task_id = new_task_id();
    let ip = local_ip_text();
    let ghost ip_view: Option<Seq<char>> = if ip is Some {
        Some(ip->0@)
    } else {
        None
    };
    let host = advertised_host(ip);
    let ghost t = task_id@;
    let r = start_broadcast(table, slot, task_id, &host, model_path, prompt);
    proof {
        if r is Err {
            assert(old(table)@.contains_key(t));
        }
        assert(host@ == advertised_host_spec(ip_view));
    }
    r
}

/// How a broadcast wait ended.
#[derive(Debug, PartialEq, Eq)]
pub enum WaitEvent {
    /// The response arrived with this outcome.
    Delivered(Result<String, String>),
    /// The slot was dropped without a response.
    Closed,
    /// The time limit passed first.
    TimedOut,
}

/// Ends the broadcast wait for `task_id`: a delivered outcome is returned as
/// it came, a timeout or a dropped slot is an error. Either way no entry for
/// the task is left behind.
pub fn finish_broadcast<S>(table: &mut PendingRequests<S>, task_id: &String, event: WaitEvent) -> (r: Result<String, InferenceError>)
    requires
        old(table).wf(),
    ensures
        final(table).wf(),
        final(table)@ == old(table)@.remove(task_id@),
        !final(table)@.contains_key(task_id@),
        match event {
            WaitEvent::Delivered(Ok(s)) => r == Ok::<String, InferenceError>(s),
            WaitEvent::Delivered(Err(m)) => r == Err::<String, InferenceError>(InferenceError::Remote(m)),
            WaitEvent::Closed => r == Err::<String, InferenceError>(InferenceError::ChannelClosed),
            WaitEvent::TimedOut => r == Err::<String, InferenceError>(InferenceError::BroadcastTimeout),
        },
{
    table.expire(task_id);
    match event {
        WaitEvent::Delivered(Ok(s)) => Ok(s),
        WaitEvent::Delivered(Err(m)) => Err(InferenceError::Remote(m)),
        WaitEvent::Closed => Err(InferenceError::ChannelClosed),
        WaitEvent::TimedOut => Err(InferenceError::BroadcastTimeout),
    }
}

/// A broadcast that starts on a table and then times out leaves the table
/// exactly as it was before: no entry of the task remains.
pub proof fn lemma_timeout_leaves_no_entry<S>(m: Map<Seq<char>, S>, t: Seq<char>, slot: S)
    requires
        !m.contains_key(t),
    ensures
        m.insert(t, slot).remove(t) == m,
        !m.insert(t, slot).remove(t).contains_key(t),
{
    assert(m.insert(t, slot).remove(t) =~= m);
}

/// What to do with an inbound protocol message.
pub enum Inbound<S> {
    /// A request to run here; it is handed back unchanged.
    Run(Message),
    /// A response for an outstanding request: deliver the outcome to the slot.
    Deliver(S, Result<String, String>),
    /// A response nobody waits for any more; it is dropped.
    Ignore,
}

/// Decides what an inbound message leads to. A response resolves its entry
/// in `table`; a request leaves the table alone.
pub fn on_message<S>(table: &mut PendingRequests<S>, msg: Message) -> (r: Inbound<S>)
    requires
        old(table).wf(),
    ensures
        final(table).wf(),
        match msg {
            Message::TaskRequest { .. } => r == Inbound::<S>::Run(msg) && final(table)@ == old(table)@,
            Message::TaskResponse { task_id, result } => resolve_outcome(old(table)@, task_id@) == (
                match r {
                    Inbound::Deliver(s, _) => Some(s),
                    _ => None::<S>,
                },
                final(table)@,
            ) && !(r is Run) && (r matches Inbound::Deliver(_, res) ==> res == result),
        },
{
    match msg {
        Message::TaskRequest { .. } => Inbound::Run(msg),
        Message::TaskResponse { task_id, result } => match table.resolve(&task_id, result) {
            Some((s, res)) => Inbound::Deliver(s, res),
            None => Inbound::Ignore,
        },
    }
}


/// Where this node keeps a model file named `name`.
pub open spec fn model_storage_spec(name: Seq<char>) -> Seq<char> {
    "models/"@ + name
}

/// Where this node keeps the model file `name`.
pub fn model_storage_path(name: &String) -> (r: String)
    ensures
        r@ == model_storage_spec(name@),
{
    prefixed("models/", name)
}

/// The model used when a request names none.
pub fn default_model_path() -> (r: String)
    ensures
        r@ == "models/tinyllama-1.1b-chat-v1.0.Q4_K_S.gguf"@,
{
    "models/tinyllama-1.1b-chat-v1.0.Q4_K_S.gguf".to_owned()
}

/// The path of a requested model: the request's own text when a file exists
/// there, otherwise the file of that name in model storage.
pub fn model_path_for(requested: String, exists: bool) -> (r: String)
    ensures
        exists ==> r@ == requested@,
        !exists ==> r@ == model_storage_spec(requested@),
{
    if exists {
        requested
    } else {
        model_storage_path(&requested)
    }
}

/// The tokenizer stored beside a model.
pub open spec fn own_tokenizer_spec(model_path: Seq<char>) -> Seq<char> {
    model_path + ".tokenizer.json"@
}

/// The tokenizer stored beside the model at `model_path`.
pub fn own_tokenizer_path(model_path: &String) -> (r: String)
    ensures
        r@ == own_tokenizer_spec(model_path@),
{
    let mut r = model_path.clone();
    r.append(".tokenizer.json");
    r
}

/// The tokenizer to load with a model: the one stored beside it when it
/// exists, else the one the request names, else `tokenizer.json`.
pub fn tokenizer_path_for(model_path: &String, own_exists: bool, requested: Option<String>) -> (r: String)
    ensures
        own_exists ==> r@ == own_tokenizer_spec(model_path@),
        !own_exists ==> match requested {
            Some(t) => r@ == t@,
            None => r@ == "tokenizer.json"@,
        },
{
    if own_exists {
        own_tokenizer_path(model_path)
    } else {
        match requested {
            Some(t) => t,
            None => "tokenizer.json".to_owned(),
        }
    }
}

/// Whether the engine must (re)load: it is empty, or holds another model.
pub fn needs_load(loaded: &Option<String>, model_path: &String) -> (r: bool)
    ensures
        r == match loaded {
            Some(m) => m@ != model_path@,
            None => true,
        },
{
    match loaded {
        Some(m) => !(*m == *model_path),
        None => true,
    }
}

/// How a node gets the model file a received request names.
#[derive(Debug, Clone, PartialEq, Eq)]
pub enum FetchPlan {
    /// The file is in model storage already.
    Present,
    /// Fetch it from this address first.
    Download(String),
    /// It is missing and no address was given.
    Missing,
}

/// Chooses how to get a requested model, given whether it is stored here.
pub fn plan_fetch(present: bool, download_url: Option<String>) -> (r: FetchPlan)
    ensures
        present ==> r is Present,
        !present ==> match download_url {
            Some(u) => r == FetchPlan::Download(u),
            None => r is Missing,
        },
{
    if present {
        FetchPlan::Present
    } else {
        match download_url {
            Some(u) => FetchPlan::Download(u),
            None => FetchPlan::Missing,
        }
    }
}

pub open spec fn has_suffix(s: Seq<char>, suffix: Seq<char>) -> bool {
    s.len() >= suffix.len() && s.subrange(s.len() - suffix.len(), s.len() as int) == suffix
}

fn ends_with_text(s: &String, suffix: &str) -> (r: bool)
    ensures
        r == has_suffix(s@, suffix@),
{
    let t = s.as_str();
    let n = t.unicode_len();
    let m = suffix.unicode_len();
    if n < m {
        return false;
    }
    let mut i: usize = 0;
    while i < m
        invariant
            n == t@.len(),
            m == suffix@.len(),
            t@ == s@,
            m <= n,
            i <= m,
            forall|k: int| 0 <= k < i ==> t@[n - m + k] == suffix@[k],
        decreases m - i,
    {
        if t.get_char(n - m + i) != suffix.get_char(i) {
            assert(s@.subrange(n - m, n as int)[i as int] != suffix@[i as int]);
            return false;
        }
        i = i + 1;
    }
    assert(s@.subrange(n - m, n as int) =~= suffix@);
    true
}

/// Whether a file in model storage is a model: its name ends in `.gguf` or
/// `.bin`.
pub fn is_model_file(name: &String) -> (r: bool)
    ensures
        r == (has_suffix(name@, ".gguf"@) || has_suffix(name@, ".bin"@)),
{
    ends_with_text(name, ".gguf") || ends_with_text(name, ".bin")
}


pub open spec fn is_model_name(n: Seq<char>) -> bool {
    has_suffix(n, ".gguf"@) || has_suffix(n, ".bin"@)
}

/// The model files among `names`, in their order.
pub open spec fn model_names(names: Seq<Seq<char>>) -> Seq<Seq<char>>
    decreases names.len(),
{
    if names.len() == 0 {
        seq![]
    } else if is_model_name(names.last()) {
        model_names(names.drop_last()).push(names.last())
    } else {
        model_names(names.drop_last())
    }
}

/// The names of model files among the entries of model storage, in order.
pub fn model_files(names: &Vec<String>) -> (r: Vec<String>)
    ensures
        texts(r@) == model_names(texts(names@)),
{
    let ghost all = texts(names@);
    let mut r: Vec<String> = Vec::new();
    let n = names.len();
    let mut i: usize = 0;
    assert(all.subrange(0, 0) =~= seq![]);
    while i < n
        invariant
            n == names@.len(),
            i <= n,
            all == texts(names@),
            texts(r@) == model_names(all.subrange(0, i as int)),
        decreases n - i,
    {
        let ghost pre = all.subrange(0, i + 1);
        assert(pre.drop_last() =~= all.subrange(0, i as int));
        assert(pre.last() == names@[i as int]@);
        if is_model_file(&names[i]) {
            let ghost prev = r@;
            r.push(names[i].clone());
            assert(texts(r@) =~= texts(prev).push(names@[i as int]@));
        }
        i = i + 1;
    }
    assert(all.subrange(0, n as int) =~= all);
    r
}

/// How the work on a request received from the swarm ended.
pub enum SwarmOutcome {
    /// The model is not stored here and no address to fetch it was given.
    ModelMissing,
    /// Fetching the model failed with this message.
    FetchFailed(String),
    /// The engine ran, with this outcome.
    Ran(Result<String, InferenceError>),
    /// The work running the engine stopped without an outcome.
    Lost,
}

/// The outcome reported back to the swarm.
pub open spec fn swarm_result_spec(o: SwarmOutcome) -> Result<Seq<char>, Seq<char>> {
    match o {
        SwarmOutcome::ModelMissing => Err(error_text(InferenceError::ModelUnavailable)),
        SwarmOutcome::FetchFailed(m) => Err(m@),
        SwarmOutcome::Ran(Ok(text)) => Ok(text@),
        SwarmOutcome::Ran(Err(e)) => Err(error_text(e)),
        SwarmOutcome::Lost => Err(error_text(InferenceError::WorkerLost)),
    }
}

pub open spec fn result_text(r: Result<String, String>) -> Result<Seq<char>, Seq<char>> {
    match r {
        Ok(s) => Ok(s@),
        Err(e) => Err(e@),
    }
}

/// The response to publish for a request received from the swarm.
pub fn swarm_response(task_id: String, outcome: SwarmOutcome) -> (r: Message)
    ensures
        r matches Message::TaskResponse { task_id: t, result } && t@ == task_id@ && result_text(result)
            == swarm_result_spec(outcome),
{
    let result = match outcome {
        SwarmOutcome::ModelMissing => Err(InferenceError::ModelUnavailable.message()),
        SwarmOutcome::FetchFailed(m) => Err(m),
        SwarmOutcome::Ran(Ok(text)) => Ok(text),
        SwarmOutcome::Ran(Err(e)) => Err(e.message()),
        SwarmOutcome::Lost => Err(InferenceError::WorkerLost.message()),
    };
    Message::TaskResponse { task_id, result }
}

} // verus!
