use hive::dispatch::{
    advertised_host, begin_broadcast, default_model_path, model_files, start_broadcast, swarm_response, SwarmOutcome, download_url, file_name, is_model_file, model_path_for,
    model_storage_path, needs_load, own_tokenizer_path, plan_fetch, task_request,
    tokenizer_path_for, FetchPlan, InferenceError,
};
use hive::message::{task_response, topic_name, Message};
use hive::pending::PendingRequests;

fn s(x: &str) -> String {
    String::from(x)
}

#[test]
fn file_name_takes_last_segment() {
    assert_eq!(file_name(&s("models/llama.gguf")), "llama.gguf");
    assert_eq!(file_name(&s("/a/b/c.bin")), "c.bin");
    assert_eq!(file_name(&s("plain.gguf")), "plain.gguf");
    assert_eq!(file_name(&s("dir/")), "");
}

#[test]
fn download_url_points_at_model_storage() {
    assert_eq!(
        download_url(&s("192.168.1.5"), &s("m.gguf")),
        "http://192.168.1.5:3000/models/m.gguf"
    );
}

#[test]
fn task_request_carries_whole_model() {
    let m = task_request(s("t1"), s("hello"), &s("models/tiny.gguf"), &s("10.0.0.1"));
    assert_eq!(
        m,
        Message::TaskRequest {
            task_id: s("t1"),
            prompt: s("hello"),
            model_name: s("tiny.gguf"),
            download_url: Some(s("http://10.0.0.1:3000/models/tiny.gguf")),
            layer_range: None,
        }
    );
}

#[test]
fn begin_broadcast_registers_fresh_task() {
    let mut t: PendingRequests<u8> = PendingRequests::new();
    let msg = begin_broadcast(&mut t, 5, &s("models/tiny.gguf"), s("why?")).unwrap();
    match msg {
        Message::TaskRequest { task_id, prompt, model_name, download_url, layer_range } => {
            assert_eq!(task_id.len(), 36);
            assert!(t.contains(&task_id));
            assert_eq!(prompt, "why?");
            assert_eq!(model_name, "tiny.gguf");
            let url = download_url.unwrap();
            assert!(url.starts_with("http://"));
            assert!(url.ends_with(":3000/models/tiny.gguf"));
            assert_eq!(layer_range, None);
        }
        _ => panic!("expected a request"),
    }
    assert_eq!(t.len(), 1);
    let second = begin_broadcast(&mut t, 6, &s("models/tiny.gguf"), s("again")).unwrap();
    assert!(matches!(second, Message::TaskRequest { .. }));
    assert_eq!(t.len(), 2);
}

#[test]
fn response_message_holds_outcome() {
    assert_eq!(
        task_response(s("t"), Err(s("bad"))),
        Message::TaskResponse { task_id: s("t"), result: Err(s("bad")) }
    );
    assert_eq!(topic_name(), "hive-main");
}

#[test]
fn model_paths() {
    assert_eq!(model_storage_path(&s("a.gguf")), "models/a.gguf");
    assert_eq!(default_model_path(), "models/tinyllama-1.1b-chat-v1.0.Q4_K_S.gguf");
    assert_eq!(model_path_for(s("/abs/a.gguf"), true), "/abs/a.gguf");
    assert_eq!(model_path_for(s("a.gguf"), false), "models/a.gguf");
}

#[test]
fn tokenizer_choice() {
    assert_eq!(own_tokenizer_path(&s("models/a.gguf")), "models/a.gguf.tokenizer.json");
    assert_eq!(tokenizer_path_for(&s("models/a.gguf"), true, Some(s("x.json"))), "models/a.gguf.tokenizer.json");
    assert_eq!(tokenizer_path_for(&s("models/a.gguf"), false, Some(s("x.json"))), "x.json");
    assert_eq!(tokenizer_path_for(&s("models/a.gguf"), false, None), "tokenizer.json");
}

#[test]
fn engine_reload_only_on_mismatch() {
    assert!(needs_load(&None, &s("models/a.gguf")));
    assert!(needs_load(&Some(s("models/b.gguf")), &s("models/a.gguf")));
    assert!(!needs_load(&Some(s("models/a.gguf")), &s("models/a.gguf")));
}

#[test]
fn fetch_plans() {
    assert_eq!(plan_fetch(true, Some(s("http://x"))), FetchPlan::Present);
    assert_eq!(plan_fetch(false, Some(s("http://x"))), FetchPlan::Download(s("http://x")));
    assert_eq!(plan_fetch(false, None), FetchPlan::Missing);
}

#[test]
fn model_file_names() {
    assert!(is_model_file(&s("a.gguf")));
    assert!(is_model_file(&s("weights.bin")));
    assert!(!is_model_file(&s("a.gguf.tokenizer.json")));
    assert!(!is_model_file(&s("bin")));
    assert!(is_model_file(&s(".bin")));
}

#[test]
fn error_messages() {
    assert_eq!(InferenceError::LoadFailed(s("no file")).message(), "Failed to load model: no file");
    assert_eq!(InferenceError::GenerationFailed(s("nan")).message(), "Inference failed: nan");
    assert_eq!(InferenceError::EngineTimeout.message(), "Inference timed out (engine too slow or stuck)");
    assert_eq!(InferenceError::WorkerLost.message(), "Internal server error (task panic)");
    assert_eq!(InferenceError::ChannelClosed.message(), "Internal channel closed");
    assert_eq!(InferenceError::Direct(s("exit 1")).message(), "exit 1");
    assert_eq!(InferenceError::DuplicateTask.message(), "Internal error: task id already outstanding");
    assert_eq!(
        InferenceError::ModelUnavailable.message(),
        "Model not found or failed to load (Download might have failed)"
    );
}

#[test]
fn advertised_host_falls_back_to_loopback() {
    assert_eq!(advertised_host(Some(s("192.168.0.4"))), "192.168.0.4");
    assert_eq!(advertised_host(None), "127.0.0.1");
}

#[test]
fn start_broadcast_builds_exact_request() {
    let mut t: PendingRequests<u8> = PendingRequests::new();
    let m = start_broadcast(&mut t, 1, s("t-1"), &s("10.0.0.8"), &s("models/a.gguf"), s("hi")).unwrap();
    assert_eq!(
        m,
        Message::TaskRequest {
            task_id: s("t-1"),
            prompt: s("hi"),
            model_name: s("a.gguf"),
            download_url: Some(s("http://10.0.0.8:3000/models/a.gguf")),
            layer_range: None,
        }
    );
    assert!(t.contains(&s("t-1")));
    let again = start_broadcast(&mut t, 2, s("t-1"), &s("10.0.0.8"), &s("models/a.gguf"), s("hi"));
    assert_eq!(again, Err(InferenceError::DuplicateTask));
    assert_eq!(t.len(), 1);
}

#[test]
fn model_files_keeps_models_in_order() {
    let names = vec![s("b.bin"), s("notes.txt"), s("a.gguf"), s("a.gguf.tokenizer.json")];
    assert_eq!(model_files(&names), vec![s("b.bin"), s("a.gguf")]);
    assert_eq!(model_files(&Vec::new()), Vec::<String>::new());
}

#[test]
fn swarm_responses() {
    assert_eq!(
        swarm_response(s("t"), SwarmOutcome::Ran(Ok(s("text")))),
        Message::TaskResponse { task_id: s("t"), result: Ok(s("text")) }
    );
    assert_eq!(
        swarm_response(s("t"), SwarmOutcome::ModelMissing),
        Message::TaskResponse {
            task_id: s("t"),
            result: Err(s("Model not found or failed to load (Download might have failed)"))
        }
    );
    assert_eq!(
        swarm_response(s("t"), SwarmOutcome::FetchFailed(s("Download error: refused"))),
        Message::TaskResponse { task_id: s("t"), result: Err(s("Download error: refused")) }
    );
    assert_eq!(
        swarm_response(s("t"), SwarmOutcome::Ran(Err(InferenceError::LoadFailed(s("bad file"))))),
        Message::TaskResponse { task_id: s("t"), result: Err(s("Failed to load model: bad file")) }
    );
    assert_eq!(
        swarm_response(s("t"), SwarmOutcome::Lost),
        Message::TaskResponse { task_id: s("t"), result: Err(s("Internal server error (task panic)")) }
    );
}

#[test]
fn send_failure_message() {
    assert_eq!(
        InferenceError::SendFailed(s("channel closed")).message(),
        "Failed to send to P2P loop: channel closed"
    );
}
