use hive::backend::{decimal, LlamaCppBackend};

fn s(x: &str) -> String {
    String::from(x)
}

#[test]
fn decimal_text() {
    assert_eq!(decimal(0), "0");
    assert_eq!(decimal(7), "7");
    assert_eq!(decimal(50052), "50052");
    assert_eq!(decimal(u64::MAX), "18446744073709551615");
}

#[test]
fn worker_command_line() {
    assert_eq!(
        LlamaCppBackend::worker_command(50052),
        "$HOME/llama.cpp/build/bin/rpc-server -p 50052 --host 0.0.0.0"
    );
}

#[test]
fn client_command_lines() {
    assert_eq!(
        LlamaCppBackend::controller_command(&s("/mnt/c/m.gguf"), &s("hi"), &s("10.0.0.2:50052"), 99),
        "$HOME/llama.cpp/build/bin/llama-cli -m /mnt/c/m.gguf -p \"hi\" --rpc 10.0.0.2:50052 -ngl 99 --verbose"
    );
    assert_eq!(
        LlamaCppBackend::oneshot_command(&s("/mnt/c/m.gguf"), &s("hi"), &s("10.0.0.2:50052"), 99),
        "$HOME/llama.cpp/build/bin/llama-cli -m /mnt/c/m.gguf -p \"hi\" --rpc 10.0.0.2:50052 -ngl 99 -n 128 --single-turn --simple-io"
    );
}

#[test]
fn unixify_command_line() {
    assert_eq!(
        LlamaCppBackend::unixify_command(&s("./scripts/setup_llama.sh")),
        "tr -d '\\r' < ./scripts/setup_llama.sh > ./scripts/setup_llama.sh.tmp && mv ./scripts/setup_llama.sh.tmp ./scripts/setup_llama.sh"
    );
}
