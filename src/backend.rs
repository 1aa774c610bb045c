//! The command lines that drive the external llama.cpp tools: the RPC
//! worker, and the client that runs a prompt against a worker.
use vstd::prelude::*;

verus! {

/// The llama.cpp process backend.
#[derive(Debug, Clone, Copy, PartialEq, Eq)]
pub struct LlamaCppBackend;

pub open spec fn digit_char(d: nat) -> char {
    seq!['0', '1', '2', '3', '4', '5', '6', '7', '8', '9'][d as int]
}

/// The decimal digits of `n`, without leading zeros.
pub open spec fn decimal_spec(n: nat) -> Seq<char>
    decreases n,
{
    if n < 10 {
        seq![digit_char(n)]
    } else {
        decimal_spec(n / 10).push(digit_char(n % 10))
    }
}

fn digit_text(d: u64) -> (r: &'static str)
    requires
        d < 10,
    ensures
        r@ == seq![digit_char(d as nat)],
{
    proof {
        reveal_strlit("0");
        reveal_strlit("1");
        reveal_strlit("2");
        reveal_strlit("3");
        reveal_strlit("4");
        reveal_strlit("5");
        reveal_strlit("6");
        reveal_strlit("7");
        reveal_strlit("8");
        reveal_strlit("9");
    }
    let r = if d == 0 {
        "0"
    } else if d == 1 {
        "1"
    } else if d == 2 {
        "2"
    } else if d == 3 {
        "3"
    } else if d == 4 {
        "4"
    } else if d == 5 {
        "5"
    } else if d == 6 {
        "6"
    } else if d == 7 {
        "7"
    } else if d == 8 {
        "8"
    } else {
        "9"
    };
    assert(r@ =~= seq![digit_char(d as nat)]);
    r
}

/// `n` in decimal.
pub fn decimal(n: u64) -> (r: String)
    ensures
        r@ == decimal_spec(n as nat),
    decreases n,
{
    if n < 10 {
        digit_text(n).to_owned()
    } else {
        let mut r = decimal(n / 10);
        let d = digit_text(n % 10);
        r.append(d);
        assert(r@ =~= decimal_spec((n / 10) as nat).push(digit_char((n % 10) as nat)));
        r
    }
}

pub open spec fn worker_command_spec(port: u16) -> Seq<char> {
    "$HOME/llama.cpp/build/bin/rpc-server -p "@ + decimal_spec(port as nat) + " --host 0.0.0.0"@
}

pub open spec fn client_command_spec(model: Seq<char>, prompt: Seq<char>, worker: Seq<char>, ngl: usize) -> Seq<char> {
    "$HOME/llama.cpp/build/bin/llama-cli -m "@ + model + " -p \""@ + prompt + "\" --rpc "@ + worker
        + " -ngl "@ + decimal_spec(ngl as nat)
}

pub open spec fn controller_command_spec(model: Seq<char>, prompt: Seq<char>, worker: Seq<char>, ngl: usize) -> Seq<char> {
    client_command_spec(model, prompt, worker, ngl) + " --verbose"@
}

pub open spec fn oneshot_command_spec(model: Seq<char>, prompt: Seq<char>, worker: Seq<char>, ngl: usize) -> Seq<char> {
    client_command_spec(model, prompt, worker, ngl) + " -n 128 --single-turn --simple-io"@
}

fn client_command(model: &String, prompt: &String, worker: &String, ngl: usize) -> (r: String)
    ensures
        r@ == client_command_spec(model@, prompt@, worker@, ngl),
{
    let mut r = "$HOME/llama.cpp/build/bin/llama-cli -m ".to_owned();
    r.append(model.as_str());
    r.append(" -p \"");
    r.append(prompt.as_str());
    r.append("\" --rpc ");
    r.append(worker.as_str());
    r.append(" -ngl ");
    let d = decimal(ngl as u64);
    r.append(d.as_str());
    r
}

impl LlamaCppBackend {
    /// The shell command that starts an RPC worker listening on `port`.
    pub fn worker_command(port: u16) -> (r: String)
        ensures
            r@ == worker_command_spec(port),
    {
        let mut r = "$HOME/llama.cpp/build/bin/rpc-server -p ".to_owned();
        let d = decimal(port as u64);
        r.append(d.as_str());
        r.append(" --host 0.0.0.0");
        r
    }

    /// The shell command of an interactive client that offloads `ngl`
    /// layers to the worker at `worker`.
    pub fn controller_command(model: &String, prompt: &String, worker: &String, ngl: usize) -> (r: String)
        ensures
            r@ == controller_command_spec(model@, prompt@, worker@, ngl),
    {
        let mut r = client_command(model, prompt, worker, ngl);
        r.append(" --verbose");
        r
    }

    /// The shell command of a client that answers one prompt and exits.
    pub fn oneshot_command(model: &String, prompt: &String, worker: &String, ngl: usize) -> (r: String)
        ensures
            r@ == oneshot_command_spec(model@, prompt@, worker@, ngl),
    {
        let mut r = client_command(model, prompt, worker, ngl);
        r.append(" -n 128 --single-turn --simple-io");
        r
    }

    /// The shell command that strips carriage returns from the script at
    /// `path` in place.
    pub fn unixify_command(path: &String) -> (r: String)
        ensures
            r@ == "tr -d '\\r' < "@ + path@ + " > "@ + path@ + ".tmp && mv "@ + path@ + ".tmp "@ + path@,
    {
        let mut r = "tr -d '\\r' < ".to_owned();
        r.append(path.as_str());
        r.append(" > ");
        r.append(path.as_str());
        r.append(".tmp && mv ");
        r.append(path.as_str());
        r.append(".tmp ");
        r.append(path.as_str());
        r
    }
}

} // verus!
