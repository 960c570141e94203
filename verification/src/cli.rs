//! The process configuration: which role to run and with what, fixed
//! at startup and threaded through constructors.
//!
//! Argument parsing stays outside the library; it fills these types
//! and the decisions below say what the parsed values mean.

use vstd::prelude::*;
use vstd::string::StringExecFns;

verus! {

/// The role a process runs: answer requests (optionally also serving
/// the web command surface), or send one prompt and exit.
#[derive(Debug, Clone, PartialEq, Eq)]
pub enum Mode {
    Serve { ollama_url: String, model: String },
    Web { ollama_url: String, model: String },
    Ask { prompt: String },
}

/// Everything the process was started with.
#[derive(Debug, Clone, PartialEq, Eq)]
pub struct Args {
    pub mode: Mode,
}

/// The backend URL the Leader falls back to.
pub fn default_ollama_url() -> (r: String)
    ensures
        r@ == "http://127.0.0.1:11434"@,
{
    String::from_str("http://127.0.0.1:11434")
}

/// The model the Leader falls back to.
pub fn default_model() -> (r: String)
    ensures
        r@ == "qwen:0.5b"@,
{
    String::from_str("qwen:0.5b")
}

/// Whether `url` is one of the spellings of the default local
/// backend.
pub open spec fn is_default_url(url: Seq<char>) -> bool {
    url == "http://localhost:11434"@ || url == "http://127.0.0.1:11434"@
}

/// The backend URL the Leader actually uses: an environment override
/// replaces the URL only when the command line left it at a default
/// spelling; an explicit URL always wins.
pub fn effective_ollama_url(cli_url: String, env_override: Option<String>) -> (r: String)
    ensures
        match env_override {
            Some(o) => r@ == if is_default_url(cli_url@) {
                o@
            } else {
                cli_url@
            },
            None => r@ == cli_url@,
        },
{
    let local = String::from_str("http://localhost:11434");
    let loop_back = String::from_str("http://127.0.0.1:11434");
    let is_default = cli_url == local || cli_url == loop_back;
    match env_override {
        Some(o) => {
            if is_default {
                o
            } else {
                cli_url
            }
        },
        None => cli_url,
    }
}

} // verus!
