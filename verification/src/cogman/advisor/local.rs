//! Local model interface of the adviser: inference from a GGUF model held in
//! memory. No data leaves the machine and no API key is needed.
//!
//! The inference engine does not exist yet: loading always fails and a query
//! answers with a notice. Models are to live under `/var/cogman/models/`.

use vstd::prelude::*;
use crate::cogman::advisor::{write_reply, MAX_RESPONSE};
use crate::cogman::persona::t;

verus! {

/// The loaded model: a handle into the mapped weights, zero when none is loaded.
pub struct LocalModel {
    handle: u64,
}

impl LocalModel {
    /// No model loaded.
    pub fn new() -> (m: Self)
        ensures
            !m.loaded(),
    {
        LocalModel { handle: 0 }
    }

    /// Whether a model is loaded.
    pub closed spec fn loaded(&self) -> bool {
        self.handle != 0
    }
}

/// Returns true if a model is loaded and ready for inference.
pub fn is_model_loaded(model: &LocalModel) -> (r: bool)
    ensures
        r == model.loaded(),
{
    model.handle != 0
}

/// Load a GGUF model from `path`. There is no inference engine or memory
/// mapping yet, so this fails and leaves the model as it was.
pub fn load(model: &mut LocalModel, path: &[u8]) -> (ok: bool)
    ensures
        !ok,
        final(model).loaded() == old(model).loaded(),
{
    let _ = path;
    false
}

/// Unload the current model.
pub fn unload(model: &mut LocalModel)
    ensures
        !final(model).loaded(),
{
    model.handle = 0;
}

/// Inference parameters.
#[derive(Clone, Copy, Debug)]
pub struct InferParams {
    /// Maximum tokens to generate.
    pub max_tokens: u32,
    /// Temperature (scaled: 100 = 1.0). Lower = more deterministic.
    pub temperature_x100: u32,
    /// Top-p sampling (scaled: 100 = 1.0).
    pub top_p_x100: u32,
}

impl Default for InferParams {
    fn default() -> (p: Self)
        ensures
            p.max_tokens == 512 && p.temperature_x100 == 70 && p.top_p_x100 == 95,
    {
        InferParams { max_tokens: 512, temperature_x100: 70, top_p_x100: 95 }
    }
}

/// The answer when no model is loaded.
pub open spec fn no_model_reply() -> Seq<u8> {
    t("[Cogman] No local model is loaded. Use `cogman load-model <path>` to load a GGUF model.")
}

/// The answer while the inference engine is missing.
pub open spec fn no_engine_reply() -> Seq<u8> {
    t("[Cogman] Inference engine not yet initialised. The local model interface is reserved for when the engine ships.")
}

/// What the local model answers.
pub open spec fn local_reply(model: LocalModel) -> Seq<u8> {
    if model.loaded() { no_engine_reply() } else { no_model_reply() }
}

/// `out` holds `reply` cut to the buffer, and the rest of `out` is unchanged;
/// `n` is the length written.
pub open spec fn replied(reply: Seq<u8>, old_out: Seq<u8>, out: Seq<u8>, n: usize) -> bool {
    &&& n == if reply.len() < MAX_RESPONSE { reply.len() } else { MAX_RESPONSE as nat }
    &&& out.len() == old_out.len()
    &&& forall|i: int| 0 <= i < n ==> out[i] == reply[i]
    &&& forall|i: int| n <= i < out.len() ==> out[i] == old_out[i]
}

/// Answer `text` with the default parameters.
pub fn query(model: &LocalModel, text: &[u8], out: &mut [u8; MAX_RESPONSE]) -> (n: usize)
    ensures
        replied(local_reply(*model), old(out)@, final(out)@, n),
{
    query_with_params(model, text, &InferParams::default(), out)
}

/// Answer `text` with explicit parameters.
pub fn query_with_params(model: &LocalModel, text: &[u8], params: &InferParams, out: &mut [u8; MAX_RESPONSE]) -> (n: usize)
    ensures
        replied(local_reply(*model), old(out)@, final(out)@, n),
{
    let _ = text;
    let _ = params;
    if !is_model_loaded(model) {
        return write_reply(out, "[Cogman] No local model is loaded. Use `cogman load-model <path>` to load a GGUF model.");
    }
    write_reply(out, "[Cogman] Inference engine not yet initialised. The local model interface is reserved for when the engine ships.")
}

/// List the available models into `out`. There is no directory reading yet:
/// nothing is written.
pub fn list_models(out: &mut [u8; 512]) -> (n: usize)
    ensures
        n == 0,
        final(out)@ == old(out)@,
{
    let _ = out;
    0
}

} // verus!
