//! The executor boundary: the sole contact with the generation backend.

use vstd::prelude::*;

use crate::conversation::Conversation;
use crate::options::GenerationOptions;

verus! {

/// The backend failed to produce output (unavailable, internal failure,
/// invalid options).  Surfaced unchanged to the caller; the engine never
/// retries.
#[derive(Debug)]
pub struct ExecutorError {
    pub message: String,
}

impl View for ExecutorError {
    type V = Seq<char>;

    open spec fn view(&self) -> Seq<char> {
        self.message@
    }
}

/// The abstract boundary to whatever system performs text generation.
///
/// `execute` receives the entire ordered history explicitly — the backend
/// must not rely on engine-side session state — together with the caller's
/// option bag, unmodified.  On success it returns the generated text as the
/// finite ordered sequence of fragments in which it was produced; on failure
/// it reports a backend error.  Nothing is assumed here about what an
/// implementation returns: callers of the engine are verified against every
/// possible outcome.  An executor holds no per-conversation state, so one
/// instance may serve several chains.
pub trait Executor {
    fn execute(&self, history: &Conversation, options: &GenerationOptions) -> Result<
        Vec<String>,
        ExecutorError,
    >;
}

} // verus!
