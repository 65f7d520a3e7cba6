//! Steps: the next turn to be produced, not yet rendered.

use vstd::prelude::*;

use crate::chain::ChainError;
use crate::conversation::{Conversation, Message, Role};
use crate::executor::Executor;
use crate::options::GenerationOptions;
use crate::output::Output;
use crate::params::ParameterSet;
use crate::render::{render, spec_render, RenderError};

verus! {

/// A deferred unit of work: a role and an unrendered prompt template.
///
/// A step holds no state of its own, so one step can be rendered any
/// number of times with different parameter sets.
pub struct Step {
    pub role: Role,
    pub pattern: String,
}

impl Step {
    /// A step that will render `pattern` and speak it as `role`.
    pub fn for_prompt_template(role: Role, pattern: String) -> (r: Step)
        ensures
            r.role == role,
            r.pattern@ == pattern@,
    {
        Step { role, pattern }
    }

    /// Renders this step with `params` and runs it alone — zero-shot — so
    /// the backend sees a history of exactly the one rendered message,
    /// together with `options` unmodified.
    ///
    /// Fails with `UndefinedVariable` exactly when rendering fails, and
    /// otherwise surfaces a backend failure unchanged.
    pub fn run<E: Executor>(
        &self,
        params: &ParameterSet,
        executor: &E,
        options: &GenerationOptions,
    ) -> (r: Result<Output, ChainError>)
        ensures
            match spec_render(self.pattern@, params@) {
                Err(n) => r matches Err(e) && e matches ChainError::UndefinedVariable(m) && m@
                    == n,
                Ok(t) => {
                    &&& r matches Ok(out) ==> out.is_fresh() && out.wf()
                    &&& r matches Err(e) ==> e is Executor
                },
            },
    {
        match render(self.pattern.as_str(), params) {
            Err(RenderError::UndefinedVariable(m)) => Err(ChainError::UndefinedVariable(m)),
            Ok(text) => {
                let mut history = Conversation::new();
                history.push_message(Message::new(self.role, text));
                match executor.execute(&history, options) {
                    Ok(fragments) => Ok(Output::new(fragments)),
                    Err(e) => Err(ChainError::Executor(e)),
                }
            },
        }
    }
}

} // verus!
