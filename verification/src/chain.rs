//! The chain: accumulated history plus one new step per send.

use vstd::prelude::*;

use crate::conversation::{Conversation, Message, MessageView, Role};
use crate::executor::{Executor, ExecutorError};
use crate::options::GenerationOptions;
use crate::output::Output;
use crate::params::ParameterSet;
use crate::render::{render, spec_render, RenderError};
use crate::step::Step;

verus! {

/// Why a send failed.
#[derive(Debug)]
pub enum ChainError {
    /// The step's template references a variable the parameter set does not
    /// bind; the payload names it.
    UndefinedVariable(String),
    /// The backend failed; the executor's error, surfaced unchanged.
    Executor(ExecutorError),
}

/// A chain owns one conversation — its accumulated history — and drives a
/// backend with it, one step at a time.
///
/// The chain is created from an independent snapshot of a seed
/// conversation, so later sends never affect the caller's original.  Every
/// send carries the entire history explicitly; a generated reply enters the
/// history only when the caller appends it with
/// [`Chain::append_assistant`].
pub struct Chain {
    conversation: Conversation,
}

impl View for Chain {
    type V = Seq<MessageView>;

    closed spec fn view(&self) -> Seq<MessageView> {
        self.conversation@
    }
}

impl Chain {
    /// A chain seeded with an independent snapshot of `seed`'s messages;
    /// the caller's conversation is unaffected by anything the chain does
    /// later.
    pub fn new_with_message_collection(seed: &Conversation) -> (r: Chain)
        ensures
            r@ == seed@,
    {
        Chain { conversation: seed.snapshot() }
    }

    /// The accumulated history, in order.
    pub fn history(&self) -> (r: &Conversation)
        ensures
            r@ == self@,
    {
        &self.conversation
    }

    /// How many turns the history holds.
    pub fn history_len(&self) -> (r: usize)
        ensures
            r == self@.len(),
    {
        self.conversation.len()
    }

    /// Appends a completed reply as an assistant turn, making it part of
    /// the history that later sends carry.
    pub fn append_assistant(&mut self, text: String)
        ensures
            final(self)@ =~= old(self)@ + seq![
                MessageView { role: Role::Assistant, text: text@ },
            ],
    {
        self.conversation.push_message(Message::new(Role::Assistant, text));
    }

    /// Renders `step`'s template with `params`, appends the rendered
    /// message to the owned history, hands the entire accumulated sequence
    /// to `executor` together with `options` unmodified, and returns the
    /// backend's output as a fresh [`Output`] handle.
    ///
    /// If rendering fails, the history is left exactly as it was.  If the
    /// backend fails, the rendered turn stays appended — the history then
    /// reads "user asked, no answer obtained" — and the executor's error is
    /// surfaced unchanged.  The generated reply is never appended here.
    ///
    /// Taking the chain by `&mut` is the concurrency contract: at most one
    /// send can be in flight per chain, and a second concurrent send on the
    /// same chain is rejected at compile time instead of interleaving
    /// history mutations.
    pub fn send_message<E: Executor>(
        &mut self,
        step: Step,
        params: &ParameterSet,
        executor: &E,
        options: &GenerationOptions,
    ) -> (r: Result<Output, ChainError>)
        ensures
            match spec_render(step.pattern@, params@) {
                Err(n) => {
                    &&& r matches Err(e) && e matches ChainError::UndefinedVariable(m) && m@ == n
                    &&& final(self)@ == old(self)@
                },
                Ok(t) => {
                    &&& final(self)@ == old(self)@ + seq![
                        MessageView { role: step.role, text: t },
                    ]
                    &&& r matches Ok(out) ==> out.is_fresh() && out.wf()
                    &&& r matches Err(e) ==> e is Executor
                },
            },
    {
        match render(step.pattern.as_str(), params) {
            Err(RenderError::UndefinedVariable(m)) => Err(ChainError::UndefinedVariable(m)),
            Ok(text) => {
                self.conversation.push_message(Message::new(step.role, text));
                match executor.execute(&self.conversation, options) {
                    Ok(fragments) => Ok(Output::new(fragments)),
                    Err(e) => Err(ChainError::Executor(e)),
                }
            },
        }
    }
}

} // verus!
