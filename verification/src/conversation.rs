//! Messages and conversations: the ordered dialogue history.

use vstd::prelude::*;

use crate::params::ParameterSet;
use crate::render::{render, spec_render, RenderError};

verus! {

/// Who speaks a turn of the dialogue.
#[derive(Clone, Copy, PartialEq, Eq, Structural, Debug)]
pub enum Role {
    User,
    Assistant,
    System,
}

/// The mathematical value of a [`Message`]: its role and its text.
pub struct MessageView {
    pub role: Role,
    pub text: Seq<char>,
}

/// One turn in a dialogue: a role and its rendered text.
///
/// The engine never mutates a message after it is created.
#[derive(Debug)]
pub struct Message {
    pub role: Role,
    pub text: String,
}

impl View for Message {
    type V = MessageView;

    open spec fn view(&self) -> MessageView {
        MessageView { role: self.role, text: self.text@ }
    }
}

impl Message {
    /// A message with the given role and text.
    pub fn new(role: Role, text: String) -> (r: Message)
        ensures
            r@ == (MessageView { role, text: text@ }),
    {
        Message { role, text }
    }

    /// An independent copy with the same role and text.
    pub fn duplicate(&self) -> (r: Message)
        ensures
            r@ == self@,
    {
        Message { role: self.role, text: String::from_str(self.text.as_str()) }
    }
}

/// One builder call, as a mathematical value: either rendering a user
/// template against a parameter set, or appending a literal assistant
/// reply.
pub enum BuilderCall {
    UserTemplate(Seq<char>, Seq<(Seq<char>, Seq<char>)>),
    Assistant(Seq<char>),
}

/// The one message a builder call appends, assuming its rendering succeeds.
pub open spec fn spec_call_message(c: BuilderCall) -> MessageView {
    match c {
        BuilderCall::UserTemplate(pat, params) => MessageView {
            role: Role::User,
            text: spec_render(pat, params)->Ok_0,
        },
        BuilderCall::Assistant(t) => MessageView { role: Role::Assistant, text: t },
    }
}

/// Running a whole sequence of builder calls, in order, on the history `h`:
/// what [`Conversation::with_user_template`] and
/// [`Conversation::with_assistant`] yield call by call.
pub open spec fn spec_build(h: Seq<MessageView>, calls: Seq<BuilderCall>) -> Result<
    Seq<MessageView>,
    Seq<char>,
>
    decreases calls.len(),
{
    if calls.len() == 0 {
        Ok(h)
    } else {
        match calls[0] {
            BuilderCall::UserTemplate(pat, params) => match spec_render(pat, params) {
                Ok(t) => spec_build(
                    h + seq![MessageView { role: Role::User, text: t }],
                    calls.drop_first(),
                ),
                Err(n) => Err(n),
            },
            BuilderCall::Assistant(t) => spec_build(
                h + seq![MessageView { role: Role::Assistant, text: t }],
                calls.drop_first(),
            ),
        }
    }
}

/// Law: a successful build of `n` calls on a seed yields the seed followed
/// by exactly `n` messages, one per call, each determined by its call alone
/// and standing in call order — the builder never reorders, drops or
/// duplicates a turn, and reordering calls can only reorder the appended
/// messages, never change their count or content.
pub proof fn lemma_build_exact(h: Seq<MessageView>, calls: Seq<BuilderCall>)
    ensures
        spec_build(h, calls) matches Ok(r) ==> r =~= h + calls.map_values(
            |c: BuilderCall| spec_call_message(c),
        ),
        spec_build(h, calls) matches Ok(r) ==> r.len() == h.len() + calls.len(),
    decreases calls.len(),
{
    let f = |c: BuilderCall| spec_call_message(c);
    if calls.len() == 0 {
        if spec_build(h, calls) matches Ok(r) {
            assert(h + calls.map_values(f) =~= h);
        }
    } else {
        let rest = calls.drop_first();
        let m0 = spec_call_message(calls[0]);
        match calls[0] {
            BuilderCall::UserTemplate(pat, params) => {
                match spec_render(pat, params) {
                    Ok(t) => {
                        lemma_build_exact(h + seq![m0], rest);
                        assert((h + seq![m0]) + rest.map_values(f) =~= h + calls.map_values(f));
                    },
                    Err(_) => {},
                }
            },
            BuilderCall::Assistant(t) => {
                lemma_build_exact(h + seq![m0], rest);
                assert((h + seq![m0]) + rest.map_values(f) =~= h + calls.map_values(f));
            },
        }
    }
}

/// An ordered sequence of messages: the few-shot seed and accumulated
/// history.  Built incrementally; the order of builder calls is the order of
/// the turns, and nothing is ever reordered or dropped.
#[derive(Debug)]
pub struct Conversation {
    messages: Vec<Message>,
}

impl View for Conversation {
    type V = Seq<MessageView>;

    closed spec fn view(&self) -> Seq<MessageView> {
        self.messages@.map_values(|m: Message| m@)
    }
}

impl Conversation {
    /// The empty conversation.
    pub fn new() -> (r: Conversation)
        ensures
            r@ =~= Seq::<MessageView>::empty(),
    {
        Conversation { messages: Vec::new() }
    }

    /// Renders `pattern` with `params` and appends the result as a user
    /// turn.  Fails with exactly the renderer's error, leaving no trace.
    pub fn with_user_template(self, pattern: &str, params: &ParameterSet) -> (r: Result<
        Conversation,
        RenderError,
    >)
        ensures
            match spec_render(pattern@, params@) {
                Ok(t) => r matches Ok(c) && c@ =~= self@ + seq![
                    MessageView { role: Role::User, text: t },
                ],
                Err(n) => r matches Err(RenderError::UndefinedVariable(m)) && m@ == n,
            },
    {
        let ghost old_view = self@;
        match render(pattern, params) {
            Ok(text) => {
                let mut messages = self.messages;
                messages.push(Message { role: Role::User, text });
                proof {
                    assert(messages@.map_values(|m: Message| m@) =~= old_view + seq![
                        messages@.last()@,
                    ]);
                }
                Ok(Conversation { messages })
            },
            Err(e) => Err(e),
        }
    }

    /// Appends `text` verbatim as an assistant turn; seed replies are
    /// literal and never rendered.
    pub fn with_assistant(self, text: String) -> (r: Conversation)
        ensures
            r@ =~= self@ + seq![MessageView { role: Role::Assistant, text: text@ }],
    {
        let ghost old_view = self@;
        let mut messages = self.messages;
        messages.push(Message { role: Role::Assistant, text });
        proof {
            assert(messages@.map_values(|m: Message| m@) =~= old_view + seq![messages@.last()@]);
        }
        Conversation { messages }
    }

    /// Appends an already-built message in place.
    pub fn push_message(&mut self, message: Message)
        ensures
            final(self)@ =~= old(self)@ + seq![message@],
    {
        let ghost old_view = self@;
        self.messages.push(message);
        proof {
            assert(self.messages@.map_values(|m: Message| m@) =~= old_view + seq![
                self.messages@.last()@,
            ]);
        }
    }

    /// How many turns the conversation holds.
    pub fn len(&self) -> (r: usize)
        ensures
            r == self@.len(),
    {
        self.messages.len()
    }

    /// The `i`-th turn, in the order the turns were appended.
    pub fn get(&self, i: usize) -> (r: &Message)
        requires
            i < self@.len(),
        ensures
            r@ == self@[i as int],
    {
        &self.messages[i]
    }

    /// An independent copy of the whole sequence: mutating the copy never
    /// affects the original.
    pub fn snapshot(&self) -> (r: Conversation)
        ensures
            r@ =~= self@,
    {
        let n = self.messages.len();
        let mut messages: Vec<Message> = Vec::new();
        for i in 0..n
            invariant
                n == self.messages.len(),
                messages@.map_values(|m: Message| m@) =~= self@.take(i as int),
        {
            messages.push(self.messages[i].duplicate());
            proof {
                assert(messages@.map_values(|m: Message| m@) =~= self@.take(i as int).push(
                    self@[i as int],
                ));
                assert(self@.take(i as int).push(self@[i as int]) =~= self@.take(i + 1));
            }
        }
        proof {
            assert(self@.take(n as int) =~= self@);
        }
        Conversation { messages }
    }
}

} // verus!
