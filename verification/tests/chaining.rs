use std::cell::RefCell;

use prompt_chain::chain::Chain;
use prompt_chain::chain::ChainError;
use prompt_chain::conversation::Conversation;
use prompt_chain::conversation::Role;
use prompt_chain::executor::Executor;
use prompt_chain::executor::ExecutorError;
use prompt_chain::options::GenerationOptions;
use prompt_chain::output::ConsumeError;
use prompt_chain::params::ParameterSet;
use prompt_chain::step::Step;

/// Replies with the first letter of each word found between the single
/// quotes of the last user message, counting how often it was invoked.
struct FirstLetters {
    calls: RefCell<usize>,
}

impl FirstLetters {
    fn new() -> FirstLetters {
        FirstLetters { calls: RefCell::new(0) }
    }
}

impl Executor for FirstLetters {
    fn execute(
        &self,
        history: &Conversation,
        _options: &GenerationOptions,
    ) -> Result<Vec<String>, ExecutorError> {
        *self.calls.borrow_mut() += 1;
        let n = history.len();
        let text = history.get(n - 1).text.clone();
        let inner: &str = text.split('\'').nth(1).unwrap_or(text.as_str());
        let mut reply = String::new();
        for word in inner.split_whitespace() {
            if let Some(c) = word.chars().next() {
                reply.push(c);
            }
        }
        Ok(vec![reply])
    }
}

/// Replies with a fixed fragment sequence, counting invocations.
struct FixedFragments {
    fragments: Vec<String>,
    calls: RefCell<usize>,
}

impl FixedFragments {
    fn new(fragments: &[&str]) -> FixedFragments {
        FixedFragments {
            fragments: fragments.iter().map(|s| s.to_string()).collect(),
            calls: RefCell::new(0),
        }
    }
}

impl Executor for FixedFragments {
    fn execute(
        &self,
        _history: &Conversation,
        _options: &GenerationOptions,
    ) -> Result<Vec<String>, ExecutorError> {
        *self.calls.borrow_mut() += 1;
        Ok(self.fragments.clone())
    }
}

/// Always reports a backend failure.
struct Unavailable;

impl Executor for Unavailable {
    fn execute(
        &self,
        _history: &Conversation,
        _options: &GenerationOptions,
    ) -> Result<Vec<String>, ExecutorError> {
        Err(ExecutorError { message: "backend unavailable".to_string() })
    }
}

/// Echoes each option as one "name=value" fragment, in order.
struct EchoOptions;

impl Executor for EchoOptions {
    fn execute(
        &self,
        _history: &Conversation,
        options: &GenerationOptions,
    ) -> Result<Vec<String>, ExecutorError> {
        let mut fragments = Vec::new();
        for i in 0..options.len() {
            let entry = options.get(i);
            fragments.push(format!("{}={}", entry.name, entry.value));
        }
        Ok(fragments)
    }
}

fn few_shot_seed() -> Conversation {
    let pattern = "Letters of '{{ full_name }}'?";
    Conversation::new()
        .with_user_template(pattern, &ParameterSet::new().with("full_name", "Saquon Barkley"))
        .unwrap()
        .with_assistant("SB".to_string())
        .with_user_template(pattern, &ParameterSet::new().with("full_name", "Sean Connery"))
        .unwrap()
        .with_assistant("SC".to_string())
}

#[test]
fn few_shot_send_yields_reply_and_appends_user_turn() {
    let seed = few_shot_seed();
    let mut chain = Chain::new_with_message_collection(&seed);
    let executor = FirstLetters::new();
    let step = Step::for_prompt_template(Role::User, "Letters of '{{ full_name }}'?".to_string());
    let mut out = chain
        .send_message(
            step,
            &ParameterSet::new().with("full_name", "Elon Musk"),
            &executor,
            &GenerationOptions::new(),
        )
        .unwrap();
    assert_eq!(out.to_immediate().unwrap(), "EM");
    assert_eq!(chain.history_len(), 5);
    let history = chain.history();
    assert_eq!(history.get(4).role, Role::User);
    assert_eq!(history.get(4).text, "Letters of 'Elon Musk'?");
    assert_eq!(history.get(1).text, "SB");
    assert_eq!(seed.len(), 4);
}

#[test]
fn send_render_failure_leaves_history_untouched() {
    let seed = few_shot_seed();
    let mut chain = Chain::new_with_message_collection(&seed);
    let executor = FirstLetters::new();
    let step = Step::for_prompt_template(Role::User, "Hello {{ name }}".to_string());
    let err = chain
        .send_message(step, &ParameterSet::new(), &executor, &GenerationOptions::new())
        .unwrap_err();
    match err {
        ChainError::UndefinedVariable(name) => assert_eq!(name, "name"),
        ChainError::Executor(_) => panic!("expected a rendering failure"),
    }
    assert_eq!(chain.history_len(), 4);
    assert_eq!(*executor.calls.borrow(), 0);
}

#[test]
fn send_backend_failure_keeps_rendered_user_turn() {
    let mut chain = Chain::new_with_message_collection(&Conversation::new());
    let step = Step::for_prompt_template(Role::User, "ask {{ q }}".to_string());
    let err = chain
        .send_message(
            step,
            &ParameterSet::new().with("q", "something"),
            &Unavailable,
            &GenerationOptions::new(),
        )
        .unwrap_err();
    match err {
        ChainError::Executor(e) => assert_eq!(e.message, "backend unavailable"),
        ChainError::UndefinedVariable(_) => panic!("expected a backend failure"),
    }
    assert_eq!(chain.history_len(), 1);
    assert_eq!(chain.history().get(0).text, "ask something");
}

#[test]
fn stream_concatenation_equals_immediate() {
    let executor = FixedFragments::new(&["He", "llo", ", ", "world"]);
    let params = ParameterSet::new().with("q", "hi");
    let options = GenerationOptions::new();

    let mut chain_a = Chain::new_with_message_collection(&Conversation::new());
    let step_a = Step::for_prompt_template(Role::User, "{{ q }}".to_string());
    let mut immediate = chain_a.send_message(step_a, &params, &executor, &options).unwrap();
    let whole = immediate.to_immediate().unwrap();

    let mut chain_b = Chain::new_with_message_collection(&Conversation::new());
    let step_b = Step::for_prompt_template(Role::User, "{{ q }}".to_string());
    let mut streamed = chain_b.send_message(step_b, &params, &executor, &options).unwrap();
    streamed.as_stream().unwrap();
    let mut collected = String::new();
    while let Some(fragment) = streamed.next_fragment().unwrap() {
        collected.push_str(&fragment);
    }
    assert_eq!(collected, whole);
    assert_eq!(whole, "Hello, world");
}

#[test]
fn empty_fragment_list_yields_empty_string_and_empty_stream() {
    let executor = FixedFragments::new(&[]);
    let mut chain = Chain::new_with_message_collection(&Conversation::new());
    let step = Step::for_prompt_template(Role::User, "q".to_string());
    let mut out = chain
        .send_message(step, &ParameterSet::new(), &executor, &GenerationOptions::new())
        .unwrap();
    assert_eq!(out.to_immediate().unwrap(), "");

    let step = Step::for_prompt_template(Role::User, "q".to_string());
    let mut streamed = chain
        .send_message(step, &ParameterSet::new(), &executor, &GenerationOptions::new())
        .unwrap();
    streamed.as_stream().unwrap();
    assert_eq!(streamed.next_fragment().unwrap(), None);
}

#[test]
fn immediate_twice_is_cached_and_calls_backend_once() {
    let executor = FixedFragments::new(&["one ", "answer"]);
    let mut chain = Chain::new_with_message_collection(&Conversation::new());
    let step = Step::for_prompt_template(Role::User, "q".to_string());
    let mut out = chain
        .send_message(step, &ParameterSet::new(), &executor, &GenerationOptions::new())
        .unwrap();
    let first = out.to_immediate().unwrap();
    let second = out.to_immediate().unwrap();
    assert_eq!(first, "one answer");
    assert_eq!(first, second);
    assert_eq!(*executor.calls.borrow(), 1);
}

#[test]
fn stream_after_immediate_fails() {
    let executor = FixedFragments::new(&["x"]);
    let mut chain = Chain::new_with_message_collection(&Conversation::new());
    let step = Step::for_prompt_template(Role::User, "q".to_string());
    let mut out = chain
        .send_message(step, &ParameterSet::new(), &executor, &GenerationOptions::new())
        .unwrap();
    out.to_immediate().unwrap();
    assert_eq!(out.as_stream().unwrap_err(), ConsumeError::AlreadyConsumedAsImmediate);
    assert_eq!(out.next_fragment().unwrap_err(), ConsumeError::AlreadyConsumedAsImmediate);
}

#[test]
fn immediate_after_stream_fails() {
    let executor = FixedFragments::new(&["x", "y"]);
    let mut chain = Chain::new_with_message_collection(&Conversation::new());
    let step = Step::for_prompt_template(Role::User, "q".to_string());
    let mut out = chain
        .send_message(step, &ParameterSet::new(), &executor, &GenerationOptions::new())
        .unwrap();
    out.as_stream().unwrap();
    assert_eq!(out.to_immediate().unwrap_err(), ConsumeError::AlreadyConsumedAsStream);
    assert_eq!(out.next_fragment().unwrap(), Some("x".to_string()));
}

#[test]
fn exhausted_stream_stays_exhausted() {
    let executor = FixedFragments::new(&["a", "b"]);
    let mut chain = Chain::new_with_message_collection(&Conversation::new());
    let step = Step::for_prompt_template(Role::User, "q".to_string());
    let mut out = chain
        .send_message(step, &ParameterSet::new(), &executor, &GenerationOptions::new())
        .unwrap();
    assert_eq!(out.next_fragment().unwrap(), Some("a".to_string()));
    assert_eq!(out.next_fragment().unwrap(), Some("b".to_string()));
    assert_eq!(out.next_fragment().unwrap(), None);
    assert_eq!(out.next_fragment().unwrap(), None);
    assert_eq!(out.as_stream().unwrap(), ());
    assert_eq!(out.next_fragment().unwrap(), None);
}

#[test]
fn options_pass_through_unmodified_in_order() {
    let options = GenerationOptions::new()
        .with("NThreads", "4")
        .with("MaxContextSize", "512")
        .with("Temperature", "0.8")
        .with("StopSequence", "\n");
    let mut chain = Chain::new_with_message_collection(&Conversation::new());
    let step = Step::for_prompt_template(Role::User, "q".to_string());
    let mut out = chain
        .send_message(step, &ParameterSet::new(), &EchoOptions, &options)
        .unwrap();
    out.as_stream().unwrap();
    assert_eq!(out.next_fragment().unwrap(), Some("NThreads=4".to_string()));
    assert_eq!(out.next_fragment().unwrap(), Some("MaxContextSize=512".to_string()));
    assert_eq!(out.next_fragment().unwrap(), Some("Temperature=0.8".to_string()));
    assert_eq!(out.next_fragment().unwrap(), Some("StopSequence=\n".to_string()));
    assert_eq!(out.next_fragment().unwrap(), None);
}

#[test]
fn step_run_is_zero_shot() {
    let executor = FirstLetters::new();
    let step = Step::for_prompt_template(Role::User, "Letters of '{{ full_name }}'?".to_string());
    let mut out = step
        .run(
            &ParameterSet::new().with("full_name", "Ding Liren"),
            &executor,
            &GenerationOptions::new(),
        )
        .unwrap();
    assert_eq!(out.to_immediate().unwrap(), "DL");
    let missing = step.run(&ParameterSet::new(), &executor, &GenerationOptions::new());
    assert!(matches!(missing, Err(ChainError::UndefinedVariable(_))));
}

#[test]
fn sends_are_serialized_and_context_accumulates() {
    let executor = FirstLetters::new();
    let mut chain = Chain::new_with_message_collection(&few_shot_seed());
    let pattern = "Letters of '{{ full_name }}'?";
    let step1 = Step::for_prompt_template(Role::User, pattern.to_string());
    let mut out1 = chain
        .send_message(
            step1,
            &ParameterSet::new().with("full_name", "Elon Musk"),
            &executor,
            &GenerationOptions::new(),
        )
        .unwrap();
    let reply1 = out1.to_immediate().unwrap();
    chain.append_assistant(reply1.clone());
    assert_eq!(chain.history_len(), 6);
    assert_eq!(chain.history().get(5).role, Role::Assistant);
    assert_eq!(chain.history().get(5).text, "EM");

    let step2 = Step::for_prompt_template(Role::User, pattern.to_string());
    let mut out2 = chain
        .send_message(
            step2,
            &ParameterSet::new().with("full_name", "Julius Ceasar"),
            &executor,
            &GenerationOptions::new(),
        )
        .unwrap();
    assert_eq!(out2.to_immediate().unwrap(), "JC");
    assert_eq!(chain.history_len(), 7);
    assert_eq!(*executor.calls.borrow(), 2);
}
