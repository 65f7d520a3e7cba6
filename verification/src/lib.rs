//! A conversation/prompt-chaining engine.
//!
//! The library assembles a multi-turn dialogue out of templated prompts and
//! fixed assistant replies, renders `{{ variable }}` placeholders from a
//! parameter set, and drives a pluggable text-generation backend through a
//! narrow `Executor` boundary.  The output of a backend call can be consumed
//! either as one completed string or as an ordered sequence of fragments.

pub mod chain;
pub mod conversation;
pub mod executor;
pub mod options;
pub mod output;
pub mod params;
pub mod render;
pub mod step;
