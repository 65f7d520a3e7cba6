//! Generation options: an opaque configuration bag for the backend.
//!
//! The engine does not interpret any entry; the bag is handed to the
//! executor exactly as the caller built it.  Which names are recognized
//! (thread count, context size, sampling controls, stop sequences, and the
//! like) is backend-defined.

use vstd::prelude::*;

verus! {

/// One backend option: a name and its value, both plain text.
pub struct OptionEntry {
    pub name: String,
    pub value: String,
}

impl View for OptionEntry {
    type V = (Seq<char>, Seq<char>);

    open spec fn view(&self) -> (Seq<char>, Seq<char>) {
        (self.name@, self.value@)
    }
}

/// The ordered bag of backend options, passed through unmodified.
pub struct GenerationOptions {
    entries: Vec<OptionEntry>,
}

impl View for GenerationOptions {
    type V = Seq<(Seq<char>, Seq<char>)>;

    closed spec fn view(&self) -> Seq<(Seq<char>, Seq<char>)> {
        self.entries@.map_values(|e: OptionEntry| e@)
    }
}

impl GenerationOptions {
    /// An empty bag.
    pub fn new() -> (r: GenerationOptions)
        ensures
            r@ =~= Seq::<(Seq<char>, Seq<char>)>::empty(),
    {
        GenerationOptions { entries: Vec::new() }
    }

    /// Appends one option; existing entries are untouched.
    pub fn with(self, name: &str, value: &str) -> (r: GenerationOptions)
        ensures
            r@ =~= self@ + seq![(name@, value@)],
    {
        let ghost old_view = self@;
        let mut entries = self.entries;
        entries.push(
            OptionEntry { name: String::from_str(name), value: String::from_str(value) },
        );
        proof {
            assert(entries@.map_values(|e: OptionEntry| e@) =~= old_view + seq![
                entries@.last()@,
            ]);
        }
        GenerationOptions { entries }
    }

    /// How many options the bag holds.
    pub fn len(&self) -> (r: usize)
        ensures
            r == self@.len(),
    {
        self.entries.len()
    }

    /// The `i`-th option, in the order the options were added.
    pub fn get(&self, i: usize) -> (r: &OptionEntry)
        requires
            i < self@.len(),
        ensures
            r@ == self@[i as int],
    {
        &self.entries[i]
    }
}

} // verus!
