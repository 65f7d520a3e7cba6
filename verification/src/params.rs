//! Parameter sets: named string values used to fill template placeholders.

use vstd::prelude::*;

verus! {

/// One named value usable to fill a template placeholder.
pub struct Param {
    pub name: String,
    pub value: String,
}

impl View for Param {
    type V = (Seq<char>, Seq<char>);

    open spec fn view(&self) -> (Seq<char>, Seq<char>) {
        (self.name@, self.value@)
    }
}

/// Finds the value bound to `name` in a sequence of (name, value) pairs,
/// scanning front to back, so that an earlier pair shadows a later one.
pub open spec fn spec_lookup(pairs: Seq<(Seq<char>, Seq<char>)>, name: Seq<char>) -> Option<
    Seq<char>,
>
    decreases pairs.len(),
{
    if pairs.len() == 0 {
        None
    } else if pairs[0].0 == name {
        Some(pairs[0].1)
    } else {
        spec_lookup(pairs.drop_first(), name)
    }
}

/// A mapping from template variable names to string values.
///
/// `with` binds a name in front of all earlier bindings, so binding the same
/// name twice makes the newer value win on lookup.
pub struct ParameterSet {
    pairs: Vec<Param>,
}

impl View for ParameterSet {
    type V = Seq<(Seq<char>, Seq<char>)>;

    closed spec fn view(&self) -> Seq<(Seq<char>, Seq<char>)> {
        self.pairs@.map_values(|p: Param| p@)
    }
}

impl ParameterSet {
    /// An empty parameter set: every lookup fails.
    pub fn new() -> (r: ParameterSet)
        ensures
            r@ =~= Seq::<(Seq<char>, Seq<char>)>::empty(),
    {
        ParameterSet { pairs: Vec::new() }
    }

    /// Binds `name` to `value`; the new binding shadows any earlier one.
    pub fn with(self, name: &str, value: &str) -> (r: ParameterSet)
        ensures
            r@ =~= seq![(name@, value@)] + self@,
    {
        let mut pairs = self.pairs;
        pairs.insert(
            0,
            Param { name: String::from_str(name), value: String::from_str(value) },
        );
        ParameterSet { pairs }
    }

    /// Looks `name` up, returning the most recently bound value, if any.
    pub fn get(&self, name: &str) -> (r: Option<&String>)
        ensures
            match spec_lookup(self@, name@) {
                Some(v) => r matches Some(s) && s@ == v,
                None => r is None,
            },
    {
        let n = self.pairs.len();
        proof {
            assert(self@.skip(0) =~= self@);
        }
        for i in 0..n
            invariant
                n == self.pairs.len(),
                spec_lookup(self@, name@) == spec_lookup(self@.skip(i as int), name@),
        {
            proof {
                assert(self@.skip(i as int)[0] == self@[i as int]);
                assert(self@.skip(i as int).drop_first() =~= self@.skip(i + 1));
            }
            if str_eq(self.pairs[i].name.as_str(), name) {
                return Some(&self.pairs[i].value);
            }
        }
        proof {
            assert(self@.skip(n as int).len() == 0);
        }
        None
    }
}

/// Character-by-character string equality, proved against the string views.
pub fn str_eq(a: &str, b: &str) -> (r: bool)
    ensures
        r == (a@ == b@),
{
    let alen = a.unicode_len();
    let blen = b.unicode_len();
    if alen != blen {
        return false;
    }
    for i in 0..alen
        invariant
            alen == a@.len(),
            blen == b@.len(),
            alen == blen,
            forall|k: int| 0 <= k < i ==> a@[k] == b@[k],
    {
        if a.get_char(i) != b.get_char(i) {
            return false;
        }
    }
    proof {
        assert(a@ =~= b@);
    }
    true
}

} // verus!
