//! The template renderer: substitutes `{{ name }}` placeholders in a prompt
//! pattern with values from a [`ParameterSet`](crate::params::ParameterSet).
//!
//! A placeholder opens at the first `{{` and closes at the first `}}` that
//! follows it; the text between, trimmed of surrounding whitespace, is the
//! variable name.  Text that does not form a complete placeholder, including
//! a `{{` with no later `}}`, passes through verbatim.  Referencing a name
//! that the parameter set does not bind is an error, never a silent blank.

use vstd::prelude::*;

use crate::params::{spec_lookup, ParameterSet};

verus! {

/// Rendering failed; the payload names the offending template variable.
#[derive(Debug)]
pub enum RenderError {
    /// The template references a variable the parameter set does not bind.
    UndefinedVariable(String),
}

/// The characters stripped from both ends of a placeholder name.
pub open spec fn spec_is_ws(c: char) -> bool {
    c == ' ' || c == '\t' || c == '\n' || c == '\r'
}

fn is_ws(c: char) -> (r: bool)
    ensures
        r == spec_is_ws(c),
{
    c == ' ' || c == '\t' || c == '\n' || c == '\r'
}

/// `s` without its leading whitespace.
pub open spec fn trim_front(s: Seq<char>) -> Seq<char>
    decreases s.len(),
{
    if s.len() > 0 && spec_is_ws(s[0]) {
        trim_front(s.drop_first())
    } else {
        s
    }
}

/// `s` without its trailing whitespace.
pub open spec fn trim_back(s: Seq<char>) -> Seq<char>
    decreases s.len(),
{
    if s.len() > 0 && spec_is_ws(s.last()) {
        trim_back(s.drop_last())
    } else {
        s
    }
}

/// `s` without surrounding whitespace.
pub open spec fn spec_trim(s: Seq<char>) -> Seq<char> {
    trim_back(trim_front(s))
}

/// The position of the first `}}` at or after `from`, if any.
pub open spec fn first_close(p: Seq<char>, from: int) -> Option<int>
    decreases p.len() - from,
{
    if from < 0 || from + 1 >= p.len() {
        None
    } else if p[from] == '}' && p[from + 1] == '}' {
        Some(from)
    } else {
        first_close(p, from + 1)
    }
}

/// Where `first_close` finds a delimiter, it lies at or after `from` and
/// fully inside `p`.
pub proof fn lemma_first_close(p: Seq<char>, from: int)
    requires
        0 <= from,
    ensures
        match first_close(p, from) {
            Some(j) => from <= j && j + 1 < p.len() && p[j] == '}' && p[j + 1] == '}',
            None => true,
        },
    decreases p.len() - from,
{
    if from + 1 >= p.len() {
    } else if p[from] == '}' && p[from + 1] == '}' {
    } else {
        lemma_first_close(p, from + 1);
    }
}

/// What rendering `p` from position `pos` with bindings `params` yields:
/// the rendered text, or the name of the first undefined variable.
pub open spec fn spec_render_from(
    p: Seq<char>,
    pos: int,
    params: Seq<(Seq<char>, Seq<char>)>,
) -> Result<Seq<char>, Seq<char>>
    decreases p.len() - pos,
    via spec_render_from_decreases
{
    if pos < 0 || pos >= p.len() {
        Ok(Seq::<char>::empty())
    } else if pos + 1 < p.len() && p[pos] == '{' && p[pos + 1] == '{' {
        match first_close(p, pos + 2) {
            Some(j) => {
                let name = spec_trim(p.subrange(pos + 2, j));
                match spec_lookup(params, name) {
                    Some(v) => match spec_render_from(p, j + 2, params) {
                        Ok(rest) => Ok(v + rest),
                        Err(e) => Err(e),
                    },
                    None => Err(name),
                }
            },
            None => Ok(p.subrange(pos, p.len() as int)),
        }
    } else {
        match spec_render_from(p, pos + 1, params) {
            Ok(rest) => Ok(seq![p[pos]] + rest),
            Err(e) => Err(e),
        }
    }
}

#[via_fn]
proof fn spec_render_from_decreases(p: Seq<char>, pos: int, params: Seq<(Seq<char>, Seq<char>)>) {
    if 0 <= pos && pos + 1 < p.len() && p[pos] == '{' && p[pos + 1] == '{' {
        lemma_first_close(p, pos + 2);
    }
}

/// What rendering the whole of `p` with bindings `params` yields.
pub open spec fn spec_render(p: Seq<char>, params: Seq<(Seq<char>, Seq<char>)>) -> Result<
    Seq<char>,
    Seq<char>,
> {
    spec_render_from(p, 0, params)
}

/// Does `p`, read from `pos`, reference variable `name` in some complete
/// placeholder?
pub open spec fn references_from(p: Seq<char>, pos: int, name: Seq<char>) -> bool
    decreases p.len() - pos,
    via references_from_decreases
{
    if pos < 0 || pos >= p.len() {
        false
    } else if pos + 1 < p.len() && p[pos] == '{' && p[pos + 1] == '{' {
        match first_close(p, pos + 2) {
            Some(j) => spec_trim(p.subrange(pos + 2, j)) == name || references_from(
                p,
                j + 2,
                name,
            ),
            None => false,
        }
    } else {
        references_from(p, pos + 1, name)
    }
}

#[via_fn]
proof fn references_from_decreases(p: Seq<char>, pos: int, name: Seq<char>) {
    if 0 <= pos && pos + 1 < p.len() && p[pos] == '{' && p[pos + 1] == '{' {
        lemma_first_close(p, pos + 2);
    }
}

/// Does template `p` reference variable `name` in some complete placeholder?
pub open spec fn references(p: Seq<char>, name: Seq<char>) -> bool {
    references_from(p, 0, name)
}

proof fn lemma_render_ok_from(p: Seq<char>, pos: int, params: Seq<(Seq<char>, Seq<char>)>)
    requires
        forall|name: Seq<char>|
            #[trigger] references_from(p, pos, name) ==> spec_lookup(params, name) is Some,
    ensures
        spec_render_from(p, pos, params) is Ok,
    decreases p.len() - pos,
{
    if pos < 0 || pos >= p.len() {
    } else if pos + 1 < p.len() && p[pos] == '{' && p[pos + 1] == '{' {
        lemma_first_close(p, pos + 2);
        match first_close(p, pos + 2) {
            Some(j) => {
                let name = spec_trim(p.subrange(pos + 2, j));
                assert(references_from(p, pos, name));
                assert forall|n2: Seq<char>| #[trigger] references_from(p, j + 2, n2) implies
                    spec_lookup(params, n2) is Some by {
                    assert(references_from(p, pos, n2));
                }
                lemma_render_ok_from(p, j + 2, params);
            },
            None => {},
        }
    } else {
        assert forall|n2: Seq<char>| #[trigger] references_from(p, pos + 1, n2) implies
            spec_lookup(params, n2) is Some by {
            assert(references_from(p, pos, n2));
        }
        lemma_render_ok_from(p, pos + 1, params);
    }
}

proof fn lemma_render_err_from(p: Seq<char>, pos: int, params: Seq<(Seq<char>, Seq<char>)>)
    ensures
        spec_render_from(p, pos, params) matches Err(n) ==> references_from(p, pos, n)
            && spec_lookup(params, n) is None,
    decreases p.len() - pos,
{
    if pos < 0 || pos >= p.len() {
    } else if pos + 1 < p.len() && p[pos] == '{' && p[pos + 1] == '{' {
        lemma_first_close(p, pos + 2);
        match first_close(p, pos + 2) {
            Some(j) => {
                lemma_render_err_from(p, j + 2, params);
            },
            None => {},
        }
    } else {
        lemma_render_err_from(p, pos + 1, params);
    }
}

proof fn lemma_render_ok_defined_from(p: Seq<char>, pos: int, params: Seq<(Seq<char>, Seq<char>)>)
    requires
        spec_render_from(p, pos, params) is Ok,
    ensures
        forall|name: Seq<char>|
            #[trigger] references_from(p, pos, name) ==> spec_lookup(params, name) is Some,
    decreases p.len() - pos,
{
    if pos < 0 || pos >= p.len() {
    } else if pos + 1 < p.len() && p[pos] == '{' && p[pos + 1] == '{' {
        lemma_first_close(p, pos + 2);
        match first_close(p, pos + 2) {
            Some(j) => {
                lemma_render_ok_defined_from(p, j + 2, params);
                assert forall|name: Seq<char>| #[trigger] references_from(p, pos, name) implies
                    spec_lookup(params, name) is Some by {
                    if name != spec_trim(p.subrange(pos + 2, j)) {
                        assert(references_from(p, j + 2, name));
                    }
                }
            },
            None => {},
        }
    } else {
        lemma_render_ok_defined_from(p, pos + 1, params);
        assert forall|name: Seq<char>| #[trigger] references_from(p, pos, name) implies
            spec_lookup(params, name) is Some by {
            assert(references_from(p, pos + 1, name));
        }
    }
}

/// Law: a template whose referenced variables are all bound renders
/// successfully — every complete placeholder is substituted and no error
/// is raised.  Rendering is a pure function of the template and the
/// bindings, so repeated calls yield identical output.
pub proof fn lemma_render_total(p: Seq<char>, params: Seq<(Seq<char>, Seq<char>)>)
    requires
        forall|name: Seq<char>|
            #[trigger] references(p, name) ==> spec_lookup(params, name) is Some,
    ensures
        spec_render(p, params) is Ok,
{
    assert forall|name: Seq<char>| #[trigger] references_from(p, 0, name) implies spec_lookup(
        params,
        name,
    ) is Some by {
        assert(references(p, name));
    }
    lemma_render_ok_from(p, 0, params);
}

/// Law: rendering fails exactly when the template references a variable the
/// parameter set does not bind, and the error names such a variable.
pub proof fn lemma_render_undefined(p: Seq<char>, params: Seq<(Seq<char>, Seq<char>)>)
    ensures
        spec_render(p, params) is Err <==> exists|name: Seq<char>|
            #[trigger] references(p, name) && spec_lookup(params, name) is None,
        spec_render(p, params) matches Err(n) ==> references(p, n) && spec_lookup(
            params,
            n,
        ) is None,
{
    lemma_render_err_from(p, 0, params);
    if spec_render(p, params) is Err {
        let n = spec_render(p, params)->Err_0;
        assert(references(p, n) && spec_lookup(params, n) is None);
    }
    if spec_render(p, params) is Ok {
        lemma_render_ok_defined_from(p, 0, params);
    }
}

/// No `{` anywhere in `s`, so in particular no placeholder opener.
pub open spec fn brace_free(s: Seq<char>) -> bool {
    forall|i: int| 0 <= i < s.len() ==> s[i] != '{'
}

/// No bound value contains `{`.
pub open spec fn values_brace_free(params: Seq<(Seq<char>, Seq<char>)>) -> bool {
    forall|k: int| 0 <= k < params.len() ==> brace_free(#[trigger] params[k].1)
}

/// Scanned as the renderer scans from `pos`: every literal character is
/// something other than `{`, and every `{{` has a closing `}}`.
pub open spec fn delimiters_clean_from(p: Seq<char>, pos: int) -> bool
    decreases p.len() - pos,
    via delimiters_clean_from_decreases
{
    if pos < 0 || pos >= p.len() {
        true
    } else if pos + 1 < p.len() && p[pos] == '{' && p[pos + 1] == '{' {
        match first_close(p, pos + 2) {
            Some(j) => delimiters_clean_from(p, j + 2),
            None => false,
        }
    } else {
        p[pos] != '{' && delimiters_clean_from(p, pos + 1)
    }
}

#[via_fn]
proof fn delimiters_clean_from_decreases(p: Seq<char>, pos: int) {
    if 0 <= pos && pos + 1 < p.len() && p[pos] == '{' && p[pos + 1] == '{' {
        lemma_first_close(p, pos + 2);
    }
}

proof fn lemma_lookup_brace_free(params: Seq<(Seq<char>, Seq<char>)>, name: Seq<char>)
    requires
        values_brace_free(params),
    ensures
        spec_lookup(params, name) matches Some(v) ==> brace_free(v),
    decreases params.len(),
{
    if params.len() > 0 && params[0].0 != name {
        let df = params.drop_first();
        assert forall|k: int| 0 <= k < df.len() implies brace_free(#[trigger] df[k].1) by {
            assert(df[k] == params[k + 1]);
        }
        lemma_lookup_brace_free(df, name);
    }
}

proof fn lemma_brace_free_concat(a: Seq<char>, b: Seq<char>)
    requires
        brace_free(a),
        brace_free(b),
    ensures
        brace_free(a + b),
{
    assert forall|i: int| 0 <= i < (a + b).len() implies (a + b)[i] != '{' by {
        if i < a.len() {
            assert(a[i] != '{');
        } else {
            assert(b[i - a.len()] != '{');
        }
    }
}

proof fn lemma_render_brace_free_from(p: Seq<char>, pos: int, params: Seq<(Seq<char>, Seq<char>)>)
    requires
        0 <= pos,
        delimiters_clean_from(p, pos),
        values_brace_free(params),
    ensures
        spec_render_from(p, pos, params) matches Ok(r) ==> brace_free(r),
    decreases p.len() - pos,
{
    if pos >= p.len() {
    } else if pos + 1 < p.len() && p[pos] == '{' && p[pos + 1] == '{' {
        lemma_first_close(p, pos + 2);
        match first_close(p, pos + 2) {
            Some(j) => {
                let name = spec_trim(p.subrange(pos + 2, j));
                lemma_lookup_brace_free(params, name);
                lemma_render_brace_free_from(p, j + 2, params);
                match spec_lookup(params, name) {
                    Some(v) => {
                        match spec_render_from(p, j + 2, params) {
                            Ok(rest) => {
                                lemma_brace_free_concat(v, rest);
                            },
                            Err(_) => {},
                        }
                    },
                    None => {},
                }
            },
            None => {},
        }
    } else {
        lemma_render_brace_free_from(p, pos + 1, params);
        match spec_render_from(p, pos + 1, params) {
            Ok(rest) => {
                lemma_brace_free_concat(seq![p[pos]], rest);
            },
            Err(_) => {},
        }
    }
}

/// Law: when `{` occurs in the template only as the opener of a closed
/// placeholder, and no bound value contains `{`, a successful rendering
/// contains no `{` at all — in particular, no unsubstituted placeholder is
/// left in the output.  (Without these provisos the claim fails: a `{{`
/// with no later `}}` passes through verbatim by design, and a bound value
/// may itself contain placeholder syntax.)
pub proof fn lemma_render_no_placeholders(p: Seq<char>, params: Seq<(Seq<char>, Seq<char>)>)
    requires
        delimiters_clean_from(p, 0),
        values_brace_free(params),
    ensures
        spec_render(p, params) matches Ok(r) ==> brace_free(r),
{
    lemma_render_brace_free_from(p, 0, params);
}

/// `rest` with `prefix` prepended to its rendered text, errors unchanged.
pub open spec fn with_prefix(prefix: Seq<char>, rest: Result<Seq<char>, Seq<char>>) -> Result<
    Seq<char>,
    Seq<char>,
> {
    match rest {
        Ok(r) => Ok(prefix + r),
        Err(e) => Err(e),
    }
}

/// The position of the first `}}` at or after `from`, as executable code.
fn find_close(pattern: &str, from: usize, n: usize) -> (r: Option<usize>)
    requires
        n == pattern@.len(),
        from <= n,
    ensures
        match first_close(pattern@, from as int) {
            Some(j) => r matches Some(jj) && jj == j,
            None => r is None,
        },
{
    let mut j = from;
    while n - j > 1
        invariant
            n == pattern@.len(),
            from <= j <= n,
            first_close(pattern@, from as int) == first_close(pattern@, j as int),
        decreases n - j,
    {
        if pattern.get_char(j) == '}' && pattern.get_char(j + 1) == '}' {
            return Some(j);
        }
        j = j + 1;
    }
    None
}

/// `s` with surrounding whitespace removed, as executable code.
pub fn trim_str<'a>(s: &'a str) -> (r: &'a str)
    ensures
        r@ == spec_trim(s@),
{
    let n = s.unicode_len();
    let mut a: usize = 0;
    proof {
        assert(s@.skip(0) =~= s@);
    }
    while a < n && is_ws(s.get_char(a))
        invariant
            n == s@.len(),
            a <= n,
            trim_front(s@) == trim_front(s@.skip(a as int)),
        decreases n - a,
    {
        proof {
            assert(s@.skip(a as int)[0] == s@[a as int]);
            assert(s@.skip(a as int).drop_first() =~= s@.skip(a + 1));
        }
        a = a + 1;
    }
    proof {
        if a == n {
            assert(s@.skip(a as int).len() == 0);
        }
        assert(trim_front(s@) == s@.skip(a as int));
        assert(s@.subrange(a as int, n as int) =~= s@.skip(a as int));
    }
    let mut b: usize = n;
    while b > a && is_ws(s.get_char(b - 1))
        invariant
            n == s@.len(),
            a <= b <= n,
            trim_front(s@) == s@.skip(a as int),
            trim_back(s@.skip(a as int)) == trim_back(s@.subrange(a as int, b as int)),
        decreases b,
    {
        proof {
            assert(s@.subrange(a as int, b as int).last() == s@[b - 1]);
            assert(s@.subrange(a as int, b as int).drop_last() =~= s@.subrange(a as int, b - 1));
        }
        b = b - 1;
    }
    proof {
        if b == a {
            assert(s@.subrange(a as int, b as int).len() == 0);
        }
        assert(spec_trim(s@) == s@.subrange(a as int, b as int));
    }
    s.substring_char(a, b)
}

/// Substitutes every complete `{{ name }}` placeholder in `pattern` with the
/// value bound to `name` in `params`.
///
/// Returns exactly what [`spec_render`] says: the fully substituted text, or
/// `UndefinedVariable` naming the first referenced variable that `params`
/// does not bind.  Rendering is pure: the same inputs always yield the same
/// output.
pub fn render(pattern: &str, params: &ParameterSet) -> (r: Result<String, RenderError>)
    ensures
        match spec_render(pattern@, params@) {
            Ok(t) => r matches Ok(s) && s@ == t,
            Err(n) => r matches Err(RenderError::UndefinedVariable(m)) && m@ == n,
        },
{
    let n = pattern.unicode_len();
    let mut out = String::new();
    let mut pos: usize = 0;
    loop
        invariant
            n == pattern@.len(),
            pos <= n,
            spec_render(pattern@, params@) == with_prefix(
                out@,
                spec_render_from(pattern@, pos as int, params@),
            ),
        decreases n - pos,
    {
        let ghost p = pattern@;
        let ghost pm = params@;
        if pos >= n {
            proof {
                assert(out@ + Seq::<char>::empty() =~= out@);
            }
            return Ok(out);
        }
        if pos + 1 < n && pattern.get_char(pos) == '{' && pattern.get_char(pos + 1) == '{' {
            match find_close(pattern, pos + 2, n) {
                Some(j) => {
                    proof {
                        lemma_first_close(p, pos + 2);
                    }
                    let name = trim_str(pattern.substring_char(pos + 2, j));
                    match params.get(name) {
                        Some(v) => {
                            let ghost old_out = out@;
                            out.append(v.as_str());
                            pos = j + 2;
                            proof {
                                match spec_render_from(p, j + 2, pm) {
                                    Ok(rest) => {
                                        assert(old_out + (v@ + rest) =~= out@ + rest);
                                    },
                                    Err(_) => {},
                                }
                            }
                        },
                        None => {
                            return Err(RenderError::UndefinedVariable(String::from_str(name)));
                        },
                    }
                },
                None => {
                    let ghost old_out = out@;
                    out.append(pattern.substring_char(pos, n));
                    proof {
                        assert(old_out + p.subrange(pos as int, n as int) =~= out@);
                    }
                    return Ok(out);
                },
            }
        } else {
            let ghost old_out = out@;
            out.append(pattern.substring_char(pos, pos + 1));
            proof {
                assert(p.subrange(pos as int, pos + 1) =~= seq![p[pos as int]]);
                match spec_render_from(p, pos + 1, pm) {
                    Ok(rest) => {
                        assert(old_out + (seq![p[pos as int]] + rest) =~= out@ + rest);
                    },
                    Err(_) => {},
                }
            }
            pos = pos + 1;
        }
    }
}

} // verus!
