//! Templates: the marker forms of this tool, then handlebars.
use vstd::prelude::*;
use crate::text::{chars_of, occurs_at, string_of};
use crate::vars::{lookup, VarMap};

verus! {

/// The marker forms resolved before handlebars sees the text.
#[derive(Debug, Clone, Copy, PartialEq, Eq, Structural)]
pub enum Marker {
    /// `{{env.NAME}}`: the variable `env.NAME`, or nothing.
    Env,
    /// `{{name:default}}`: the variable where bound, else the default text.
    Default,
    /// `{{name?}}`: the variable where bound, else nothing.
    Optional,
}

pub open spec fn is_word_char(c: char) -> bool {
    ('a' <= c && c <= 'z') || ('A' <= c && c <= 'Z') || ('0' <= c && c <= '9') || c == '_'
}

/// The end of the run of word characters that starts at `i`.
pub open spec fn word_end(s: Seq<char>, i: int) -> int
    decreases s.len() - i,
{
    if 0 <= i < s.len() && is_word_char(s[i]) {
        word_end(s, i + 1)
    } else {
        i
    }
}

/// The first `}` at or after `i`, or the length of `s`.
pub open spec fn brace_at_or_after(s: Seq<char>, i: int) -> int
    decreases s.len() - i,
{
    if 0 <= i < s.len() && s[i] != '}' {
        brace_at_or_after(s, i + 1)
    } else {
        i
    }
}

pub open spec fn double_at(s: Seq<char>, i: int, c: char) -> bool {
    0 <= i && i + 1 < s.len() && s[i] == c && s[i + 1] == c
}

/// A variable reference handed on to handlebars.
pub open spec fn reference(name: Seq<char>) -> Seq<char> {
    seq!['{', '{'] + name + seq!['}', '}']
}

/// The marker of form `form` at position `i` of `s`, if one starts there:
/// the position after it and what replaces it.
pub open spec fn marker_at(s: Seq<char>, i: int, form: Marker, vars: Seq<(Seq<char>, Seq<char>)>) -> Option<(int, Seq<char>)> {
    if !double_at(s, i, '{') {
        None
    } else {
        match form {
            Marker::Env => {
                let j = word_end(s, i + 6);
                if occurs_at(s, "env."@, i + 2) && j > i + 6 && double_at(s, j, '}') {
                    Some(
                        (
                            j + 2,
                            match lookup(vars, s.subrange(i + 2, j)) {
                                Some(v) => v,
                                None => Seq::empty(),
                            },
                        ),
                    )
                } else {
                    None
                }
            },
            Marker::Default => {
                let j = word_end(s, i + 2);
                let k = brace_at_or_after(s, j + 1);
                if j > i + 2 && j < s.len() && s[j] == ':' && double_at(s, k, '}') {
                    let name = s.subrange(i + 2, j);
                    Some(
                        (
                            k + 2,
                            if lookup(vars, name) is Some {
                                reference(name)
                            } else {
                                s.subrange(j + 1, k)
                            },
                        ),
                    )
                } else {
                    None
                }
            },
            Marker::Optional => {
                let j = word_end(s, i + 2);
                if j > i + 2 && j < s.len() && s[j] == '?' && double_at(s, j + 1, '}') {
                    let name = s.subrange(i + 2, j);
                    Some(
                        (
                            j + 3,
                            if lookup(vars, name) is Some {
                                reference(name)
                            } else {
                                Seq::empty()
                            },
                        ),
                    )
                } else {
                    None
                }
            },
        }
    }
}

/// `s` from `i` on, with each marker of form `form` replaced, scanning left
/// to right and resuming after each replaced marker.
pub open spec fn rewrite(s: Seq<char>, vars: Seq<(Seq<char>, Seq<char>)>, form: Marker, i: int) -> Seq<char>
    decreases s.len() - i,
{
    if i < 0 || i >= s.len() {
        Seq::empty()
    } else {
        match marker_at(s, i, form, vars) {
            Some((end, rep)) => if i < end <= s.len() {
                rep + rewrite(s, vars, form, end)
            } else {
                Seq::empty()
            },
            None => seq![s[i]] + rewrite(s, vars, form, i + 1),
        }
    }
}

/// The text handlebars is given: environment markers resolved first, then
/// markers with a default, then optional markers.
pub open spec fn preprocess_spec(s: Seq<char>, vars: Seq<(Seq<char>, Seq<char>)>) -> Seq<char> {
    let a = rewrite(s, vars, Marker::Env, 0);
    let b = rewrite(a, vars, Marker::Default, 0);
    rewrite(b, vars, Marker::Optional, 0)
}

proof fn lemma_word_end(s: Seq<char>, i: int)
    ensures
        word_end(s, i) >= i,
        i <= s.len() ==> word_end(s, i) <= s.len(),
    decreases s.len() - i,
{
    if 0 <= i < s.len() && is_word_char(s[i]) {
        lemma_word_end(s, i + 1);
    }
}

proof fn lemma_brace(s: Seq<char>, i: int)
    ensures
        brace_at_or_after(s, i) >= i,
        i <= s.len() ==> brace_at_or_after(s, i) <= s.len(),
    decreases s.len() - i,
{
    if 0 <= i < s.len() && s[i] != '}' {
        lemma_brace(s, i + 1);
    }
}

fn is_word(c: char) -> (r: bool)
    ensures
        r == is_word_char(c),
{
    ('a' <= c && c <= 'z') || ('A' <= c && c <= 'Z') || ('0' <= c && c <= '9') || c == '_'
}

fn word_end_exec(v: &Vec<char>, i: usize) -> (r: usize)
    requires
        i <= v.len(),
    ensures
        r as int == word_end(v@, i as int),
        i <= r <= v.len(),
{
    let mut j: usize = i;
    while j < v.len() && is_word(v[j])
        invariant
            i <= j <= v.len(),
            word_end(v@, i as int) == word_end(v@, j as int),
        decreases v.len() - j,
    {
        j = j + 1;
    }
    j
}

fn brace_exec(v: &Vec<char>, i: usize) -> (r: usize)
    requires
        i <= v.len(),
    ensures
        r as int == brace_at_or_after(v@, i as int),
        i <= r <= v.len(),
{
    let mut j: usize = i;
    while j < v.len() && v[j] != '}'
        invariant
            i <= j <= v.len(),
            brace_at_or_after(v@, i as int) == brace_at_or_after(v@, j as int),
        decreases v.len() - j,
    {
        j = j + 1;
    }
    j
}

fn double_exec(v: &Vec<char>, i: usize, c: char) -> (r: bool)
    ensures
        r == double_at(v@, i as int, c),
{
    i < v.len() && v.len() - i > 1 && v[i] == c && v[i + 1] == c
}

fn chars_between(v: &Vec<char>, from: usize, to: usize) -> (r: Vec<char>)
    requires
        from <= to <= v.len(),
    ensures
        r@ == v@.subrange(from as int, to as int),
{
    let mut out: Vec<char> = Vec::new();
    let mut i: usize = from;
    while i < to
        invariant
            from <= i <= to <= v.len(),
            out@ == v@.subrange(from as int, i as int),
        decreases to - i,
    {
        out.push(v[i]);
        assert(v@.subrange(from as int, i + 1) == v@.subrange(from as int, i as int).push(v@[i as int]));
        i = i + 1;
    }
    out
}

fn append(out: &mut Vec<char>, w: &Vec<char>)
    ensures
        final(out)@ == old(out)@ + w@,
{
    let ghost start = out@;
    let mut i: usize = 0;
    while i < w.len()
        invariant
            0 <= i <= w.len(),
            out@ == start + w@.subrange(0, i as int),
        decreases w.len() - i,
    {
        out.push(w[i]);
        assert(w@.subrange(0, i + 1) == w@.subrange(0, i as int).push(w@[i as int]));
        i = i + 1;
    }
    assert(w@.subrange(0, w.len() as int) =~= w@);
}

fn reference_exec(name: &Vec<char>) -> (r: Vec<char>)
    ensures
        r@ == reference(name@),
{
    let mut out: Vec<char> = vec!['{', '{'];
    append(&mut out, name);
    out.push('}');
    out.push('}');
    assert(out@ =~= reference(name@));
    out
}

fn marker_exec(v: &Vec<char>, i: usize, form: Marker, vars: &VarMap) -> (r: Option<(usize, Vec<char>)>)
    requires
        i < v.len(),
    ensures
        match r {
            Some((end, rep)) => marker_at(v@, i as int, form, vars@) == Some((end as int, rep@)) && i < end
                <= v.len(),
            None => marker_at(v@, i as int, form, vars@) is None,
        },
{
    if !double_exec(v, i, '{') {
        return None;
    }
    match form {
        Marker::Env => {
            let env_prefix = chars_of("env.");
            proof {
                reveal_strlit("env.");
            }
            if !crate::text::matches_at(v, &env_prefix, i + 2) {
                return None;
            }
            let j = word_end_exec(v, i + 6);
            if j > i + 6 && double_exec(v, j, '}') {
                let name = string_of(&chars_between(v, i + 2, j));
                let rep = match vars.get(name.as_str()) {
                    Some(val) => chars_of(val.as_str()),
                    None => Vec::new(),
                };
                assert(rep@ == (match lookup(vars@, v@.subrange(i + 2, j as int)) {
                    Some(x) => x,
                    None => Seq::<char>::empty(),
                }));
                Some((j + 2, rep))
            } else {
                None
            }
        },
        Marker::Default => {
            let j = word_end_exec(v, i + 2);
            if j > i + 2 && j < v.len() && v[j] == ':' {
                let k = brace_exec(v, j + 1);
                if double_exec(v, k, '}') {
                    let name_chars = chars_between(v, i + 2, j);
                    let name = string_of(&name_chars);
                    let rep = if vars.contains_key(name.as_str()) {
                        reference_exec(&name_chars)
                    } else {
                        chars_between(v, j + 1, k)
                    };
                    Some((k + 2, rep))
                } else {
                    None
                }
            } else {
                None
            }
        },
        Marker::Optional => {
            let j = word_end_exec(v, i + 2);
            if j > i + 2 && j < v.len() && v[j] == '?' && double_exec(v, j + 1, '}') {
                let name_chars = chars_between(v, i + 2, j);
                let name = string_of(&name_chars);
                let rep = if vars.contains_key(name.as_str()) {
                    reference_exec(&name_chars)
                } else {
                    Vec::new()
                };
                Some((j + 3, rep))
            } else {
                None
            }
        },
    }
}

fn rewrite_exec(v: &Vec<char>, vars: &VarMap, form: Marker) -> (r: Vec<char>)
    ensures
        r@ == rewrite(v@, vars@, form, 0),
{
    let mut out: Vec<char> = Vec::new();
    let mut i: usize = 0;
    while i < v.len()
        invariant
            0 <= i <= v.len(),
            out@ + rewrite(v@, vars@, form, i as int) == rewrite(v@, vars@, form, 0),
        decreases v.len() - i,
    {
        let ghost before = out@;
        match marker_exec(v, i, form, vars) {
            Some((end, rep)) => {
                append(&mut out, &rep);
                assert(before + rewrite(v@, vars@, form, i as int) == out@ + rewrite(v@, vars@, form, end as int));
                i = end;
            },
            None => {
                out.push(v[i]);
                assert(before + rewrite(v@, vars@, form, i as int) =~= out@ + rewrite(v@, vars@, form, i + 1));
                i = i + 1;
            },
        }
    }
    assert(out@ + rewrite(v@, vars@, form, i as int) =~= out@);
    out
}

/// Resolves this tool's own markers in `template` (see `preprocess_spec`).
pub fn preprocess_template(template: &str, vars: &VarMap) -> (r: String)
    ensures
        r@ == preprocess_spec(template@, vars@),
{
    let v = chars_of(template);
    let a = rewrite_exec(&v, vars, Marker::Env);
    let b = rewrite_exec(&a, vars, Marker::Default);
    let c = rewrite_exec(&b, vars, Marker::Optional);
    string_of(&c)
}

/// What handlebars renders from `text` with the variables `vars`, on a
/// registry in strict mode with no escaping; `None` where it fails.
pub uninterp spec fn handlebars_output(text: Seq<char>, vars: Seq<(Seq<char>, Seq<char>)>) -> Option<Seq<char>>;

/// Relies on handlebars::Handlebars::render_template, on a registry built by
/// Handlebars::new with set_strict_mode(true) and handlebars::no_escape as
/// its escape function: the rendering of `text` against `vars`, or its
/// error message.
#[verifier::external_body]
fn render_with_handlebars(text: &str, vars: &VarMap) -> (r: Result<String, String>)
    ensures
        match r {
            Ok(s) => handlebars_output(text@, vars@) == Some(s@),
            Err(_) => handlebars_output(text@, vars@) is None,
        },
{
    let mut registry = handlebars::Handlebars::new();
    registry.set_strict_mode(true);
    registry.register_escape_fn(handlebars::no_escape);
    let data: std::collections::HashMap<&str, &str> =
        (0..vars.len()).map(|i| vars.entry_at(i)).map(|(k, v)| (k.as_str(), v.as_str())).collect();
    registry.render_template(text, &data).map_err(|e| e.to_string())
}

/// Renders templates.
#[derive(Debug)]
pub struct TemplateEngine {}

/// Whether a required reference `{{name}}` to a variable that `vars` does
/// not bind starts at `i`. A reference escaped by a preceding backslash and the
/// handlebars words `else` and `this` are not variables.
pub open spec fn unbound_reference_at(s: Seq<char>, i: int, vars: Seq<(Seq<char>, Seq<char>)>) -> bool {
    let j = word_end(s, i + 2);
    &&& double_at(s, i, '{')
    &&& (i == 0 || s[i - 1] != '\\')
    &&& j > i + 2
    &&& double_at(s, j, '}')
    &&& s.subrange(i + 2, j) != "else"@
    &&& s.subrange(i + 2, j) != "this"@
    &&& lookup(vars, s.subrange(i + 2, j)) is None
}

/// Whether `s` holds a required reference to an unbound variable.
pub open spec fn has_unbound_reference(s: Seq<char>, vars: Seq<(Seq<char>, Seq<char>)>) -> bool {
    exists|i: int| 0 <= i < s.len() && #[trigger] unbound_reference_at(s, i, vars)
}

/// What `template` renders to with `vars`: nothing where, once this tool's
/// markers are resolved, a required variable is unbound; else what
/// handlebars makes of it.
pub open spec fn render_spec(template: Seq<char>, vars: Seq<(Seq<char>, Seq<char>)>) -> Option<Seq<char>> {
    let text = preprocess_spec(template, vars);
    if has_unbound_reference(text, vars) {
        None
    } else {
        handlebars_output(text, vars)
    }
}

fn is_unbound_reference(v: &Vec<char>, i: usize, vars: &VarMap) -> (r: bool)
    requires
        i < v.len(),
    ensures
        r == unbound_reference_at(v@, i as int, vars@),
{
    if !double_exec(v, i, '{') {
        return false;
    }
    if i > 0 && v[i - 1] == '\\' {
        return false;
    }
    let j = word_end_exec(v, i + 2);
    if j == i + 2 || !double_exec(v, j, '}') {
        return false;
    }
    let name = string_of(&chars_between(v, i + 2, j));
    proof {
        reveal_strlit("else");
        reveal_strlit("this");
    }
    !crate::text::str_eq(name.as_str(), "else") && !crate::text::str_eq(name.as_str(), "this")
        && !vars.contains_key(name.as_str())
}

/// Whether `text` holds a required reference to an unbound variable.
pub fn find_unbound_reference(text: &str, vars: &VarMap) -> (r: bool)
    ensures
        r == has_unbound_reference(text@, vars@),
{
    let v = chars_of(text);
    let mut i: usize = 0;
    while i < v.len()
        invariant
            0 <= i <= v.len(),
            v@ == text@,
            forall|k: int| 0 <= k < i ==> !#[trigger] unbound_reference_at(v@, k, vars@),
        decreases v.len() - i,
    {
        if is_unbound_reference(&v, i, vars) {
            return true;
        }
        i = i + 1;
    }
    false
}

impl TemplateEngine {
    pub fn new() -> TemplateEngine {
        TemplateEngine {}
    }

    /// Renders `template` against `vars`: this tool's markers are resolved
    /// first; a required variable that is unbound then fails the rendering;
    /// otherwise handlebars renders the result.
    pub fn render_string(&self, template: &str, vars: &VarMap) -> (r: Result<String, String>)
        ensures
            match r {
                Ok(s) => render_spec(template@, vars@) == Some(s@),
                Err(_) => render_spec(template@, vars@) is None,
            },
    {
        let processed = preprocess_template(template, vars);
        if find_unbound_reference(processed.as_str(), vars) {
            return Err(crate::text::owned("a required variable is not set"));
        }
        render_with_handlebars(processed.as_str(), vars)
    }
}

} // verus!
