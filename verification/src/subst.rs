//! The template substitutor: replaces each `${name}` placeholder in a
//! command template with the bound value of `name`, scanning left to right.
//! Values are opaque: a substituted value is never re-scanned for further
//! placeholders. An unbound placeholder name makes the whole substitution
//! fail with a missing-variable error naming it.
//!
//! Substitution comes in two forms. The plain form inserts values verbatim
//! and is used for shell command templates. The quoting form wraps a value
//! containing a space in double quotes and is used for task invocation
//! templates, whose result is re-tokenized by the quote-aware splitter: the
//! quotes keep such a value one token (see
//! [`crate::strings::lemma_quoting_round_trip`]).
use vstd::prelude::*;
use vstd::string::*;

use crate::errors::ArgError;
use crate::strings::{chars_to_string, str_to_chars, tokenize};
use crate::vars::VarMap;

verus! {

/// The position of the first `}` at or after `i`, if any.
pub open spec fn spec_find_close(t: Seq<char>, i: int) -> Option<int>
    decreases t.len() - i,
    when 0 <= i <= t.len()
{
    if i >= t.len() {
        None
    } else if t[i] == '}' {
        Some(i)
    } else {
        spec_find_close(t, i + 1)
    }
}

pub proof fn lemma_find_close(t: Seq<char>, i: int)
    requires
        0 <= i <= t.len(),
    ensures
        match spec_find_close(t, i) {
            Some(j) => i <= j < t.len() && t[j] == '}' && forall|k: int| i <= k < j ==> t[k] != '}',
            None => forall|k: int| i <= k < t.len() ==> t[k] != '}',
        },
    decreases t.len() - i,
{
    if i < t.len() && t[i] != '}' {
        lemma_find_close(t, i + 1);
    }
}

proof fn lemma_find_close_exact(t: Seq<char>, i: int, j: int)
    requires
        0 <= i <= j < t.len(),
        t[j] == '}',
        forall|k: int| i <= k < j ==> t[k] != '}',
    ensures
        spec_find_close(t, i) == Some(j),
    decreases j - i,
{
    if i < j {
        lemma_find_close_exact(t, i + 1, j);
    }
}

proof fn lemma_find_close_none(t: Seq<char>, i: int)
    requires
        0 <= i <= t.len(),
        forall|k: int| i <= k < t.len() ==> t[k] != '}',
    ensures
        spec_find_close(t, i) is None,
    decreases t.len() - i,
{
    if i < t.len() {
        lemma_find_close_none(t, i + 1);
    }
}

/// How a bound value is inserted: the quoting form wraps a value containing
/// a space in double quotes; the plain form inserts it verbatim.
pub open spec fn spec_render_value(v: Seq<char>, quote: bool) -> Seq<char> {
    if quote && v.contains(' ') {
        seq!['"'] + v + seq!['"']
    } else {
        v
    }
}

/// The substitution of the template from position `i` on: a literal
/// character is copied; at `${`, the characters up to the first `}` form a
/// placeholder name, whose bound value is inserted (rendered per `quote`) —
/// an unbound name is the error. A `${` with no closing `}` is literal text.
pub open spec fn spec_subst_from(
    t: Seq<char>,
    i: int,
    m: Map<Seq<char>, Seq<char>>,
    quote: bool,
) -> Result<Seq<char>, Seq<char>>
    decreases t.len() - i,
    when 0 <= i <= t.len()
    via spec_subst_from_decreases
{
    if i >= t.len() {
        Ok(Seq::empty())
    } else if t[i] == '$' && i + 1 < t.len() && t[i + 1] == '{' && spec_find_close(t, i + 2)
        is Some {
        let j = spec_find_close(t, i + 2)->Some_0;
        let name = t.subrange(i + 2, j);
        if m.contains_key(name) {
            match spec_subst_from(t, j + 1, m, quote) {
                Ok(rest) => Ok(spec_render_value(m[name], quote) + rest),
                Err(e) => Err(e),
            }
        } else {
            Err(name)
        }
    } else {
        match spec_subst_from(t, i + 1, m, quote) {
            Ok(rest) => Ok(seq![t[i]] + rest),
            Err(e) => Err(e),
        }
    }
}

#[via_fn]
proof fn spec_subst_from_decreases(t: Seq<char>, i: int, m: Map<Seq<char>, Seq<char>>, quote: bool) {
    if i < t.len() && t[i] == '$' && i + 1 < t.len() && t[i + 1] == '{' && spec_find_close(
        t,
        i + 2,
    ) is Some {
        lemma_find_close(t, i + 2);
    }
}

/// The whole substitution of a template: `Ok` with the substituted text, or
/// `Err` with the first unbound placeholder name.
pub open spec fn spec_subst(t: Seq<char>, m: Map<Seq<char>, Seq<char>>, quote: bool) -> Result<
    Seq<char>,
    Seq<char>,
> {
    spec_subst_from(t, 0, m, quote)
}

/// The placeholder names the template mentions, from position `i` on, in
/// scan order. This depends on the template alone.
pub open spec fn spec_placeholder_names(t: Seq<char>, i: int) -> Seq<Seq<char>>
    decreases t.len() - i,
    when 0 <= i <= t.len()
    via spec_placeholder_names_decreases
{
    if i >= t.len() {
        Seq::empty()
    } else if t[i] == '$' && i + 1 < t.len() && t[i + 1] == '{' && spec_find_close(t, i + 2)
        is Some {
        let j = spec_find_close(t, i + 2)->Some_0;
        seq![t.subrange(i + 2, j)] + spec_placeholder_names(t, j + 1)
    } else {
        spec_placeholder_names(t, i + 1)
    }
}

#[via_fn]
proof fn spec_placeholder_names_decreases(t: Seq<char>, i: int) {
    if i < t.len() && t[i] == '$' && i + 1 < t.len() && t[i + 1] == '{' && spec_find_close(
        t,
        i + 2,
    ) is Some {
        lemma_find_close(t, i + 2);
    }
}

proof fn lemma_subst_totality_from(t: Seq<char>, i: int, m: Map<Seq<char>, Seq<char>>, quote: bool)
    requires
        0 <= i <= t.len(),
    ensures
        (spec_subst_from(t, i, m, quote) is Ok) <==> (forall|k: Seq<char>|
            spec_placeholder_names(t, i).contains(k) ==> m.contains_key(k)),
        spec_subst_from(t, i, m, quote) matches Err(e) ==> spec_placeholder_names(t, i).contains(e)
            && !m.contains_key(e),
    decreases t.len() - i,
{
    if i >= t.len() {
    } else if t[i] == '$' && i + 1 < t.len() && t[i + 1] == '{' && spec_find_close(t, i + 2)
        is Some {
        lemma_find_close(t, i + 2);
        let j = spec_find_close(t, i + 2)->Some_0;
        let name = t.subrange(i + 2, j);
        lemma_subst_totality_from(t, j + 1, m, quote);
        let names = spec_placeholder_names(t, i);
        let rest_names = spec_placeholder_names(t, j + 1);
        assert(names == seq![name] + rest_names);
        assert(names[0] == name);
        assert(names.contains(name));
        assert forall|k: Seq<char>| rest_names.contains(k) implies names.contains(k) by {
            let x = choose|x: int| 0 <= x < rest_names.len() && rest_names[x] == k;
            assert(names[x + 1] == k);
        }
        assert forall|k: Seq<char>| names.contains(k) && k != name implies rest_names.contains(
            k,
        ) by {
            let x = choose|x: int| 0 <= x < names.len() && names[x] == k;
            assert(rest_names[x - 1] == k);
        }
    } else {
        lemma_subst_totality_from(t, i + 1, m, quote);
        assert(spec_placeholder_names(t, i) == spec_placeholder_names(t, i + 1));
    }
}

/// Substitution totality: substituting a template succeeds exactly when
/// every placeholder name the template mentions is bound in the table;
/// otherwise it fails explicitly, naming the first unbound placeholder — no
/// placeholder of the template is ever left standing silently.
pub proof fn lemma_substitution_totality(t: Seq<char>, m: Map<Seq<char>, Seq<char>>, quote: bool)
    ensures
        (spec_subst(t, m, quote) is Ok) <==> (forall|k: Seq<char>|
            spec_placeholder_names(t, 0).contains(k) ==> m.contains_key(k)),
        spec_subst(t, m, quote) matches Err(e) ==> spec_placeholder_names(t, 0).contains(e)
            && !m.contains_key(e),
{
    lemma_subst_totality_from(t, 0, m, quote);
}

/// Quoting round-trip: a bound value that contains a space and no double
/// quote, inserted by the quoting form and then re-tokenized by the
/// quote-aware splitter, is exactly one token equal to the value.
pub proof fn lemma_render_round_trip(v: Seq<char>)
    requires
        v.contains(' '),
        !v.contains('"'),
    ensures
        tokenize(spec_render_value(v, true)) == seq![v],
{
    crate::strings::lemma_quoting_round_trip(v);
}

/// Copies the characters of `v` between `from` and `to`.
fn chars_range(v: &Vec<char>, from: usize, to: usize) -> (r: Vec<char>)
    requires
        from <= to <= v@.len(),
    ensures
        r@ == v@.subrange(from as int, to as int),
{
    let mut r: Vec<char> = Vec::new();
    let mut k = from;
    while k < to
        invariant
            from <= k <= to <= v@.len(),
            r@ == v@.subrange(from as int, k as int),
        decreases to - k,
    {
        r.push(v[k]);
        k = k + 1;
        proof {
            assert(v@.subrange(from as int, k as int) =~= v@.subrange(from as int, k - 1).push(
                v@[k - 1],
            ));
        }
    }
    r
}

/// Tells whether the characters contain a space.
fn contains_space(v: &Vec<char>) -> (r: bool)
    ensures
        r == v@.contains(' '),
{
    let n = v.len();
    let mut k: usize = 0;
    while k < n
        invariant
            k <= n,
            n == v@.len(),
            forall|j: int| 0 <= j < k ==> v@[j] != ' ',
        decreases n - k,
    {
        if v[k] == ' ' {
            return true;
        }
        k = k + 1;
    }
    proof {
        if v@.contains(' ') {
            let j = choose|j: int| 0 <= j < v@.len() && v@[j] == ' ';
            assert(v@[j] != ' ');
        }
    }
    false
}

/// Appends the rendered form of `value` to `out`.
fn append_value(out: &mut Vec<char>, value: &String, quote: bool)
    ensures
        final(out)@ == old(out)@ + spec_render_value(value@, quote),
{
    let vchars = str_to_chars(value.as_str());
    let needs_quote = quote && contains_space(&vchars);
    if needs_quote {
        out.push('"');
    }
    let n = vchars.len();
    let mut k: usize = 0;
    let ghost base = out@;
    while k < n
        invariant
            k <= n,
            n == vchars@.len(),
            vchars@ == value@,
            out@ == base + value@.take(k as int),
        decreases n - k,
    {
        out.push(vchars[k]);
        k = k + 1;
        proof {
            assert(base + value@.take(k as int) =~= (base + value@.take(k - 1)).push(
                value@[k - 1],
            ));
        }
    }
    proof {
        assert(value@.take(n as int) =~= value@);
    }
    if needs_quote {
        out.push('"');
        proof {
            assert(out@ =~= old(out)@ + (seq!['"'] + value@ + seq!['"']));
        }
    } else {
        proof {
            assert(out@ =~= old(out)@ + spec_render_value(value@, quote));
        }
    }
}

/// Substitutes every placeholder of the template against the table.
fn substitute(template: &str, vars: &VarMap, quote: bool) -> (r: Result<String, ArgError>)
    requires
        vars.wf(),
    ensures
        (r is Ok) == (spec_subst(template@, vars@, quote) is Ok),
        (r matches Ok(s) ==> Ok::<Seq<char>, Seq<char>>(s@) == spec_subst(
            template@,
            vars@,
            quote,
        )),
        (r matches Err(e) ==> {
            &&& spec_subst(template@, vars@, quote) matches Err(n)
            &&& e.message@ == "variable string is "@ + n
        }),
{
    let ghost t = template@;
    let ghost m = vars@;
    let chars = str_to_chars(template);
    let n = chars.len();
    let mut out: Vec<char> = Vec::new();
    let mut i: usize = 0;
    proof {
        assert(Seq::<char>::empty() + spec_subst_from(t, 0, m, quote)->Ok_0 =~= spec_subst_from(
            t,
            0,
            m,
            quote,
        )->Ok_0);
    }
    while i < n
        invariant
            i <= n,
            n == chars@.len(),
            chars@ == t,
            t == template@,
            m == vars@,
            vars.wf(),
            spec_subst_from(t, i as int, m, quote) is Ok ==> spec_subst(t, m, quote) is Ok
                && spec_subst(t, m, quote)->Ok_0 == out@ + spec_subst_from(
                t,
                i as int,
                m,
                quote,
            )->Ok_0,
            spec_subst_from(t, i as int, m, quote) is Err ==> spec_subst(t, m, quote)
                == spec_subst_from(t, i as int, m, quote),
        decreases n - i,
    {
        let c = chars[i];
        let mut simple = true;
        if c == '$' && i + 1 < n {
            if chars[i + 1] == '{' {
                // Scan for the closing brace.
                let mut j = i + 2;
                while j < n && chars[j] != '}'
                    invariant
                        i + 2 <= j <= n,
                        n == chars@.len(),
                        forall|k: int| i + 2 <= k < j ==> chars@[k] != '}',
                    decreases n - j,
                {
                    j = j + 1;
                }
                if j < n {
                    proof {
                        lemma_find_close_exact(t, i + 2, j as int);
                    }
                    let name_chars = chars_range(&chars, i + 2, j);
                    let name = chars_to_string(&name_chars);
                    let ghost rest = spec_subst_from(t, j + 1 as int, m, quote);
                    match vars.get(&name) {
                        Some(value) => {
                            let ghost before = out@;
                            append_value(&mut out, value, quote);
                            proof {
                                if spec_subst_from(t, j + 1, m, quote) is Ok {
                                    assert(before + (spec_render_value(m[name@], quote)
                                        + spec_subst_from(t, j + 1, m, quote)->Ok_0) =~= out@
                                        + spec_subst_from(t, j + 1, m, quote)->Ok_0);
                                }
                            }
                            i = j + 1;
                            simple = false;
                        },
                        None => {
                            proof {
                                assert(spec_subst_from(t, i as int, m, quote) == Err::<
                                    Seq<char>,
                                    Seq<char>,
                                >(name@));
                            }
                            let mut message = String::new();
                            message.append("variable string is ");
                            message.append(name.as_str());
                            return Err(ArgError { message });
                        },
                    }
                } else {
                    proof {
                        lemma_find_close_none(t, i + 2);
                    }
                }
            }
        }
        if simple {
            let ghost before = out@;
            out.push(c);
            proof {
                if spec_subst_from(t, i + 1, m, quote) is Ok {
                    assert(before + (seq![t[i as int]] + spec_subst_from(t, i + 1, m, quote)->Ok_0)
                        =~= out@ + spec_subst_from(t, i + 1, m, quote)->Ok_0);
                }
            }
            i = i + 1;
        }
    }
    proof {
        assert(out@ + Seq::<char>::empty() =~= out@);
    }
    Ok(chars_to_string(&out))
}

/// Substitutes every placeholder of a shell command template against the
/// table; bound values are inserted verbatim. Fails with a missing-variable
/// error naming the first placeholder whose name the table does not bind.
pub fn replace_string_with_args(string: String, local_vars: &VarMap) -> (r: Result<
    String,
    ArgError,
>)
    requires
        local_vars.wf(),
    ensures
        (r is Ok) == (spec_subst(string@, local_vars@, false) is Ok),
        (r matches Ok(s) ==> Ok::<Seq<char>, Seq<char>>(s@) == spec_subst(
            string@,
            local_vars@,
            false,
        )),
        (r matches Err(e) ==> {
            &&& spec_subst(string@, local_vars@, false) matches Err(n)
            &&& e.message@ == "variable string is "@ + n
        }),
{
    substitute(string.as_str(), local_vars, false)
}

/// Substitutes every placeholder of a task invocation template against the
/// table; a bound value containing a space is wrapped in double quotes, so
/// that the quote-aware splitter keeps it one token. Fails with a
/// missing-variable error naming the first placeholder whose name the table
/// does not bind.
pub fn replace_string_with_args_quoted(string: String, local_vars: &VarMap) -> (r: Result<
    String,
    ArgError,
>)
    requires
        local_vars.wf(),
    ensures
        (r is Ok) == (spec_subst(string@, local_vars@, true) is Ok),
        (r matches Ok(s) ==> Ok::<Seq<char>, Seq<char>>(s@) == spec_subst(
            string@,
            local_vars@,
            true,
        )),
        (r matches Err(e) ==> {
            &&& spec_subst(string@, local_vars@, true) matches Err(n)
            &&& e.message@ == "variable string is "@ + n
        }),
{
    substitute(string.as_str(), local_vars, true)
}

} // verus!
