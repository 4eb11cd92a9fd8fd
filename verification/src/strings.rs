//! Character-level string utilities: conversion between `String` and
//! `Vec<char>`, and the quote-aware tokenizer used to split a task
//! invocation string into a task name and positional argument values.
use vstd::prelude::*;
use vstd::string::*;

verus! {

/// Relies on `String::from_iter` (via `collect`) to build a string whose
/// characters are exactly the characters of the vector, in order.
#[verifier::external_body]
pub(crate) fn chars_to_string(v: &Vec<char>) -> (r: String)
    ensures
        r@ == v@,
{
    v.iter().collect()
}

/// Copies the characters of a string slice into a vector.
pub(crate) fn str_to_chars(s: &str) -> (r: Vec<char>)
    ensures
        r@ == s@,
{
    let n = s.unicode_len();
    let mut r: Vec<char> = Vec::new();
    let mut i: usize = 0;
    while i < n
        invariant
            i <= n,
            n == s@.len(),
            r@ == s@.take(i as int),
        decreases n - i,
    {
        r.push(s.get_char(i));
        i = i + 1;
        proof {
            assert(s@.take(i as int) =~= s@.take(i - 1).push(s@[i - 1]));
        }
    }
    proof {
        assert(s@.take(n as int) =~= s@);
    }
    r
}

/// One step of the quote-aware split: `i` is the position reached in `s`,
/// `in_quotes` says whether an opening double quote is pending, `cur` is the
/// token being built, and `acc` are the tokens already finished. A double
/// quote toggles `in_quotes` and is dropped; a space outside quotes finishes
/// the current token; every other character extends it. The final token is
/// always pushed, so the result is never empty.
pub open spec fn tokenize_from(
    s: Seq<char>,
    i: int,
    in_quotes: bool,
    cur: Seq<char>,
    acc: Seq<Seq<char>>,
) -> Seq<Seq<char>>
    decreases s.len() - i,
    when 0 <= i <= s.len()
{
    if i >= s.len() {
        acc.push(cur)
    } else if s[i] == '"' {
        tokenize_from(s, i + 1, !in_quotes, cur, acc)
    } else if s[i] == ' ' && !in_quotes {
        tokenize_from(s, i + 1, in_quotes, Seq::empty(), acc.push(cur))
    } else {
        tokenize_from(s, i + 1, in_quotes, cur.push(s[i]), acc)
    }
}

/// The quote-aware split of a whole string: spaces separate tokens except
/// between double quotes; the quotes themselves are dropped.
pub open spec fn tokenize(s: Seq<char>) -> Seq<Seq<char>> {
    tokenize_from(s, 0, false, Seq::empty(), Seq::empty())
}

proof fn lemma_tokenize_from_len(s: Seq<char>, i: int, in_quotes: bool, cur: Seq<char>, acc: Seq<
    Seq<char>,
>)
    requires
        0 <= i <= s.len(),
    ensures
        tokenize_from(s, i, in_quotes, cur, acc).len() > acc.len(),
    decreases s.len() - i,
{
    if i >= s.len() {
    } else if s[i] == '"' {
        lemma_tokenize_from_len(s, i + 1, !in_quotes, cur, acc);
    } else if s[i] == ' ' && !in_quotes {
        lemma_tokenize_from_len(s, i + 1, in_quotes, Seq::empty(), acc.push(cur));
    } else {
        lemma_tokenize_from_len(s, i + 1, in_quotes, cur.push(s[i]), acc);
    }
}

/// The tokenizer yields at least one token on every input.
pub proof fn lemma_tokenize_nonempty(s: Seq<char>)
    ensures
        tokenize(s).len() >= 1,
{
    lemma_tokenize_from_len(s, 0, false, Seq::empty(), Seq::empty());
}

proof fn lemma_tokenize_quoted_segment(
    s: Seq<char>,
    i: int,
    cur: Seq<char>,
    acc: Seq<Seq<char>>,
    j: int,
)
    requires
        0 <= i <= j < s.len(),
        s[j] == '"',
        forall|k: int| i <= k < j ==> s[k] != '"',
    ensures
        tokenize_from(s, i, true, cur, acc) == tokenize_from(
            s,
            j + 1,
            false,
            cur + s.subrange(i, j),
            acc,
        ),
    decreases j - i,
{
    if i == j {
        assert(cur + s.subrange(i, j) =~= cur);
    } else {
        lemma_tokenize_quoted_segment(s, i + 1, cur.push(s[i]), acc, j);
        assert(cur.push(s[i]) + s.subrange(i + 1, j) =~= cur + s.subrange(i, j));
    }
}

/// Quoting round-trip: a value wrapped in double quotes, re-tokenized by the
/// quote-aware splitter, comes back as exactly one token equal to the value,
/// however many spaces the value contains.
pub proof fn lemma_quoting_round_trip(v: Seq<char>)
    requires
        !v.contains('"'),
    ensures
        tokenize(seq!['"'] + v + seq!['"']) == seq![v],
{
    let s = seq!['"'] + v + seq!['"'];
    let j = 1 + v.len() as int;
    assert(s[0] == '"');
    assert(s[j] == '"');
    assert forall|k: int| 1 <= k < j implies s[k] != '"' by {
        assert(s[k] == v[k - 1]);
        assert(!v.contains('"'));
        if s[k] == '"' {
            assert(v.contains('"'));
        }
    }
    lemma_tokenize_quoted_segment(s, 1, Seq::empty(), Seq::empty(), j);
    assert(s.subrange(1, j) =~= v);
    assert(Seq::<char>::empty() + v =~= v);
    assert(tokenize(s) =~= seq![v]);
}

/// Splits a string on spaces, except that a pair of double quotes protects
/// the text between them as a single token (the quotes are stripped).
pub fn split_exclude_quotes(s: String) -> (r: Vec<String>)
    ensures
        r@.map_values(|t: String| t@) == tokenize(s@),
        r@.len() >= 1,
{
    let chars = str_to_chars(s.as_str());
    let n = chars.len();
    let mut split: Vec<String> = Vec::new();
    let mut current: Vec<char> = Vec::new();
    let mut in_quotes = false;
    let mut i: usize = 0;
    proof {
        assert(split@.map_values(|t: String| t@) =~= Seq::<Seq<char>>::empty());
    }
    while i < n
        invariant
            i <= n,
            n == chars@.len(),
            chars@ == s@,
            tokenize(s@) == tokenize_from(
                s@,
                i as int,
                in_quotes,
                current@,
                split@.map_values(|t: String| t@),
            ),
        decreases n - i,
    {
        let ghost prev_tokens = split@.map_values(|t: String| t@);
        let c = chars[i];
        if c == '"' {
            in_quotes = !in_quotes;
        } else if c == ' ' && !in_quotes {
            let token = chars_to_string(&current);
            split.push(token);
            current = Vec::new();
            proof {
                assert(split@.map_values(|t: String| t@) =~= prev_tokens.push(token@));
            }
        } else {
            current.push(c);
        }
        i = i + 1;
    }
    let token = chars_to_string(&current);
    let ghost prev_tokens = split@.map_values(|t: String| t@);
    split.push(token);
    proof {
        assert(split@.map_values(|t: String| t@) =~= prev_tokens.push(token@));
    }
    split
}

/// The task name of a substituted invocation string: its first token.
pub fn parse_task_name_from_string(parsed_command: &String) -> (r: String)
    ensures
        r@ == tokenize(parsed_command@)[0],
{
    let tokens = split_exclude_quotes(parsed_command.clone());
    proof {
        assert(tokens@.map_values(|t: String| t@)[0] == tokens@[0]@);
    }
    tokens[0].clone()
}

/// The positional argument values of a substituted invocation string: every
/// token after the first.
pub fn parse_task_args_from_string(parsed_command: &String) -> (r: Vec<String>)
    ensures
        r@.map_values(|t: String| t@) == tokenize(parsed_command@).skip(1),
{
    let ghost toks = tokenize(parsed_command@);
    let tokens = split_exclude_quotes(parsed_command.clone());
    let n = tokens.len();
    let mut r: Vec<String> = Vec::new();
    let mut i: usize = 1;
    proof {
        assert(r@.map_values(|t: String| t@) =~= toks.subrange(1, 1));
    }
    while i < n
        invariant
            1 <= i <= n,
            n == tokens@.len(),
            tokens@.map_values(|t: String| t@) == toks,
            n == toks.len(),
            r@.map_values(|t: String| t@) == toks.subrange(1, i as int),
        decreases n - i,
    {
        let ghost prev = r@.map_values(|t: String| t@);
        r.push(tokens[i].clone());
        proof {
            assert(tokens@[i as int]@ == toks[i as int]);
            assert(r@.map_values(|t: String| t@) =~= prev.push(toks[i as int]));
            assert(prev.push(toks[i as int]) =~= toks.subrange(1, i + 1));
        }
        i = i + 1;
    }
    proof {
        assert(toks.subrange(1, n as int) =~= toks.skip(1));
    }
    r
}

/// Copies a vector of strings.
pub(crate) fn clone_string_vec(v: &Vec<String>) -> (r: Vec<String>)
    ensures
        r@ == v@,
{
    let n = v.len();
    let mut r: Vec<String> = Vec::new();
    let mut i: usize = 0;
    while i < n
        invariant
            i <= n,
            n == v@.len(),
            r@ == v@.take(i as int),
        decreases n - i,
    {
        r.push(v[i].clone());
        i = i + 1;
        proof {
            assert(v@.take(i as int) =~= v@.take(i - 1).push(v@[i - 1]));
        }
    }
    proof {
        assert(v@.take(n as int) =~= v@);
    }
    r
}

/// Tells whether one of the strings equals `s`.
pub(crate) fn contains_string(v: &Vec<String>, s: &String) -> (r: bool)
    ensures
        r == v@.map_values(|t: String| t@).contains(s@),
{
    let ghost views = v@.map_values(|t: String| t@);
    let n = v.len();
    let mut i: usize = 0;
    while i < n
        invariant
            i <= n,
            n == v@.len(),
            views == v@.map_values(|t: String| t@),
            forall|j: int| 0 <= j < i ==> views[j] != s@,
        decreases n - i,
    {
        if crate::vars::string_eq(&v[i], s) {
            proof {
                assert(views[i as int] == s@);
            }
            return true;
        }
        proof {
            assert(views[i as int] != s@);
        }
        i = i + 1;
    }
    proof {
        if views.contains(s@) {
            let j = choose|j: int| 0 <= j < views.len() && views[j] == s@;
            assert(views[j] != s@);
        }
    }
    false
}

} // verus!
