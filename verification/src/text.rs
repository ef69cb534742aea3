//! Character-level text helpers shared by the translation, toast and OCR paths:
//! Unicode white space, trimming, word splitting and whitespace collapsing.

use vstd::prelude::*;
use vstd::std_specs::iter::IteratorSpec;

verus! {

broadcast use vstd::string::group_string_axioms;

/// The Unicode `White_Space` property, which is what `char::is_whitespace` tests.
pub open spec fn is_ws(c: char) -> bool {
    ||| ('\u{9}' <= c && c <= '\u{d}')
    ||| c == ' '
    ||| c == '\u{85}'
    ||| c == '\u{a0}'
    ||| c == '\u{1680}'
    ||| ('\u{2000}' <= c && c <= '\u{200a}')
    ||| c == '\u{2028}'
    ||| c == '\u{2029}'
    ||| c == '\u{202f}'
    ||| c == '\u{205f}'
    ||| c == '\u{3000}'
}

/// Every character of `s` is white space (an empty sequence counts as blank).
pub open spec fn all_ws(s: Seq<char>) -> bool {
    forall|i: int| 0 <= i < s.len() ==> is_ws(#[trigger] s[i])
}

/// Number of leading white-space characters.
pub open spec fn lead_ws(s: Seq<char>) -> nat
    decreases s.len(),
{
    if s.len() == 0 || !is_ws(s[0]) {
        0
    } else {
        1 + lead_ws(s.drop_first())
    }
}

/// Number of trailing white-space characters.
pub open spec fn trail_ws(s: Seq<char>) -> nat
    decreases s.len(),
{
    if s.len() == 0 || !is_ws(s.last()) {
        0
    } else {
        1 + trail_ws(s.drop_last())
    }
}

/// `str::trim_start`.
pub open spec fn trim_start(s: Seq<char>) -> Seq<char> {
    s.skip(lead_ws(s) as int)
}

/// `str::trim_end`.
pub open spec fn trim_end(s: Seq<char>) -> Seq<char> {
    s.take(s.len() - trail_ws(s))
}

/// `str::trim`.
pub open spec fn trim(s: Seq<char>) -> Seq<char> {
    trim_end(trim_start(s))
}

/// The words of `s` in order, as `str::split_whitespace` yields them.
pub open spec fn words(s: Seq<char>) -> Seq<Seq<char>>
    decreases s.len(),
{
    if s.len() == 0 {
        seq![]
    } else {
        let p = s.drop_last();
        let c = s.last();
        let w = words(p);
        if is_ws(c) {
            w
        } else if p.len() > 0 && !is_ws(p.last()) && w.len() > 0 {
            w.update(w.len() - 1, w.last().push(c))
        } else {
            w.push(seq![c])
        }
    }
}

/// Words joined by single spaces: `words.join(" ")`.
pub open spec fn join_spaced(ws: Seq<Seq<char>>) -> Seq<char>
    decreases ws.len(),
{
    if ws.len() == 0 {
        seq![]
    } else if ws.len() == 1 {
        ws[0]
    } else {
        join_spaced(ws.drop_last()) + seq![' '] + ws.last()
    }
}

/// Every run of white space collapsed to one space, none at either end.
pub open spec fn collapse_ws(s: Seq<char>) -> Seq<char> {
    join_spaced(words(s))
}

pub proof fn lemma_lead_ws_bound(s: Seq<char>)
    ensures
        lead_ws(s) <= s.len(),
        forall|i: int| 0 <= i < lead_ws(s) ==> is_ws(#[trigger] s[i]),
        lead_ws(s) < s.len() ==> !is_ws(s[lead_ws(s) as int]),
    decreases s.len(),
{
    if s.len() > 0 && is_ws(s[0]) {
        lemma_lead_ws_bound(s.drop_first());
        assert forall|i: int| 0 <= i < lead_ws(s) implies is_ws(#[trigger] s[i]) by {
            if i > 0 {
                assert(s[i] == s.drop_first()[i - 1]);
            }
        }
    }
}

pub proof fn lemma_lead_ws_char(s: Seq<char>, n: int)
    requires
        0 <= n <= s.len(),
        forall|i: int| 0 <= i < n ==> is_ws(#[trigger] s[i]),
        n == s.len() || !is_ws(s[n]),
    ensures
        lead_ws(s) == n,
    decreases n,
{
    if n > 0 {
        let t = s.drop_first();
        assert forall|i: int| 0 <= i < n - 1 implies is_ws(#[trigger] t[i]) by {
            assert(t[i] == s[i + 1]);
        }
        if n < s.len() {
            assert(t[n - 1] == s[n]);
        }
        lemma_lead_ws_char(t, n - 1);
        assert(is_ws(s[0]));
    }
}

pub proof fn lemma_trail_ws_bound(s: Seq<char>)
    ensures
        trail_ws(s) <= s.len(),
        forall|i: int| s.len() - trail_ws(s) <= i < s.len() ==> is_ws(#[trigger] s[i]),
        trail_ws(s) < s.len() ==> !is_ws(s[s.len() - trail_ws(s) - 1]),
    decreases s.len(),
{
    if s.len() > 0 && is_ws(s.last()) {
        lemma_trail_ws_bound(s.drop_last());
        assert forall|i: int| s.len() - trail_ws(s) <= i < s.len() implies is_ws(#[trigger] s[i]) by {
            if i < s.len() - 1 {
                assert(s[i] == s.drop_last()[i]);
            }
        }
        if trail_ws(s) < s.len() {
            assert(s[s.len() - trail_ws(s) - 1] == s.drop_last()[s.len() - trail_ws(s) - 1]);
        }
    }
}

pub proof fn lemma_trail_ws_char(s: Seq<char>, n: int)
    requires
        0 <= n <= s.len(),
        forall|i: int| s.len() - n <= i < s.len() ==> is_ws(#[trigger] s[i]),
        n == s.len() || !is_ws(s[s.len() - n - 1]),
    ensures
        trail_ws(s) == n,
    decreases n,
{
    if n > 0 {
        let t = s.drop_last();
        assert forall|i: int| t.len() - (n - 1) <= i < t.len() implies is_ws(#[trigger] t[i]) by {
            assert(t[i] == s[i]);
        }
        if n < s.len() {
            assert(t[t.len() - (n - 1) - 1] == s[s.len() - n - 1]);
        }
        lemma_trail_ws_char(t, n - 1);
        assert(is_ws(s[s.len() - 1]));
    }
}

/// The trimmed text is empty exactly when every character is white space.
pub proof fn lemma_trim_empty_iff_blank(s: Seq<char>)
    ensures
        (trim(s).len() == 0) == all_ws(s),
{
    lemma_lead_ws_bound(s);
    let t = trim_start(s);
    lemma_trail_ws_bound(t);
    if all_ws(s) {
        lemma_lead_ws_char(s, s.len() as int);
        assert(t.len() == 0);
    } else {
        let k = choose|k: int| 0 <= k < s.len() && !is_ws(s[k]);
        assert(lead_ws(s) <= k) by {
            if lead_ws(s) > k {
                assert(is_ws(s[k]));
            }
        }
        assert(t.len() > 0);
        assert(!is_ws(t[0]));
        assert(trail_ws(t) < t.len()) by {
            if trail_ws(t) == t.len() {
                assert(is_ws(t[0]));
            }
        }
    }
}

/// Wraps `String::push`: appends `c`, so the characters become the old ones followed by `c`.
#[verifier::external_body]
pub(crate) fn push_char(s: &mut String, c: char)
    ensures
        final(s)@ == old(s)@.push(c),
{
    s.push(c);
}

/// The characters of `s` in order.
pub fn chars_of(s: &str) -> (v: Vec<char>)
    ensures
        v@ == s@,
{
    let mut v: Vec<char> = Vec::new();
    let mut it = s.chars();
    loop
        invariant
            v@ + it.remaining() == s@,
            it.decrease() is Some,
        ensures
            v@ == s@,
        decreases it.decrease()->0,
    {
        match it.next() {
            Some(c) => {
                v.push(c);
            },
            None => {
                assert(v@ + it.remaining() == v@);
                break ;
            },
        }
    }
    v
}

/// A `String` holding the characters of `v`.
pub fn string_from_chars(v: &Vec<char>) -> (s: String)
    ensures
        s@ == v@,
{
    let mut s = String::new();
    let mut i: usize = 0;
    while i < v.len()
        invariant
            i <= v.len(),
            s@ == v@.take(i as int),
        decreases v.len() - i,
    {
        push_char(&mut s, v[i]);
        assert(v@.take(i as int).push(v@[i as int]) == v@.take(i + 1));
        i += 1;
    }
    assert(v@.take(v.len() as int) == v@);
    s
}

/// `char::is_whitespace`.
pub fn is_whitespace(c: char) -> (r: bool)
    ensures
        r == is_ws(c),
{
    ('\u{9}' <= c && c <= '\u{d}') || c == ' ' || c == '\u{85}' || c == '\u{a0}' || c == '\u{1680}'
        || ('\u{2000}' <= c && c <= '\u{200a}') || c == '\u{2028}' || c == '\u{2029}' || c
        == '\u{202f}' || c == '\u{205f}' || c == '\u{3000}'
}

/// Number of leading white-space characters of `v`.
pub fn lead_ws_count(v: &Vec<char>) -> (n: usize)
    ensures
        n == lead_ws(v@),
{
    let mut i: usize = 0;
    while i < v.len() && is_whitespace(v[i])
        invariant
            i <= v.len(),
            forall|k: int| 0 <= k < i ==> is_ws(#[trigger] v@[k]),
        decreases v.len() - i,
    {
        i += 1;
    }
    proof {
        lemma_lead_ws_char(v@, i as int);
    }
    i
}

/// Number of trailing white-space characters of `v`.
pub fn trail_ws_count(v: &Vec<char>) -> (n: usize)
    ensures
        n == trail_ws(v@),
{
    let mut n: usize = 0;
    while n < v.len() && is_whitespace(v[v.len() - 1 - n])
        invariant
            n <= v.len(),
            forall|k: int| v.len() - n <= k < v.len() ==> is_ws(#[trigger] v@[k]),
        decreases v.len() - n,
    {
        n += 1;
    }
    proof {
        lemma_trail_ws_char(v@, n as int);
    }
    n
}

/// `text.trim().is_empty()`.
pub fn is_blank(text: &str) -> (r: bool)
    ensures
        r == (trim(text@).len() == 0),
        r == all_ws(text@),
{
    proof {
        lemma_trim_empty_iff_blank(text@);
    }
    let v = chars_of(text);
    let mut i: usize = 0;
    while i < v.len()
        invariant
            i <= v.len(),
            v@ == text@,
            forall|k: int| 0 <= k < i ==> is_ws(#[trigger] v@[k]),
        decreases v.len() - i,
    {
        if !is_whitespace(v[i]) {
            assert(!is_ws(text@[i as int]));
            proof {
                lemma_trim_empty_iff_blank(text@);
            }
            return false;
        }
        i += 1;
    }
    true
}

/// The characters of `trim(v)`.
pub fn trim_chars(v: &Vec<char>) -> (r: Vec<char>)
    ensures
        r@ == trim(v@),
{
    proof {
        lemma_lead_ws_bound(v@);
    }
    let lead = lead_ws_count(v);
    let mut t: Vec<char> = Vec::new();
    let mut i: usize = lead;
    while i < v.len()
        invariant
            lead <= i <= v.len(),
            lead == lead_ws(v@),
            t@ == v@.subrange(lead as int, i as int),
        decreases v.len() - i,
    {
        t.push(v[i]);
        assert(v@.subrange(lead as int, i as int).push(v@[i as int]) == v@.subrange(
            lead as int,
            i + 1,
        ));
        i += 1;
    }
    assert(t@ == trim_start(v@));
    proof {
        lemma_trail_ws_bound(t@);
    }
    let trail = trail_ws_count(&t);
    let keep = t.len() - trail;
    let mut r: Vec<char> = Vec::new();
    let mut j: usize = 0;
    while j < keep
        invariant
            keep <= t.len(),
            j <= keep,
            keep == t@.len() - trail_ws(t@),
            r@ == t@.take(j as int),
        decreases keep - j,
    {
        r.push(t[j]);
        assert(t@.take(j as int).push(t@[j as int]) == t@.take(j + 1));
        j += 1;
    }
    r
}

pub proof fn lemma_words_nonempty_after_word_char(p: Seq<char>)
    requires
        p.len() > 0,
        !is_ws(p.last()),
    ensures
        words(p).len() > 0,
{
    assert(p.drop_last().len() < p.len());
    let w = words(p.drop_last());
    if p.drop_last().len() > 0 && !is_ws(p.drop_last().last()) && w.len() > 0 {
        assert(words(p).len() == w.len());
    } else {
        assert(words(p).len() == w.len() + 1);
    }
}

pub proof fn lemma_join_extend_last(ws: Seq<Seq<char>>, c: char)
    requires
        ws.len() > 0,
    ensures
        join_spaced(ws.update(ws.len() - 1, ws.last().push(c))) == join_spaced(ws).push(c),
{
    let u = ws.update(ws.len() - 1, ws.last().push(c));
    if ws.len() == 1 {
        assert(u[0] == ws[0].push(c));
    } else {
        assert(u.drop_last() == ws.drop_last());
        assert(u.last() == ws.last().push(c));
        assert(join_spaced(ws.drop_last()) + seq![' '] + ws.last().push(c) == (join_spaced(
            ws.drop_last(),
        ) + seq![' '] + ws.last()).push(c));
    }
}

pub proof fn lemma_join_push(ws: Seq<Seq<char>>, c: char)
    ensures
        join_spaced(ws.push(seq![c])) == if ws.len() == 0 {
            seq![c]
        } else {
            join_spaced(ws).push(' ').push(c)
        },
{
    let u = ws.push(seq![c]);
    assert(u.drop_last() == ws);
    if ws.len() > 0 {
        assert(join_spaced(ws) + seq![' '] + seq![c] == join_spaced(ws).push(' ').push(c));
    } else {
        assert(u.len() == 1);
    }
}

/// `s.split_whitespace().collect::<Vec<_>>().join(" ")`, as characters.
pub fn collapse_whitespace(v: &Vec<char>) -> (r: Vec<char>)
    ensures
        r@ == collapse_ws(v@),
{
    let mut out: Vec<char> = Vec::new();
    let mut seen_word = false;
    let mut i: usize = 0;
    while i < v.len()
        invariant
            i <= v.len(),
            out@ == join_spaced(words(v@.take(i as int))),
            seen_word == (words(v@.take(i as int)).len() > 0),
        decreases v.len() - i,
    {
        let c = v[i];
        let ghost p = v@.take(i as int);
        assert(v@.take(i + 1).drop_last() == p);
        assert(v@.take(i + 1).last() == c);
        if is_whitespace(c) {
        } else if i > 0 && !is_whitespace(v[i - 1]) {
            proof {
                assert(p.last() == v@[i - 1]);
                lemma_words_nonempty_after_word_char(p);
                lemma_join_extend_last(words(p), c);
            }
            out.push(c);
        } else {
            proof {
                if i > 0 {
                    assert(p.last() == v@[i - 1]);
                }
                lemma_join_push(words(p), c);
            }
            if seen_word {
                out.push(' ');
            }
            out.push(c);
            seen_word = true;
        }
        i += 1;
    }
    assert(v@.take(v.len() as int) == v@);
    out
}

} // verus!
