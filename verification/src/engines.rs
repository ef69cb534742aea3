//! Translation-engine data and the pure decisions around the engine chain: target-language
//! swap, dictionary mode, cache keys, page scraping and splitting long text into chunks.

use vstd::prelude::*;
use crate::text::{chars_of, string_from_chars, trim, trim_chars, words};

verus! {

/// Longest piece of text sent to an engine in one request, in characters.
pub const CHUNK: usize = 4500;

/// A dictionary alternative: part of speech and its terms.
#[derive(Clone, Debug)]
pub struct Alternative {
    pub pos: String,
    pub terms: Vec<String>,
}

#[derive(Clone, Debug)]
pub struct Translation {
    pub text: String,
    pub detected: String,
    pub target: String,
    pub engine: String,
    pub alternatives: Vec<Alternative>,
    /// "google: HTTP 429": why the first engine of the chain did not answer.
    pub fallback_from: Option<String>,
}

/// What a cached translation depends on: the text, the target, the source hint and the
/// engine order (a manual engine choice must not read the automatic chain's cache).
#[derive(Clone, Debug, PartialEq, Eq, Hash)]
pub struct CacheKey {
    pub text: String,
    pub target: String,
    pub hint: Option<String>,
    pub order: Vec<String>,
}

pub open spec fn opt_str_view(o: Option<&str>) -> Option<Seq<char>> {
    match o {
        Some(s) => Some(s@),
        None => None,
    }
}

pub open spec fn opt_string_view(o: Option<String>) -> Option<Seq<char>> {
    match o {
        Some(s) => Some(s@),
        None => None,
    }
}

pub open spec fn strings_view(v: Seq<String>) -> Seq<Seq<char>> {
    v.map_values(|s: String| s@)
}

pub fn cache_key(text: &str, target: &str, hint: Option<&str>, order: &[String]) -> (k: CacheKey)
    ensures
        k.text@ == text@,
        k.target@ == target@,
        opt_string_view(k.hint) == opt_str_view(hint),
        strings_view(k.order@) == strings_view(order@),
{
    let mut copied: Vec<String> = Vec::new();
    let mut i: usize = 0;
    while i < order.len()
        invariant
            i <= order.len(),
            copied@.len() == i,
            forall|k: int| 0 <= k < i ==> (#[trigger] copied@[k])@ == order@[k]@,
        decreases order.len() - i,
    {
        let s = order[i].clone();
        copied.push(s);
        i += 1;
    }
    assert(strings_view(copied@) =~= strings_view(order@));
    CacheKey {
        text: text.to_owned(),
        target: target.to_owned(),
        hint: match hint {
            Some(h) => Some(h.to_owned()),
            None => None,
        },
        order: copied,
    }
}

/// `detected == Some(primary)`.
fn detected_is(detected: Option<&str>, primary: &str) -> (r: bool)
    ensures
        r == (opt_str_view(detected) == Some(primary@)),
{
    match detected {
        Some(d) => {
            let a = d.to_owned();
            let b = primary.to_owned();
            a == b
        },
        None => false,
    }
}

/// Text already in the primary language is translated to the secondary one (swap);
/// everything else goes to the primary language.
pub fn pick_target(detected: Option<&str>, primary: &str, secondary: &str) -> (t: String)
    ensures
        t@ == (if opt_str_view(detected) == Some(primary@) {
            secondary@
        } else {
            primary@
        }),
{
    if detected_is(detected, primary) {
        secondary.to_owned()
    } else {
        primary.to_owned()
    }
}

/// Unicode `Alphabetic` property, as `char::is_alphabetic` decides it.
pub uninterp spec fn alphabetic(c: char) -> bool;

/// `char::is_alphabetic`; the contract claims only that the answer is the Unicode
/// `Alphabetic` property of `c`, named `alphabetic`.
#[verifier::external_body]
fn char_is_alphabetic(c: char) -> (r: bool)
    ensures
        r == alphabetic(c),
{
    c.is_alphabetic()
}

pub open spec fn word_char(c: char) -> bool {
    alphabetic(c) || c == ' ' || c == '-' || c == '\''
}

/// Dictionary mode: at most 30 characters and two words after trimming, letters,
/// spaces, hyphens and apostrophes only.
pub open spec fn word_mode_spec(text: Seq<char>) -> bool {
    let t = trim(text);
    &&& t.len() <= 30
    &&& words(t).len() <= 2
    &&& forall|i: int| 0 <= i < t.len() ==> word_char(#[trigger] t[i])
}

/// Number of words of `v`.
fn count_words(v: &Vec<char>) -> (n: usize)
    ensures
        n == words(v@).len(),
{
    let mut n: usize = 0;
    let mut i: usize = 0;
    while i < v.len()
        invariant
            i <= v.len(),
            n == words(v@.take(i as int)).len(),
            n <= i,
        decreases v.len() - i,
    {
        let ghost p = v@.take(i as int);
        assert(v@.take(i + 1).drop_last() == p);
        assert(v@.take(i + 1).last() == v@[i as int]);
        if crate::text::is_whitespace(v[i]) {
        } else if i > 0 && !crate::text::is_whitespace(v[i - 1]) {
            proof {
                assert(p.last() == v@[i - 1]);
                crate::text::lemma_words_nonempty_after_word_char(p);
            }
        } else {
            proof {
                if i > 0 {
                    assert(p.last() == v@[i - 1]);
                }
            }
            n += 1;
        }
        i += 1;
    }
    assert(v@.take(v.len() as int) == v@);
    n
}

pub fn is_word_mode(text: &str) -> (r: bool)
    ensures
        r == word_mode_spec(text@),
{
    let all = chars_of(text);
    let t = trim_chars(&all);
    let mut letters: Vec<bool> = Vec::new();
    let mut i: usize = 0;
    while i < t.len()
        invariant
            i <= t.len(),
            letters@.len() == i,
            forall|k: int| 0 <= k < i ==> #[trigger] letters@[k] == alphabetic(t@[k]),
        decreases t.len() - i,
    {
        letters.push(char_is_alphabetic(t[i]));
        i += 1;
    }
    let r = word_mode_from_letters(text, &letters);
    proof {
        assert forall|k: int| 0 <= k < t@.len() implies word_char_given(
            #[trigger] t@[k],
            letters@[k],
        ) == word_char(t@[k]) by {}
    }
    r
}

/// `c` may stand in a dictionary query, `letter` saying whether it is alphabetic.
pub open spec fn word_char_given(c: char, letter: bool) -> bool {
    letter || c == ' ' || c == '-' || c == '\''
}

/// `word_mode_spec`, with `letters[i]` saying whether character `i` of the trimmed text is
/// alphabetic.
pub open spec fn word_mode_given(text: Seq<char>, letters: Seq<bool>) -> bool {
    let t = trim(text);
    &&& t.len() <= 30
    &&& words(t).len() <= 2
    &&& forall|i: int| 0 <= i < t.len() ==> word_char_given(#[trigger] t[i], letters[i])
}

/// Dictionary mode for `text`, given for each character of the trimmed text whether it is
/// alphabetic.
pub fn word_mode_from_letters(text: &str, letters: &[bool]) -> (r: bool)
    requires
        letters@.len() == trim(text@).len(),
    ensures
        r == word_mode_given(text@, letters@),
{
    let all = chars_of(text);
    let t = trim_chars(&all);
    if t.len() > 30 {
        return false;
    }
    if count_words(&t) > 2 {
        return false;
    }
    let mut i: usize = 0;
    while i < t.len()
        invariant
            i <= t.len(),
            t@ == trim(text@),
            letters@.len() == t@.len(),
            forall|k: int| 0 <= k < i ==> word_char_given(#[trigger] t@[k], letters@[k]),
        decreases t.len() - i,
    {
        let c = t[i];
        if !(letters[i] || c == ' ' || c == '-' || c == '\'') {
            return false;
        }
        i += 1;
    }
    true
}

/// `pat` occurs in `s` at index `i`.
pub open spec fn occurs_at(s: Seq<char>, pat: Seq<char>, i: int) -> bool {
    0 <= i && i + pat.len() <= s.len() && s.subrange(i, i + pat.len()) == pat
}

/// `i` is the first index at or after `from` where `pat` occurs.
pub open spec fn first_occurrence(s: Seq<char>, pat: Seq<char>, from: int, i: int) -> bool {
    from <= i && occurs_at(s, pat, i) && forall|j: int| from <= j < i ==> !occurs_at(s, pat, j)
}

pub open spec fn no_occurrence(s: Seq<char>, pat: Seq<char>, from: int) -> bool {
    forall|j: int| from <= j ==> !occurs_at(s, pat, j)
}

fn occurs_at_exec(s: &Vec<char>, pat: &Vec<char>, i: usize) -> (r: bool)
    requires
        i <= s.len(),
    ensures
        r == occurs_at(s@, pat@, i as int),
{
    if pat.len() > s.len() - i {
        return false;
    }
    let mut k: usize = 0;
    while k < pat.len()
        invariant
            k <= pat.len(),
            i + pat.len() <= s.len(),
            forall|m: int| 0 <= m < k ==> s@[i + m] == pat@[m],
        decreases pat.len() - k,
    {
        if s[i + k] != pat[k] {
            assert(s@.subrange(i as int, i + pat.len())[k as int] != pat@[k as int]);
            return false;
        }
        k += 1;
    }
    assert(s@.subrange(i as int, i + pat.len()) =~= pat@);
    true
}

/// First occurrence of `pat` in `s` at or after `from`.
pub(crate) fn find_from(s: &Vec<char>, pat: &Vec<char>, from: usize) -> (r: Option<usize>)
    requires
        from <= s.len(),
    ensures
        r matches Some(i) ==> first_occurrence(s@, pat@, from as int, i as int),
        r is None ==> no_occurrence(s@, pat@, from as int),
{
    let mut i = from;
    while i < s.len()
        invariant
            from <= i <= s.len(),
            forall|j: int| from <= j < i ==> !occurs_at(s@, pat@, j),
        decreases s.len() - i,
    {
        if occurs_at_exec(s, pat, i) {
            return Some(i);
        }
        i += 1;
    }
    if occurs_at_exec(s, pat, i) {
        return Some(i);
    }
    assert forall|j: int| from <= j implies !occurs_at(s@, pat@, j) by {
        if j > s.len() {
            assert(!(j + pat@.len() <= s@.len()));
        }
    }
    None
}

/// `between(s, start, end)`: the text after the first `start` up to the next `end`.
pub open spec fn between_spec(s: Seq<char>, start: Seq<char>, end: Seq<char>) -> Option<
    Seq<char>,
> {
    if exists|a: int| first_occurrence(s, start, 0, a) {
        let a = choose|a: int| first_occurrence(s, start, 0, a);
        let from = a + start.len();
        if exists|b: int| first_occurrence(s, end, from, b) {
            let b = choose|b: int| first_occurrence(s, end, from, b);
            Some(s.subrange(from, b))
        } else {
            None
        }
    } else {
        None
    }
}

proof fn lemma_first_occurrence_unique(s: Seq<char>, pat: Seq<char>, from: int, a: int, b: int)
    requires
        first_occurrence(s, pat, from, a),
        first_occurrence(s, pat, from, b),
    ensures
        a == b,
{
    if a < b {
        assert(!occurs_at(s, pat, a));
    } else if b < a {
        assert(!occurs_at(s, pat, b));
    }
}

/// Extracts the text between the first `start` and the following `end`.
pub fn between(s: &str, start: &str, end: &str) -> (r: Option<String>)
    ensures
        opt_string_view(r) == between_spec(s@, start@, end@),
{
    let sv = chars_of(s);
    let st = chars_of(start);
    let en = chars_of(end);
    match find_from(&sv, &st, 0) {
        None => {
            proof {
                if exists|a: int| first_occurrence(s@, start@, 0, a) {
                    let a = choose|a: int| first_occurrence(s@, start@, 0, a);
                    assert(!occurs_at(s@, start@, a));
                }
            }
            None
        },
        Some(a) => {
            proof {
                let c = choose|c: int| first_occurrence(s@, start@, 0, c);
                lemma_first_occurrence_unique(s@, start@, 0, a as int, c);
            }
            assert(occurs_at(sv@, st@, a as int));
            assert(a + st@.len() <= sv@.len());
            assert(sv@.len() == sv.len());
            assert(st@.len() == st.len());
            let from = a + st.len();
            match find_from(&sv, &en, from) {
                None => {
                    proof {
                        if exists|b: int| first_occurrence(s@, end@, from as int, b) {
                            let b = choose|b: int| first_occurrence(s@, end@, from as int, b);
                            assert(!occurs_at(s@, end@, b));
                        }
                    }
                    None
                },
                Some(b) => {
                    proof {
                        let c = choose|c: int| first_occurrence(s@, end@, from as int, c);
                        lemma_first_occurrence_unique(s@, end@, from as int, b as int, c);
                    }
                    let mut out: Vec<char> = Vec::new();
                    let mut k = from;
                    while k < b
                        invariant
                            from <= k <= b <= sv.len(),
                            out@ == sv@.subrange(from as int, k as int),
                        decreases b - k,
                    {
                        out.push(sv[k]);
                        assert(sv@.subrange(from as int, k as int).push(sv@[k as int])
                            == sv@.subrange(from as int, k + 1));
                        k += 1;
                    }
                    Some(string_from_chars(&out))
                },
            }
        },
    }
}

/// `text.split_inclusive('\n')`: every piece ends with its line break, except a last piece
/// without one.
pub open spec fn paragraphs(s: Seq<char>) -> Seq<Seq<char>>
    decreases s.len(),
{
    if s.len() == 0 {
        seq![]
    } else {
        let p = paragraphs(s.drop_last());
        if p.len() > 0 && p.last().len() > 0 && p.last().last() != '\n' {
            p.update(p.len() - 1, p.last().push(s.last()))
        } else {
            p.push(seq![s.last()])
        }
    }
}

/// Paragraphs are appended to the current chunk; a new chunk starts when the current one
/// is not empty and would grow beyond `CHUNK` characters.
pub open spec fn chunk_paragraphs_spec(paras: Seq<Seq<char>>) -> Seq<Seq<char>>
    decreases paras.len(),
{
    if paras.len() == 0 {
        seq![seq![]]
    } else {
        let c = chunk_paragraphs_spec(paras.drop_last());
        let p = paras.last();
        if c.last().len() + p.len() > CHUNK && c.last().len() > 0 {
            c.push(p)
        } else {
            c.update(c.len() - 1, c.last() + p)
        }
    }
}

/// All chunks concatenated.
pub open spec fn flatten(cs: Seq<Seq<char>>) -> Seq<char>
    decreases cs.len(),
{
    if cs.len() == 0 {
        seq![]
    } else {
        flatten(cs.drop_last()) + cs.last()
    }
}

proof fn lemma_flatten_update_last(cs: Seq<Seq<char>>, x: Seq<char>)
    requires
        cs.len() > 0,
    ensures
        flatten(cs.update(cs.len() - 1, x)) == flatten(cs.drop_last()) + x,
        flatten(cs) == flatten(cs.drop_last()) + cs.last(),
{
    let u = cs.update(cs.len() - 1, x);
    assert(u.drop_last() == cs.drop_last());
}

proof fn lemma_flatten_push(cs: Seq<Seq<char>>, x: Seq<char>)
    ensures
        flatten(cs.push(x)) == flatten(cs) + x,
{
    assert(cs.push(x).drop_last() == cs);
}

/// Splitting at line breaks loses nothing: the paragraphs put back together are the text.
pub proof fn law_paragraphs_rejoin(s: Seq<char>)
    ensures
        flatten(paragraphs(s)) == s,
    decreases s.len(),
{
    if s.len() > 0 {
        law_paragraphs_rejoin(s.drop_last());
        let p = paragraphs(s.drop_last());
        if p.len() > 0 && p.last().len() > 0 && p.last().last() != '\n' {
            lemma_flatten_update_last(p, p.last().push(s.last()));
            assert(flatten(p.drop_last()) + p.last().push(s.last()) == (flatten(p.drop_last())
                + p.last()).push(s.last()));
        } else {
            lemma_flatten_push(p, seq![s.last()]);
        }
        assert(s.drop_last().push(s.last()) == s);
    }
}

/// Chunking only groups paragraphs: the chunks put back together are the paragraphs.
pub proof fn law_chunks_rejoin(ps: Seq<Seq<char>>)
    ensures
        flatten(chunk_paragraphs_spec(ps)) == flatten(ps),
    decreases ps.len(),
{
    if ps.len() == 0 {
        assert(flatten(seq![Seq::<char>::empty()]) == Seq::<char>::empty()) by {
            let one = seq![Seq::<char>::empty()];
            assert(one.drop_last() == Seq::<Seq<char>>::empty());
            assert(flatten(one.drop_last()) == Seq::<char>::empty());
            assert(one.last() == Seq::<char>::empty());
        }
    } else {
        law_chunks_rejoin(ps.drop_last());
        lemma_chunks_nonempty(ps.drop_last());
        let c = chunk_paragraphs_spec(ps.drop_last());
        let p = ps.last();
        lemma_flatten_update_last(ps, p);
        assert(ps.update(ps.len() - 1, p) == ps);
        if c.last().len() + p.len() > CHUNK && c.last().len() > 0 {
            lemma_flatten_push(c, p);
        } else {
            lemma_flatten_update_last(c, c.last() + p);
            assert(flatten(c.drop_last()) + (c.last() + p) == (flatten(c.drop_last()) + c.last())
                + p);
        }
    }
}

/// Translating a long text chunk by chunk covers exactly the text: the chunks of `text`,
/// concatenated, are `text`.
pub proof fn law_chunking_loses_nothing(text: Seq<char>)
    ensures
        flatten(chunk_paragraphs_spec(paragraphs(text))) == text,
{
    law_chunks_rejoin(paragraphs(text));
    law_paragraphs_rejoin(text);
}

/// A chunk is longer than `CHUNK` characters only when it is one paragraph on its own.
pub proof fn law_chunk_size(ps: Seq<Seq<char>>, i: int)
    requires
        0 <= i < chunk_paragraphs_spec(ps).len(),
        chunk_paragraphs_spec(ps)[i].len() > CHUNK,
    ensures
        exists|k: int| 0 <= k < ps.len() && ps[k] == chunk_paragraphs_spec(ps)[i],
    decreases ps.len(),
{
    if ps.len() == 0 {
        assert(chunk_paragraphs_spec(ps)[i].len() == 0);
    } else {
        let q = ps.drop_last();
        lemma_chunks_nonempty(q);
        let c = chunk_paragraphs_spec(q);
        let p = ps.last();
        if c.last().len() + p.len() > CHUNK && c.last().len() > 0 {
            if i < c.len() {
                law_chunk_size(q, i);
                let k = choose|k: int| 0 <= k < q.len() && q[k] == c[i];
                assert(ps[k] == q[k]);
            } else {
                assert(ps[ps.len() - 1] == p);
            }
        } else {
            if i < c.len() - 1 {
                law_chunk_size(q, i);
                let k = choose|k: int| 0 <= k < q.len() && q[k] == c[i];
                assert(ps[k] == q[k]);
            } else {
                if c.last().len() == 0 {
                    assert(c.last() + p == p);
                    assert(ps[ps.len() - 1] == p);
                } else {
                    assert((c.last() + p).len() <= CHUNK);
                }
            }
        }
    }
}

/// Chunks are packed greedily: any two neighbouring chunks together are longer than
/// `CHUNK`, so a chunk is closed only when the next paragraph no longer fits into it.
pub proof fn law_chunks_are_packed(ps: Seq<Seq<char>>)
    ensures
        forall|i: int|
            0 <= i < chunk_paragraphs_spec(ps).len() - 1 ==> #[trigger] chunk_paragraphs_spec(
                ps,
            )[i].len() + chunk_paragraphs_spec(ps)[i + 1].len() > CHUNK,
    decreases ps.len(),
{
    if ps.len() > 0 {
        let q = ps.drop_last();
        law_chunks_are_packed(q);
        lemma_chunks_nonempty(q);
        let c = chunk_paragraphs_spec(q);
        let p = ps.last();
        let r = chunk_paragraphs_spec(ps);
        if c.last().len() + p.len() > CHUNK && c.last().len() > 0 {
            assert forall|i: int| 0 <= i < r.len() - 1 implies #[trigger] r[i].len() + r[i
                + 1].len() > CHUNK by {
                if i < c.len() - 1 {
                    assert(r[i] == c[i] && r[i + 1] == c[i + 1]);
                } else {
                    assert(r[i] == c.last() && r[i + 1] == p);
                }
            }
        } else {
            assert forall|i: int| 0 <= i < r.len() - 1 implies #[trigger] r[i].len() + r[i
                + 1].len() > CHUNK by {
                assert(r[i] == c[i]);
                if i + 1 < c.len() - 1 {
                    assert(r[i + 1] == c[i + 1]);
                } else {
                    assert(r[i + 1] == c.last() + p);
                    assert(c[i].len() + c[i + 1].len() > CHUNK);
                }
            }
        }
    }
}

pub proof fn lemma_chunks_nonempty(paras: Seq<Seq<char>>)
    ensures
        chunk_paragraphs_spec(paras).len() > 0,
    decreases paras.len(),
{
    if paras.len() > 0 {
        lemma_chunks_nonempty(paras.drop_last());
    }
}

/// Paragraphs of `s` followed by those of one more character.
fn paragraphs_of(v: &Vec<char>) -> (r: Vec<Vec<char>>)
    ensures
        r@.len() == paragraphs(v@).len(),
        forall|i: int| 0 <= i < r@.len() ==> (#[trigger] r@[i])@ == paragraphs(v@)[i],
{
    let mut out: Vec<Vec<char>> = Vec::new();
    let mut i: usize = 0;
    while i < v.len()
        invariant
            i <= v.len(),
            out@.len() == paragraphs(v@.take(i as int)).len(),
            forall|k: int| 0 <= k < out@.len() ==> (#[trigger] out@[k])@ == paragraphs(
                v@.take(i as int),
            )[k],
        decreases v.len() - i,
    {
        let ghost p = v@.take(i as int);
        let ghost ps = paragraphs(p);
        assert(v@.take(i + 1).drop_last() == p);
        assert(v@.take(i + 1).last() == v@[i as int]);
        let c = v[i];
        let n = out.len();
        let extend = n > 0 && out[n - 1].len() > 0 && out[n - 1][out[n - 1].len() - 1] != '\n';
        if extend {
            let mut last = out.pop().unwrap();
            last.push(c);
            out.push(last);
            assert(forall|k: int|
                0 <= k < out@.len() ==> (#[trigger] out@[k])@ == ps.update(
                    ps.len() - 1,
                    ps.last().push(c),
                )[k]);
        } else {
            let mut fresh: Vec<char> = Vec::new();
            fresh.push(c);
            out.push(fresh);
            assert(fresh@ == seq![c]);
            assert(forall|k: int|
                0 <= k < out@.len() ==> (#[trigger] out@[k])@ == ps.push(seq![c])[k]);
        }
        i += 1;
    }
    assert(v@.take(v.len() as int) == v@);
    out
}

/// Splits long text by paragraphs into chunks of at most `CHUNK` characters; a single
/// longer paragraph stays whole.
pub fn chunk_paragraphs(text: &str) -> (r: Vec<String>)
    ensures
        r@.len() == chunk_paragraphs_spec(paragraphs(text@)).len(),
        forall|i: int| 0 <= i < r@.len() ==> (#[trigger] r@[i])@ == chunk_paragraphs_spec(
            paragraphs(text@),
        )[i],
        forall|i: int| 0 <= i < r@.len() - 1 ==> (#[trigger] r@[i])@.len() + r@[i + 1]@.len() > CHUNK,
{
    proof {
        law_chunks_are_packed(paragraphs(text@));
    }
    let v = chars_of(text);
    let paras = paragraphs_of(&v);
    let ghost ps = paragraphs(text@);
    let mut chunks: Vec<Vec<char>> = Vec::new();
    chunks.push(Vec::new());
    let mut lens: Vec<usize> = Vec::new();
    lens.push(0);
    let mut i: usize = 0;
    assert(chunks@[0]@ == Seq::<char>::empty());
    assert(ps.take(0) == Seq::<Seq<char>>::empty());
    while i < paras.len()
        invariant
            i <= paras.len(),
            paras@.len() == ps.len(),
            forall|k: int| 0 <= k < paras@.len() ==> (#[trigger] paras@[k])@ == ps[k],
            chunks@.len() == chunk_paragraphs_spec(ps.take(i as int)).len(),
            chunks@.len() > 0,
            forall|k: int| 0 <= k < chunks@.len() ==> (#[trigger] chunks@[k])@
                == chunk_paragraphs_spec(ps.take(i as int))[k],
        decreases paras.len() - i,
    {
        let ghost cs = chunk_paragraphs_spec(ps.take(i as int));
        assert(ps.take(i + 1).drop_last() == ps.take(i as int));
        assert(ps.take(i + 1).last() == ps[i as int]);
        let p = &paras[i];
        let n = chunks.len();
        let last_len = chunks[n - 1].len();
        if last_len > 0 && (p.len() > CHUNK || last_len > CHUNK - p.len()) {
            let fresh = p.clone();
            chunks.push(fresh);
            assert(forall|k: int| 0 <= k < chunks@.len() ==> (#[trigger] chunks@[k])@ == cs.push(
                ps[i as int],
            )[k]);
        } else {
            let mut last = chunks.pop().unwrap();
            let mut k: usize = 0;
            let ghost before = last@;
            while k < p.len()
                invariant
                    k <= p.len(),
                    last@ == before + p@.take(k as int),
                decreases p.len() - k,
            {
                last.push(p[k]);
                assert(before + p@.take(k + 1) == (before + p@.take(k as int)).push(p@[k as int]));
                k += 1;
            }
            assert(p@.take(p.len() as int) == p@);
            chunks.push(last);
            assert(forall|k: int| 0 <= k < chunks@.len() ==> (#[trigger] chunks@[k])@ == cs.update(
                cs.len() - 1,
                cs.last() + ps[i as int],
            )[k]);
        }
        i += 1;
    }
    assert(ps.take(paras.len() as int) == ps);
    let mut out: Vec<String> = Vec::new();
    let mut j: usize = 0;
    while j < chunks.len()
        invariant
            j <= chunks.len(),
            out@.len() == j,
            forall|k: int| 0 <= k < j ==> (#[trigger] out@[k])@ == chunks@[k]@,
        decreases chunks.len() - j,
    {
        out.push(string_from_chars(&chunks[j]));
        j += 1;
    }
    out
}

/// The languages the local guess can name, as the detector reports them.
#[derive(Clone, Copy, Debug, PartialEq, Eq, Structural)]
pub enum GuessedLang {
    English,
    Russian,
    Ukrainian,
    Belarusian,
    German,
    French,
    Spanish,
    Italian,
    Portuguese,
    Polish,
    Turkish,
    Dutch,
    Swedish,
    Czech,
    Japanese,
    Korean,
    Chinese,
    Arabic,
    Hebrew,
    /// Any other language.
    Other,
}

/// The ISO 639-1 code of a guessed language.
pub open spec fn iso_code(l: GuessedLang) -> Option<Seq<char>> {
    match l {
        GuessedLang::English => Some("en"@),
        GuessedLang::Russian => Some("ru"@),
        GuessedLang::Ukrainian => Some("uk"@),
        GuessedLang::Belarusian => Some("be"@),
        GuessedLang::German => Some("de"@),
        GuessedLang::French => Some("fr"@),
        GuessedLang::Spanish => Some("es"@),
        GuessedLang::Italian => Some("it"@),
        GuessedLang::Portuguese => Some("pt"@),
        GuessedLang::Polish => Some("pl"@),
        GuessedLang::Turkish => Some("tr"@),
        GuessedLang::Dutch => Some("nl"@),
        GuessedLang::Swedish => Some("sv"@),
        GuessedLang::Czech => Some("cs"@),
        GuessedLang::Japanese => Some("ja"@),
        GuessedLang::Korean => Some("ko"@),
        GuessedLang::Chinese => Some("zh"@),
        GuessedLang::Arabic => Some("ar"@),
        GuessedLang::Hebrew => Some("he"@),
        GuessedLang::Other => None,
    }
}

pub fn iso_code_of(l: GuessedLang) -> (r: Option<&'static str>)
    ensures
        opt_str_view(r) == iso_code(l),
{
    match l {
        GuessedLang::English => Some("en"),
        GuessedLang::Russian => Some("ru"),
        GuessedLang::Ukrainian => Some("uk"),
        GuessedLang::Belarusian => Some("be"),
        GuessedLang::German => Some("de"),
        GuessedLang::French => Some("fr"),
        GuessedLang::Spanish => Some("es"),
        GuessedLang::Italian => Some("it"),
        GuessedLang::Portuguese => Some("pt"),
        GuessedLang::Polish => Some("pl"),
        GuessedLang::Turkish => Some("tr"),
        GuessedLang::Dutch => Some("nl"),
        GuessedLang::Swedish => Some("sv"),
        GuessedLang::Czech => Some("cs"),
        GuessedLang::Japanese => Some("ja"),
        GuessedLang::Korean => Some("ko"),
        GuessedLang::Chinese => Some("zh"),
        GuessedLang::Arabic => Some("ar"),
        GuessedLang::Hebrew => Some("he"),
        GuessedLang::Other => None,
    }
}

/// The local guess from what the detector found: short Cyrillic text is taken for Russian
/// unless Ukrainian or Belarusian is sure (confidence at least 0.8); other scripts need a
/// confidence of at least 0.3.
pub fn guess_from_detection(
    lang: GuessedLang,
    cyrillic: bool,
    confidence_at_least_0_8: bool,
    confidence_at_least_0_3: bool,
) -> (r: Option<&'static str>)
    ensures
        opt_str_view(r) == (if cyrillic {
            if (lang == GuessedLang::Ukrainian || lang == GuessedLang::Belarusian)
                && confidence_at_least_0_8 {
                iso_code(lang)
            } else {
                Some("ru"@)
            }
        } else if confidence_at_least_0_3 {
            iso_code(lang)
        } else {
            None
        }),
{
    if cyrillic {
        match lang {
            GuessedLang::Ukrainian | GuessedLang::Belarusian => {
                if confidence_at_least_0_8 {
                    return iso_code_of(lang);
                }
                Some("ru")
            },
            _ => Some("ru"),
        }
    } else if confidence_at_least_0_3 {
        iso_code_of(lang)
    } else {
        None
    }
}

} // verus!
