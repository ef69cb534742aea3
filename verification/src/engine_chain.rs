//! The engine chain: engines are asked in order until one answers, and the first failure
//! is kept to explain the fallback. Also what each engine's reply means as a translation,
//! the Bing session keys scraped from its page, and translating long text chunk by chunk.
//! The requests themselves are made outside.

use vstd::prelude::*;
use crate::engines::{
    between, between_spec, chunk_paragraphs, chunk_paragraphs_spec, opt_str_view, opt_string_view,
    paragraphs, Alternative, Translation, CHUNK,
};
use crate::ocr::{decimal, decimal_string};
use crate::text::{chars_of, string_from_chars, trim, trim_chars};

verus! {

pub const EMPTY_REPLY: &'static str = "пустой ответ";

pub const UNKNOWN_ENGINE: &'static str = "неизвестный движок ";

pub const NO_ENGINE: &'static str = "нет ни одного движка";

pub const HTTP_PREFIX: &'static str = "HTTP ";

pub const NO_IG: &'static str = "нет IG на странице";

pub const NO_TOKEN: &'static str = "нет токена на странице";

pub const NO_TOKEN_PART: &'static str = "нет token";

/// The engines the chain can call.
#[derive(Clone, Copy, Debug, PartialEq, Eq, Structural)]
pub enum EngineKind {
    Google,
    Bing,
    MyMemory,
}

pub open spec fn engine_of(name: Seq<char>) -> Option<EngineKind> {
    if name == "google"@ {
        Some(EngineKind::Google)
    } else if name == "bing"@ {
        Some(EngineKind::Bing)
    } else if name == "mymemory"@ {
        Some(EngineKind::MyMemory)
    } else {
        None
    }
}

fn same(a: &str, b: &str) -> (r: bool)
    ensures
        r == (a@ == b@),
{
    let x = a.to_owned();
    let y = b.to_owned();
    x == y
}

pub fn engine_kind(name: &str) -> (r: Option<EngineKind>)
    ensures
        r == engine_of(name@),
{
    if same(name, "google") {
        Some(EngineKind::Google)
    } else if same(name, "bing") {
        Some(EngineKind::Bing)
    } else if same(name, "mymemory") {
        Some(EngineKind::MyMemory)
    } else {
        None
    }
}

/// "name: error", how a failed engine is named in the fallback note.
pub open spec fn failure_note(name: Seq<char>, error: Seq<char>) -> Seq<char> {
    name + ": "@ + error
}

/// The engines of `order` are tried one after another; `failures` lists the notes of the
/// engines that failed so far, in order.
pub struct EngineChain {
    pub order: Vec<String>,
    pub next: usize,
    pub current: Option<String>,
    pub first_error: Option<String>,
    pub failures: Ghost<Seq<Seq<char>>>,
    pub answered: bool,
}

impl EngineChain {
    /// The first failure is the one that is reported.
    pub open spec fn wf(&self) -> bool {
        &&& self.next <= self.order@.len()
        &&& opt_string_view(self.first_error) == (if self.failures@.len() == 0 {
            None
        } else {
            Some(self.failures@[0])
        })
    }

    pub fn new(order: Vec<String>) -> (c: Self)
        ensures
            c.wf(),
            c.order@ == order@,
            c.next == 0,
            c.current is None,
            c.failures@.len() == 0,
            !c.answered,
    {
        EngineChain {
            order,
            next: 0,
            current: None,
            first_error: None,
            failures: Ghost(Seq::empty()),
            answered: false,
        }
    }

    /// The next engine to ask. Names the chain cannot call are skipped, each counted as a
    /// failure; `None` once the order is exhausted or an engine answered.
    pub fn next_call(&mut self) -> (r: Option<EngineKind>)
        requires
            old(self).wf(),
        ensures
            final(self).wf(),
            final(self).order@ == old(self).order@,
            final(self).answered == old(self).answered,
            old(self).answered ==> r is None && final(self).failures@ == old(self).failures@,
            !old(self).answered ==> match r {
                Some(k) => {
                    &&& old(self).next <= final(self).next - 1
                    &&& final(self).current matches Some(n) && n == old(self).order@[final(self).next - 1]
                        && engine_of(n@) == Some(k)
                    &&& forall|i: int|
                        old(self).next <= i < final(self).next - 1 ==> engine_of(
                            #[trigger] old(self).order@[i]@,
                        ) is None
                    &&& final(self).failures@ == old(self).failures@ + Seq::new(
                        (final(self).next - 1 - old(self).next) as nat,
                        |i: int|
                            failure_note(
                                old(self).order@[old(self).next + i]@,
                                UNKNOWN_ENGINE@ + old(self).order@[old(self).next + i]@,
                            ),
                    )
                },
                None => {
                    &&& final(self).next == old(self).order@.len()
                    &&& forall|i: int|
                        old(self).next <= i < old(self).order@.len() ==> engine_of(
                            #[trigger] old(self).order@[i]@,
                        ) is None
                    &&& final(self).failures@ == old(self).failures@ + Seq::new(
                        (old(self).order@.len() - old(self).next) as nat,
                        |i: int|
                            failure_note(
                                old(self).order@[old(self).next + i]@,
                                UNKNOWN_ENGINE@ + old(self).order@[old(self).next + i]@,
                            ),
                    )
                },
            },
    {
        if self.answered {
            return None;
        }
        let ghost start = self.next;
        let ghost f0 = self.failures@;
        let ghost o = self.order@;
        while self.next < self.order.len()
            invariant_except_break
                self.order@ == o,
                start <= self.next <= self.order@.len(),
                self.wf(),
                !self.answered,
                forall|i: int| start <= i < self.next ==> engine_of(#[trigger] self.order@[i]@) is None,
                self.failures@ == f0 + Seq::new(
                    (self.next - start) as nat,
                    |i: int|
                        failure_note(self.order@[start + i]@, UNKNOWN_ENGINE@ + self.order@[start + i]@),
                ),
            ensures
                self.order@ == o,
                self.wf(),
                !self.answered,
                start <= self.next <= self.order@.len(),
                forall|i: int| start <= i < self.next ==> engine_of(#[trigger] self.order@[i]@) is None,
                self.failures@ == f0 + Seq::new(
                    (self.next - start) as nat,
                    |i: int|
                        failure_note(self.order@[start + i]@, UNKNOWN_ENGINE@ + self.order@[start + i]@),
                ),
                self.next < self.order@.len() ==> engine_of(self.order@[self.next as int]@) is Some,
            decreases self.order.len() - self.next,
        {
            let i = self.next;
            match engine_kind(self.order[i].as_str()) {
                Some(_) => {
                    break;
                },
                None => {
                    let name = self.order[i].clone();
                    let mut e = UNKNOWN_ENGINE.to_owned();
                    e.append(name.as_str());
                    self.record_failure(name.as_str(), e.as_str());
                    self.next = i + 1;
                    assert(self.failures@ =~= f0 + Seq::new(
                        (self.next - start) as nat,
                        |i: int|
                            failure_note(
                                self.order@[start + i]@,
                                UNKNOWN_ENGINE@ + self.order@[start + i]@,
                            ),
                    ));
                },
            }
        }
        if self.next < self.order.len() {
            let i = self.next;
            let name = self.order[i].clone();
            let k = engine_kind(name.as_str());
            self.current = Some(name);
            self.next = i + 1;
            k
        } else {
            None
        }
    }

    fn record_failure(&mut self, name: &str, error: &str)
        requires
            old(self).wf(),
        ensures
            final(self).wf(),
            final(self).failures@ == old(self).failures@.push(failure_note(name@, error@)),
            final(self).order@ == old(self).order@,
            final(self).next == old(self).next,
            final(self).current == old(self).current,
            final(self).answered == old(self).answered,
    {
        if self.first_error.is_none() {
            let mut note = name.to_owned();
            note.append(": ");
            note.append(error);
            self.first_error = Some(note);
        }
        proof {
            self.failures@ = self.failures@.push(failure_note(name@, error@));
        }
    }

    /// The answer of the engine named by the last `next_call`: a translation ends the chain
    /// and carries the first failure as its fallback note; a failure is recorded.
    pub fn on_result(&mut self, r: Result<Translation, String>) -> (t: Option<Translation>)
        requires
            old(self).wf(),
            old(self).current is Some,
            !old(self).answered,
        ensures
            final(self).wf(),
            final(self).order@ == old(self).order@,
            final(self).next == old(self).next,
            match r {
                Ok(tr) => {
                    &&& t matches Some(x)
                    &&& x == Translation { fallback_from: old(self).first_error, ..tr }
                    &&& final(self).answered
                    &&& final(self).failures@ == old(self).failures@
                },
                Err(e) => {
                    &&& t is None
                    &&& !final(self).answered
                    &&& final(self).failures@ == old(self).failures@.push(
                        failure_note(old(self).current->0@, e@),
                    )
                },
            },
    {
        match r {
            Ok(tr) => {
                self.answered = true;
                Some(Translation { fallback_from: self.first_error.clone(), ..tr })
            },
            Err(e) => {
                let name = match &self.current {
                    Some(n) => n.clone(),
                    None => String::new(),
                };
                self.record_failure(name.as_str(), e.as_str());
                None
            },
        }
    }

    /// Why the chain found no translation: the first failure, or that there was no engine.
    pub fn failure(&self) -> (m: String)
        requires
            self.wf(),
        ensures
            m@ == (if self.failures@.len() == 0 {
                NO_ENGINE@
            } else {
                self.failures@[0]
            }),
    {
        match &self.first_error {
            Some(e) => e.clone(),
            None => NO_ENGINE.to_owned(),
        }
    }
}

/// The reported failure is always the first one: later failures never replace it.
pub proof fn law_first_failure_is_reported(failures: Seq<Seq<char>>, later: Seq<char>)
    requires
        failures.len() > 0,
    ensures
        failures.push(later)[0] == failures[0],
{
}

/// A success status is 200 to 299; anything else is reported as "HTTP <code>".
pub fn http_status_error(status: u16) -> (r: Option<String>)
    ensures
        200 <= status <= 299 ==> r is None,
        !(200 <= status <= 299) ==> (r matches Some(m) && m@ == HTTP_PREFIX@ + decimal(
            status as nat,
        )),
{
    if status >= 200 && status <= 299 {
        None
    } else {
        let mut m = HTTP_PREFIX.to_owned();
        m.append(decimal_string(status as u64).as_str());
        Some(m)
    }
}

/// The texts among the values that are strings, in order.
pub open spec fn present(v: Seq<Option<String>>) -> Seq<Seq<char>>
    decreases v.len(),
{
    if v.len() == 0 {
        Seq::empty()
    } else {
        match v.last() {
            Some(s) => present(v.drop_last()).push(s@),
            None => present(v.drop_last()),
        }
    }
}

pub open spec fn concat(v: Seq<Seq<char>>) -> Seq<char>
    decreases v.len(),
{
    if v.len() == 0 {
        Seq::empty()
    } else {
        concat(v.drop_last()) + v.last()
    }
}

pub open spec fn or_empty(o: Option<String>) -> Seq<char> {
    match o {
        Some(s) => s@,
        None => Seq::empty(),
    }
}

/// One dictionary entry of a Google reply: part of speech and terms, each as the reply
/// holds it (`None` where the value is not a string).
#[derive(Clone, Debug)]
pub struct DictEntry {
    pub pos: Option<String>,
    pub terms: Vec<Option<String>>,
}

/// What the Google reply says: the translated pieces of the sentences, the dictionary and
/// the detected language.
#[derive(Clone, Debug)]
pub struct GoogleReply {
    pub sentences: Vec<Option<String>>,
    pub dict: Vec<DictEntry>,
    pub src: Option<String>,
}

/// What the Bing reply says: the first translation's text and the detected language.
#[derive(Clone, Debug)]
pub struct BingReply {
    pub text: Option<String>,
    pub detected: Option<String>,
}

/// What the MyMemory reply says.
#[derive(Clone, Debug)]
pub struct MyMemoryReply {
    pub translated: Option<String>,
    pub status: Option<u64>,
    pub details: Option<String>,
}

fn strings_of(v: &Vec<Option<String>>) -> (r: Vec<String>)
    ensures
        r@.map_values(|s: String| s@) == present(v@),
{
    let mut out: Vec<String> = Vec::new();
    let mut i: usize = 0;
    while i < v.len()
        invariant
            i <= v@.len(),
            out@.map_values(|s: String| s@) == present(v@.take(i as int)),
        decreases v.len() - i,
    {
        assert(v@.take(i + 1).drop_last() == v@.take(i as int));
        match &v[i] {
            Some(s) => {
                out.push(s.clone());
            },
            None => {},
        }
        assert(out@.map_values(|s: String| s@) == present(v@.take(i + 1)));
        i += 1;
    }
    assert(v@.take(v@.len() as int) == v@);
    out
}

fn joined(v: &Vec<Option<String>>) -> (r: String)
    ensures
        r@ == concat(present(v@)),
{
    let mut out = String::new();
    let mut i: usize = 0;
    while i < v.len()
        invariant
            i <= v@.len(),
            out@ == concat(present(v@.take(i as int))),
        decreases v.len() - i,
    {
        assert(v@.take(i + 1).drop_last() == v@.take(i as int));
        assert(v@.take(i + 1).last() == v@[i as int]);
        match &v[i] {
            Some(s) => {
                out.append(s.as_str());
                assert(present(v@.take(i + 1)) == present(v@.take(i as int)).push(s@));
                assert(present(v@.take(i as int)).push(s@).drop_last() == present(
                    v@.take(i as int),
                ));
            },
            None => {
                assert(present(v@.take(i + 1)) == present(v@.take(i as int)));
            },
        }
        i += 1;
    }
    assert(v@.take(v@.len() as int) == v@);
    out
}

fn text_or_empty(o: &Option<String>) -> (r: String)
    ensures
        r@ == or_empty(*o),
{
    match o {
        Some(s) => s.clone(),
        None => String::new(),
    }
}

/// A dictionary entry as an alternative: a missing part of speech is empty, non-string
/// terms are dropped.
pub open spec fn alternative_ok(a: Alternative, d: DictEntry) -> bool {
    a.pos@ == or_empty(d.pos) && a.terms@.map_values(|s: String| s@) == present(d.terms@)
}

/// The Google reply as a translation: the sentence pieces joined; no text is an error.
pub fn google_translation(reply: &GoogleReply, target: &str) -> (r: Result<Translation, String>)
    ensures
        concat(present(reply.sentences@)).len() == 0 ==> (r matches Err(m) && m@ == EMPTY_REPLY@),
        concat(present(reply.sentences@)).len() > 0 ==> (r matches Ok(t) && t.text@ == concat(
            present(reply.sentences@),
        ) && t.detected@ == or_empty(reply.src) && t.target@ == target@ && t.engine@ == "google"@
            && t.fallback_from is None && t.alternatives@.len() == reply.dict@.len() && forall|
            i: int,
        | 0 <= i < reply.dict@.len() ==> alternative_ok(
            #[trigger] t.alternatives@[i],
            reply.dict@[i],
        )),
{
    let text = joined(&reply.sentences);
    proof {
        crate::policy::lemma_byte_len_zero(text@);
    }
    if crate::policy::utf8_len(text.as_str()) == 0 {
        return Err(EMPTY_REPLY.to_owned());
    }
    let mut alternatives: Vec<Alternative> = Vec::new();
    let mut i: usize = 0;
    while i < reply.dict.len()
        invariant
            i <= reply.dict@.len(),
            alternatives@.len() == i,
            forall|k: int| 0 <= k < i ==> alternative_ok(#[trigger] alternatives@[k], reply.dict@[k]),
        decreases reply.dict.len() - i,
    {
        let d = &reply.dict[i];
        let a = Alternative { pos: text_or_empty(&d.pos), terms: strings_of(&d.terms) };
        alternatives.push(a);
        i += 1;
    }
    Ok(Translation {
        text,
        detected: text_or_empty(&reply.src),
        target: target.to_owned(),
        engine: "google".to_owned(),
        alternatives,
        fallback_from: None,
    })
}

/// The Bing reply as a translation; a missing or empty text is an error.
pub fn bing_translation(reply: &BingReply, target: &str) -> (r: Result<Translation, String>)
    ensures
        or_empty(reply.text).len() == 0 ==> (r matches Err(m) && m@ == EMPTY_REPLY@),
        or_empty(reply.text).len() > 0 ==> (r matches Ok(t) && t.text@ == or_empty(reply.text)
            && t.detected@ == or_empty(reply.detected) && t.target@ == target@ && t.engine@
            == "bing"@ && t.alternatives@.len() == 0 && t.fallback_from is None),
{
    let text = text_or_empty(&reply.text);
    proof {
        crate::policy::lemma_byte_len_zero(text@);
    }
    if crate::policy::utf8_len(text.as_str()) == 0 {
        return Err(EMPTY_REPLY.to_owned());
    }
    Ok(Translation {
        text,
        detected: text_or_empty(&reply.detected),
        target: target.to_owned(),
        engine: "bing".to_owned(),
        alternatives: Vec::new(),
        fallback_from: None,
    })
}

/// The MyMemory reply as a translation: an empty text or status 403 is an error, told by
/// the reply's details when it has them.
pub fn mymemory_translation(reply: &MyMemoryReply, source: &str, target: &str) -> (r: Result<
    Translation,
    String,
>)
    ensures
        (or_empty(reply.translated).len() == 0 || reply.status == Some(403u64)) ==> (r matches Err(
            m,
        ) && m@ == (match reply.details {
            Some(d) => d@,
            None => EMPTY_REPLY@,
        })),
        !(or_empty(reply.translated).len() == 0 || reply.status == Some(403u64)) ==> (r matches Ok(
            t,
        ) && t.text@ == or_empty(reply.translated) && t.detected@ == source@ && t.target@
            == target@ && t.engine@ == "mymemory"@ && t.alternatives@.len() == 0
            && t.fallback_from is None),
{
    let text = text_or_empty(&reply.translated);
    proof {
        crate::policy::lemma_byte_len_zero(text@);
    }
    let forbidden = match reply.status {
        Some(s) => s == 403,
        None => false,
    };
    if crate::policy::utf8_len(text.as_str()) == 0 || forbidden {
        return Err(
            match &reply.details {
                Some(d) => d.clone(),
                None => EMPTY_REPLY.to_owned(),
            },
        );
    }
    Ok(Translation {
        text,
        detected: source.to_owned(),
        target: target.to_owned(),
        engine: "mymemory".to_owned(),
        alternatives: Vec::new(),
        fallback_from: None,
    })
}

/// The source language MyMemory is told: the hint, else English.
pub open spec fn mymemory_source_spec(hint: Option<Seq<char>>) -> Seq<char> {
    match hint {
        Some(h) => h,
        None => "en"@,
    }
}

pub fn mymemory_source(hint: Option<&str>) -> (r: String)
    ensures
        r@ == mymemory_source_spec(opt_str_view(hint)),
{
    match hint {
        Some(h) => h.to_owned(),
        None => "en".to_owned(),
    }
}

/// The `langpair` parameter, "source|target".
pub fn mymemory_pair(source: &str, target: &str) -> (r: String)
    ensures
        r@ == source@ + "|"@ + target@,
{
    let mut p = source.to_owned();
    p.append("|");
    p.append(target);
    p
}

/// The session keys of the Bing translator page.
#[derive(Clone, Debug)]
pub struct BingKeys {
    pub ig: String,
    pub key: String,
    pub token: String,
}

/// The first position of `c` in `s`, if any.
pub open spec fn first_index(s: Seq<char>, c: char) -> Option<int> {
    if exists|i: int| 0 <= i < s.len() && s[i] == c {
        Some(choose|i: int| 0 <= i < s.len() && s[i] == c && forall|j: int| 0 <= j < i ==> s[j] != c)
    } else {
        None
    }
}

/// The piece of `s` before the first `c` (all of `s` without one).
pub open spec fn before_first(s: Seq<char>, c: char) -> Seq<char> {
    match first_index(s, c) {
        Some(i) => s.take(i),
        None => s,
    }
}

pub open spec fn lead_count(s: Seq<char>, c: char) -> nat
    decreases s.len(),
{
    if s.len() > 0 && s[0] == c {
        1 + lead_count(s.drop_first(), c)
    } else {
        0
    }
}

pub open spec fn trail_count(s: Seq<char>, c: char) -> nat
    decreases s.len(),
{
    if s.len() > 0 && s.last() == c {
        1 + trail_count(s.drop_last(), c)
    } else {
        0
    }
}

/// `s.trim_matches(c)`: every leading and trailing `c` removed.
pub open spec fn strip(s: Seq<char>, c: char) -> Seq<char> {
    let rest = s.skip(lead_count(s, c) as int);
    rest.take(rest.len() - trail_count(rest, c))
}

/// The two first values of the abuse-prevention list: the key, and the token without its
/// quotes.
pub open spec fn abuse_keys_spec(abuse: Seq<char>) -> Result<(Seq<char>, Seq<char>), Seq<char>> {
    match first_index(abuse, ',') {
        None => Err(NO_TOKEN_PART@),
        Some(c) => Ok(
            (trim(abuse.take(c)), strip(trim(before_first(abuse.skip(c + 1), ',')), '"')),
        ),
    }
}

/// The keys found on the Bing page: `IG:"…"` and the two first values of
/// `params_AbusePreventionHelper = […]`.
pub open spec fn bing_keys_spec(page: Seq<char>) -> Result<(Seq<char>, Seq<char>, Seq<char>), Seq<char>> {
    match between_spec(page, "IG:\""@, "\""@) {
        None => Err(NO_IG@),
        Some(ig) => match between_spec(page, "params_AbusePreventionHelper = ["@, "]"@) {
            None => Err(NO_TOKEN@),
            Some(abuse) => match abuse_keys_spec(abuse) {
                Err(m) => Err(m),
                Ok((key, token)) => Ok((ig, key, token)),
            },
        },
    }
}

fn index_of(v: &Vec<char>, c: char) -> (r: Option<usize>)
    ensures
        r is None <==> first_index(v@, c) is None,
        r matches Some(i) ==> first_index(v@, c) == Some(i as int) && i < v@.len(),
{
    let mut i: usize = 0;
    while i < v.len()
        invariant
            i <= v@.len(),
            forall|j: int| 0 <= j < i ==> v@[j] != c,
        decreases v.len() - i,
    {
        if v[i] == c {
            proof {
                let k = choose|k: int|
                    0 <= k < v@.len() && v@[k] == c && forall|j: int| 0 <= j < k ==> v@[j] != c;
                if k < i {
                    assert(v@[k] != c);
                }
                if k > i {
                    assert(v@[i as int] != c);
                }
            }
            return Some(i);
        }
        i += 1;
    }
    None
}

fn slice_chars(v: &Vec<char>, from: usize, to: usize) -> (r: Vec<char>)
    requires
        from <= to <= v@.len(),
    ensures
        r@ == v@.subrange(from as int, to as int),
{
    let mut out: Vec<char> = Vec::new();
    let mut k = from;
    while k < to
        invariant
            from <= k <= to <= v@.len(),
            out@ == v@.subrange(from as int, k as int),
        decreases to - k,
    {
        out.push(v[k]);
        assert(v@.subrange(from as int, k as int).push(v@[k as int]) == v@.subrange(
            from as int,
            k + 1,
        ));
        k += 1;
    }
    out
}

proof fn lemma_lead_count_bound(s: Seq<char>, c: char)
    ensures
        lead_count(s, c) <= s.len(),
        forall|i: int| 0 <= i < lead_count(s, c) ==> s[i] == c,
        lead_count(s, c) < s.len() ==> s[lead_count(s, c) as int] != c,
    decreases s.len(),
{
    if s.len() > 0 && s[0] == c {
        lemma_lead_count_bound(s.drop_first(), c);
        assert forall|i: int| 0 <= i < lead_count(s, c) implies s[i] == c by {
            if i > 0 {
                assert(s[i] == s.drop_first()[i - 1]);
            }
        }
    }
}

proof fn lemma_trail_count_bound(s: Seq<char>, c: char)
    ensures
        trail_count(s, c) <= s.len(),
        forall|i: int| s.len() - trail_count(s, c) <= i < s.len() ==> s[i] == c,
        trail_count(s, c) < s.len() ==> s[s.len() - trail_count(s, c) - 1] != c,
    decreases s.len(),
{
    if s.len() > 0 && s.last() == c {
        lemma_trail_count_bound(s.drop_last(), c);
        assert forall|i: int| s.len() - trail_count(s, c) <= i < s.len() implies s[i] == c by {
            if i < s.len() - 1 {
                assert(s[i] == s.drop_last()[i]);
            }
        }
    }
}

fn strip_chars(v: &Vec<char>, c: char) -> (r: Vec<char>)
    ensures
        r@ == strip(v@, c),
{
    proof {
        lemma_lead_count_bound(v@, c);
    }
    let mut a: usize = 0;
    while a < v.len() && v[a] == c
        invariant
            a <= v@.len(),
            a <= lead_count(v@, c),
            lead_count(v@, c) <= v@.len(),
            forall|i: int| 0 <= i < lead_count(v@, c) ==> v@[i] == c,
            lead_count(v@, c) < v@.len() ==> v@[lead_count(v@, c) as int] != c,
        decreases v.len() - a,
    {
        a += 1;
    }
    let rest = slice_chars(v, a, v.len());
    assert(rest@ == v@.skip(lead_count(v@, c) as int));
    proof {
        lemma_trail_count_bound(rest@, c);
    }
    let mut n: usize = rest.len();
    while n > 0 && rest[n - 1] == c
        invariant
            n <= rest@.len(),
            rest@.len() - n <= trail_count(rest@, c),
            trail_count(rest@, c) <= rest@.len(),
            forall|i: int| rest@.len() - trail_count(rest@, c) <= i < rest@.len() ==> rest@[i] == c,
            trail_count(rest@, c) < rest@.len() ==> rest@[rest@.len() - trail_count(rest@, c) - 1]
                != c,
        decreases n,
    {
        n -= 1;
    }
    slice_chars(&rest, 0, n)
}

/// Reads the session keys off the Bing translator page.
pub fn bing_keys(page: &str) -> (r: Result<BingKeys, String>)
    ensures
        match bing_keys_spec(page@) {
            Ok((ig, key, token)) => (r matches Ok(k) && k.ig@ == ig && k.key@ == key && k.token@
                == token),
            Err(m) => (r matches Err(e) && e@ == m),
        },
{
    let ig = match between(page, "IG:\"", "\"") {
        Some(s) => s,
        None => {
            return Err(NO_IG.to_owned());
        },
    };
    let abuse = match between(page, "params_AbusePreventionHelper = [", "]") {
        Some(s) => s,
        None => {
            return Err(NO_TOKEN.to_owned());
        },
    };
    match abuse_keys(abuse.as_str()) {
        Err(m) => Err(m),
        Ok((key, token)) => Ok(BingKeys { ig, key, token }),
    }
}

fn token_of(rest: &Vec<char>) -> (r: Vec<char>)
    ensures
        r@ == strip(trim(before_first(rest@, ',')), '"'),
{
    let token_part = match index_of(rest, ',') {
        Some(d) => {
            let p = slice_chars(rest, 0, d);
            assert(p@ == rest@.take(d as int));
            p
        },
        None => rest.clone(),
    };
    let token_trimmed = trim_chars(&token_part);
    strip_chars(&token_trimmed, '"')
}

fn abuse_keys(abuse: &str) -> (r: Result<(String, String), String>)
    ensures
        match abuse_keys_spec(abuse@) {
            Ok((key, token)) => (r matches Ok(p) && p.0@ == key && p.1@ == token),
            Err(m) => (r matches Err(e) && e@ == m),
        },
{
    let v = chars_of(abuse);
    let n = v.len();
    let c = match index_of(&v, ',') {
        Some(c) => c,
        None => {
            return Err(NO_TOKEN_PART.to_owned());
        },
    };
    let key_part = slice_chars(&v, 0, c);
    assert(key_part@ == v@.take(c as int));
    let key = trim_chars(&key_part);
    let rest = slice_chars(&v, c + 1, n);
    assert(rest@ == v@.skip(c + 1));
    let token = token_of(&rest);
    Ok((string_from_chars(&key), string_from_chars(&token)))
}

/// A long text is translated chunk by chunk: the chunks' translations are joined into the
/// first one, and dictionary alternatives are dropped. A text of at most `CHUNK`
/// characters is one request whose translation is kept as it is.
pub struct ChunkedTranslation {
    pub chunks: Vec<String>,
    pub long: bool,
    pub next: usize,
    pub acc: Option<Translation>,
}

/// The pieces a text is sent in.
pub open spec fn chunks_spec(text: Seq<char>) -> Seq<Seq<char>> {
    if text.len() <= CHUNK {
        seq![text]
    } else {
        chunk_paragraphs_spec(paragraphs(text))
    }
}

impl ChunkedTranslation {
    pub fn new(text: &str) -> (c: Self)
        ensures
            c.chunks@.map_values(|s: String| s@) == chunks_spec(text@),
            c.long == (text@.len() > CHUNK),
            c.next == 0,
            c.acc is None,
    {
        let n = chars_of(text).len();
        if n <= CHUNK {
            let mut v: Vec<String> = Vec::new();
            v.push(text.to_owned());
            assert(v@.map_values(|s: String| s@) =~= seq![text@]);
            ChunkedTranslation { chunks: v, long: false, next: 0, acc: None }
        } else {
            let v = chunk_paragraphs(text);
            assert(v@.map_values(|s: String| s@) =~= chunk_paragraphs_spec(paragraphs(text@)));
            ChunkedTranslation { chunks: v, long: true, next: 0, acc: None }
        }
    }

    /// The next piece to translate, if any is left.
    pub fn next_chunk(&self) -> (r: Option<String>)
        ensures
            self.next < self.chunks@.len() ==> (r matches Some(s) && s == self.chunks@[self.next as int]),
            self.next >= self.chunks@.len() ==> r is None,
    {
        if self.next < self.chunks.len() {
            Some(self.chunks[self.next].clone())
        } else {
            None
        }
    }

    /// Takes the translation of the current piece: the first one is kept whole, later
    /// ones add their text to it.
    pub fn on_translated(&mut self, t: Translation)
        requires
            old(self).next < old(self).chunks@.len(),
        ensures
            final(self).chunks@ == old(self).chunks@,
            final(self).long == old(self).long,
            final(self).next == old(self).next + 1,
            match old(self).acc {
                None => final(self).acc == Some(t),
                Some(a) => final(self).acc matches Some(b) && b.text@ == a.text@ + t.text@ && b
                    == Translation { text: b.text, ..a },
            },
    {
        let n = self.chunks.len();
        let acc = self.acc.take();
        self.acc = match acc {
            None => Some(t),
            Some(a) => {
                let mut text = a.text;
                text.append(t.text.as_str());
                Some(Translation { text, ..a })
            },
        };
        self.next = self.next + 1;
    }

    /// The joined translation once every piece is translated; a long text loses its
    /// dictionary alternatives.
    pub fn finish(self) -> (r: Option<Translation>)
        ensures
            match self.acc {
                None => r is None,
                Some(a) => r matches Some(b) && if self.long {
                    b == Translation { alternatives: b.alternatives, ..a } && b.alternatives@.len() == 0
                } else {
                    b == a
                },
            },
    {
        match self.acc {
            None => None,
            Some(a) => {
                if self.long {
                    Some(Translation { alternatives: Vec::new(), ..a })
                } else {
                    Some(a)
                }
            },
        }
    }
}

} // verus!
