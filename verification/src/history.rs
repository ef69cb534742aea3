//! Translation history entries and the CSV export of favorites (for Anki and
//! spreadsheets): original; translation; languages.

use vstd::prelude::*;
use crate::text::{chars_of, string_from_chars, trim_chars, trim};

verus! {

/// One saved translation.
#[derive(Clone, Debug)]
pub struct Entry {
    pub id: i64,
    pub source_text: String,
    pub result_text: String,
    pub source_lang: String,
    pub target_lang: String,
    pub engine: String,
    pub mode: String,
    pub is_favorite: bool,
    pub created_at: i64,
}

pub const CSV_HEADER: &'static str = "source;translation;from;to\n";

/// A character of a quoted CSV field: a double quote is doubled.
pub open spec fn quoted_char(c: char) -> Seq<char> {
    if c == '"' {
        seq!['"', '"']
    } else {
        seq![c]
    }
}

pub open spec fn doubled_quotes(s: Seq<char>) -> Seq<char>
    decreases s.len(),
{
    if s.len() == 0 {
        Seq::empty()
    } else {
        doubled_quotes(s.drop_last()) + quoted_char(s.last())
    }
}

/// A text as one CSV field: in double quotes, inner quotes doubled.
pub open spec fn csv_field(s: Seq<char>) -> Seq<char> {
    seq!['"'] + doubled_quotes(s) + seq!['"']
}

/// One exported line: quoted original and translation, then the two languages.
pub open spec fn csv_line(e: Entry) -> Seq<char> {
    csv_field(e.source_text@) + seq![';'] + csv_field(e.result_text@) + seq![';']
        + e.source_lang@ + seq![';'] + e.target_lang@ + seq!['\n']
}

pub open spec fn csv_rows(es: Seq<Entry>) -> Seq<char>
    decreases es.len(),
{
    if es.len() == 0 {
        Seq::empty()
    } else {
        csv_rows(es.drop_last()) + csv_line(es.last())
    }
}

/// The whole export: the header, then one line per favorite in the given order.
pub open spec fn favorites_csv_spec(es: Seq<Entry>) -> Seq<char> {
    CSV_HEADER@ + csv_rows(es)
}

fn append_chars(out: &mut Vec<char>, s: &str)
    ensures
        final(out)@ == old(out)@ + s@,
{
    let v = chars_of(s);
    let mut i: usize = 0;
    while i < v.len()
        invariant
            i <= v.len(),
            v@ == s@,
            out@ == old(out)@ + v@.take(i as int),
        decreases v.len() - i,
    {
        out.push(v[i]);
        assert(v@.take(i as int).push(v@[i as int]) == v@.take(i + 1));
        i += 1;
    }
    assert(v@.take(v.len() as int) == v@);
}

fn append_field(out: &mut Vec<char>, s: &str)
    ensures
        final(out)@ == old(out)@ + csv_field(s@),
{
    let v = chars_of(s);
    let ghost start = out@;
    out.push('"');
    let mut i: usize = 0;
    while i < v.len()
        invariant
            i <= v.len(),
            v@ == s@,
            out@ == start + seq!['"'] + doubled_quotes(v@.take(i as int)),
        decreases v.len() - i,
    {
        let c = v[i];
        if c == '"' {
            out.push('"');
            out.push('"');
        } else {
            out.push(c);
        }
        assert(v@.take(i + 1).drop_last() == v@.take(i as int));
        assert(v@.take(i + 1).last() == c);
        i += 1;
    }
    assert(v@.take(v.len() as int) == v@);
    out.push('"');
}

/// The CSV of favorites, as the export file holds it (without the byte-order mark).
pub fn favorites_csv(entries: &[Entry]) -> (r: String)
    ensures
        r@ == favorites_csv_spec(entries@),
{
    let mut out: Vec<char> = Vec::new();
    append_chars(&mut out, CSV_HEADER);
    let mut i: usize = 0;
    while i < entries.len()
        invariant
            i <= entries@.len(),
            out@ == CSV_HEADER@ + csv_rows(entries@.take(i as int)),
        decreases entries.len() - i,
    {
        let e = &entries[i];
        let ghost before = out@;
        append_field(&mut out, e.source_text.as_str());
        out.push(';');
        append_field(&mut out, e.result_text.as_str());
        out.push(';');
        append_chars(&mut out, e.source_lang.as_str());
        out.push(';');
        append_chars(&mut out, e.target_lang.as_str());
        out.push('\n');
        assert(out@ == before + csv_line(entries@[i as int]));
        assert(entries@.take(i + 1).drop_last() == entries@.take(i as int));
        i += 1;
    }
    assert(entries@.take(entries@.len() as int) == entries@);
    string_from_chars(&out)
}

/// The search pattern of the history list: the trimmed query between `%` wildcards.
pub fn like_pattern(query: &str) -> (r: String)
    ensures
        r@ == seq!['%'] + trim(query@) + seq!['%'],
{
    let v = chars_of(query);
    let t = trim_chars(&v);
    let mut out: Vec<char> = Vec::new();
    out.push('%');
    let mut i: usize = 0;
    while i < t.len()
        invariant
            i <= t.len(),
            out@ == seq!['%'] + t@.take(i as int),
        decreases t.len() - i,
    {
        out.push(t[i]);
        assert(t@.take(i as int).push(t@[i as int]) == t@.take(i + 1));
        i += 1;
    }
    assert(t@.take(t.len() as int) == t@);
    out.push('%');
    string_from_chars(&out)
}

/// The trimmed query, as the history list compares it with the empty string.
pub fn trimmed_query(query: &str) -> (r: String)
    ensures
        r@ == trim(query@),
{
    let v = chars_of(query);
    let t = trim_chars(&v);
    string_from_chars(&t)
}

} // verus!
