//! Hotkey bookkeeping: a combination may serve one action only, each field gets its own
//! status, and a pressed combination selects the first action bound to it. A parsed
//! combination is identified by an integer key.

use vstd::prelude::*;
use crate::policy::HotkeyStatus;
use crate::selection_flow::Action;

verus! {

pub const DUPLICATE_PREFIX: &'static str = "Совпадает с «";

pub const DUPLICATE_SUFFIX: &'static str = "»";

pub const TAKEN_BY_OTHER_PROGRAM: &'static str = "Занято другой программой";

pub open spec fn result_view(r: Result<u64, String>) -> Result<u64, Seq<char>> {
    match r {
        Ok(k) => Ok(k),
        Err(e) => Err(e@),
    }
}

/// The first position before `n` whose entry is the same combination `key`.
pub open spec fn first_same(prev: Seq<Result<u64, Seq<char>>>, key: u64, n: int) -> Option<int>
    decreases n,
{
    if n <= 0 {
        None
    } else {
        match first_same(prev, key, n - 1) {
            Some(j) => Some(j),
            None => if prev[n - 1] == Ok::<u64, Seq<char>>(key) {
                Some(n - 1)
            } else {
                None
            },
        }
    }
}

/// The field's entry after comparing it with the fields before it: a combination already
/// used by an earlier valid field becomes an error naming that field.
pub open spec fn marked_one(
    prev: Seq<Result<u64, Seq<char>>>,
    x: Result<u64, Seq<char>>,
    labels: Seq<Seq<char>>,
) -> Result<u64, Seq<char>> {
    match x {
        Err(e) => Err(e),
        Ok(k) => match first_same(prev, k, prev.len() as int) {
            Some(j) => Err(DUPLICATE_PREFIX@ + labels[j] + DUPLICATE_SUFFIX@),
            None => Ok(k),
        },
    }
}

/// All fields marked in order, each against the already marked ones.
pub open spec fn marked(
    parsed: Seq<Result<u64, Seq<char>>>,
    labels: Seq<Seq<char>>,
    n: int,
) -> Seq<Result<u64, Seq<char>>>
    decreases n,
{
    if n <= 0 {
        Seq::empty()
    } else {
        let prev = marked(parsed, labels, n - 1);
        prev.push(marked_one(prev, parsed[n - 1], labels))
    }
}

proof fn lemma_marked_len(parsed: Seq<Result<u64, Seq<char>>>, labels: Seq<Seq<char>>, n: int)
    requires
        0 <= n,
    ensures
        marked(parsed, labels, n).len() == n,
    decreases n,
{
    if n > 0 {
        lemma_marked_len(parsed, labels, n - 1);
    }
}

/// Marks every field whose combination an earlier valid field already uses.
pub fn mark_duplicates(parsed: Vec<Result<u64, String>>, labels: &[&str]) -> (r: Vec<
    Result<u64, String>,
>)
    requires
        labels@.len() == parsed@.len(),
    ensures
        r@.map_values(|x: Result<u64, String>| result_view(x)) == marked(
            parsed@.map_values(|x: Result<u64, String>| result_view(x)),
            labels@.map_values(|l: &str| l@),
            parsed@.len() as int,
        ),
{
    let ghost ps = parsed@.map_values(|x: Result<u64, String>| result_view(x));
    let ghost ls = labels@.map_values(|l: &str| l@);
    let mut out: Vec<Result<u64, String>> = Vec::new();
    let mut i: usize = 0;
    while i < parsed.len()
        invariant
            i <= parsed@.len(),
            labels@.len() == parsed@.len(),
            ps == parsed@.map_values(|x: Result<u64, String>| result_view(x)),
            ls == labels@.map_values(|l: &str| l@),
            out@.len() == i,
            out@.map_values(|x: Result<u64, String>| result_view(x)) == marked(ps, ls, i as int),
        decreases parsed.len() - i,
    {
        let ghost prev = out@.map_values(|x: Result<u64, String>| result_view(x));
        let next: Result<u64, String> = match &parsed[i] {
            Err(e) => Err(e.clone()),
            Ok(k) => {
                let key = *k;
                let mut found: Option<usize> = None;
                let mut j: usize = 0;
                while j < out.len()
                    invariant_except_break
                        found is None,
                    invariant
                        j <= out@.len(),
                        prev == out@.map_values(|x: Result<u64, String>| result_view(x)),
                        found is None ==> first_same(prev, key, j as int) is None,
                    ensures
                        found matches Some(f) ==> first_same(prev, key, out@.len() as int) == Some(
                            f as int,
                        ) && f < out@.len(),
                        found is None ==> first_same(prev, key, out@.len() as int) is None,
                    decreases out.len() - j,
                {
                    let same = match &out[j] {
                        Ok(b) => *b == key,
                        Err(_) => false,
                    };
                    assert(same == (prev[j as int] == Ok::<u64, Seq<char>>(key)));
                    if same {
                        found = Some(j);
                        proof {
                            lemma_first_same_stable(prev, key, j as int + 1, out@.len() as int);
                        }
                        break;
                    }
                    j += 1;
                }
                match found {
                    Some(f) => {
                        let mut m = DUPLICATE_PREFIX.to_owned();
                        m.append(labels[f]);
                        m.append(DUPLICATE_SUFFIX);
                        Err(m)
                    },
                    None => Ok(key),
                }
            },
        };
        proof {
            lemma_marked_len(ps, ls, i as int);
        }
        out.push(next);
        assert(out@.map_values(|x: Result<u64, String>| result_view(x)) == prev.push(
            result_view(next),
        ));
        i += 1;
    }
    out
}

proof fn lemma_first_same_stable(prev: Seq<Result<u64, Seq<char>>>, key: u64, a: int, b: int)
    requires
        0 < a <= b,
        first_same(prev, key, a) is Some,
    ensures
        first_same(prev, key, b) == first_same(prev, key, a),
    decreases b - a,
{
    if a < b {
        lemma_first_same_stable(prev, key, a, b - 1);
    }
}

/// The status reported for one field: its error, or, when hotkeys are active, whether the
/// registration succeeded.
pub fn hotkey_status(field: &str, checked: Result<u64, String>, active: bool, registered: bool) -> (r:
    HotkeyStatus)
    ensures
        r.field@ == field@,
        match checked {
            Err(e) => r.error == Some(e),
            Ok(_) => if active && !registered {
                r.error matches Some(m) && m@ == TAKEN_BY_OTHER_PROGRAM@
            } else {
                r.error is None
            },
        },
{
    let error = match checked {
        Err(e) => Some(e),
        Ok(_) => {
            if active && !registered {
                Some(TAKEN_BY_OTHER_PROGRAM.to_owned())
            } else {
                None
            }
        },
    };
    HotkeyStatus { field: field.to_owned(), error }
}

/// The actions in the order of the settings' hotkey fields.
pub open spec fn field_action(i: int) -> Action {
    if i == 0 {
        Action::Popup
    } else if i == 1 {
        Action::Replace
    } else if i == 2 {
        Action::Window
    } else {
        Action::Screen
    }
}

/// The action of a pressed combination: the first field (popup, replace, window, screen)
/// whose combination parses to it.
pub fn action_for_shortcut(fields: &[Option<u64>; 4], pressed: u64) -> (r: Option<Action>)
    ensures
        match r {
            Some(a) => exists|i: int|
                0 <= i < 4 && fields@[i] == Some(pressed) && a == field_action(i) && forall|j: int|
                    0 <= j < i ==> fields@[j] != Some(pressed),
            None => forall|i: int| 0 <= i < 4 ==> fields@[i] != Some(pressed),
        },
{
    let mut i: usize = 0;
    while i < 4
        invariant
            i <= 4,
            forall|j: int| 0 <= j < i ==> fields@[j] != Some(pressed),
        decreases 4 - i,
    {
        if fields[i] == Some(pressed) {
            let a = if i == 0 {
                Action::Popup
            } else if i == 1 {
                Action::Replace
            } else if i == 2 {
                Action::Window
            } else {
                Action::Screen
            };
            assert(fields@[i as int] == Some(pressed) && a == field_action(i as int));
            return Some(a);
        }
        i += 1;
    }
    None
}

} // verus!
