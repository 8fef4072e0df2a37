//! Non-interactive selection mode: the pure decisions behind the
//! numbered menu — which sessions match the query, and whether a
//! typed menu choice is valid.

use vstd::prelude::*;

use crate::filter::{ranked_index_list, ranking_of};
use crate::session::Session;
use crate::textops::{
    all_digits, chars_of, digits_val, is_digit, trim_chars, trim_spec,
};

verus! {

/// How many menu entries the selection mode shows at most.
pub const MENU_LIMIT: usize = 10;

/// The indices the selection mode offers: every session, in order,
/// for an empty query; the ranked matches otherwise.
pub fn scriptable_matches(sessions: &Vec<Session>, query: &str) -> (r: Vec<usize>)
    ensures
        query@.len() == 0 ==> r@.len() == sessions@.len() && (forall|k: int|
            0 <= k < r@.len() ==> (#[trigger] r@[k] as int) == k),
        query@.len() > 0 ==> ranking_of(sessions@, query@, r@),
        forall|k: int| 0 <= k < r@.len() ==> (#[trigger] r@[k] as int) < sessions@.len(),
{
    if query.is_empty() {
        let mut idxs: Vec<usize> = Vec::new();
        let mut k: usize = 0;
        while k < sessions.len()
            invariant
                k <= sessions@.len(),
                idxs@.len() == k,
                forall|j: int| 0 <= j < k ==> (#[trigger] idxs@[j] as int) == j,
            decreases sessions@.len() - k,
        {
            idxs.push(k);
            k = k + 1;
        }
        idxs
    } else {
        ranked_index_list(sessions, query)
    }
}

/// The digits of a menu choice, once an optional leading plus sign is
/// stripped.
pub open spec fn selection_digits(t: Seq<char>) -> Seq<char> {
    if t.len() > 0 && t.first() == '+' {
        t.drop_first()
    } else {
        t
    }
}

/// The menu entry a typed line selects: its trimmed text must be a
/// decimal number between 1 and `max`; anything else is an invalid
/// selection.
pub open spec fn selection_of(line: Seq<char>, max: int) -> Option<int> {
    let d = selection_digits(trim_spec(line));
    if d.len() > 0 && all_digits(d) && 1 <= digits_val(d) && digits_val(d) <= max {
        Some(digits_val(d))
    } else {
        None
    }
}

/// Parse a typed menu choice, accepting only `1..=max`.
pub fn parse_selection(line: &str, max: usize) -> (r: Option<usize>)
    ensures
        (r is Some <==> selection_of(line@, max as int) is Some),
        r matches Some(v) ==> Some(v as int) == selection_of(line@, max as int),
{
    let v = chars_of(line);
    let t = trim_chars(&v);
    let start: usize = if t.len() > 0 && t[0] == '+' {
        1
    } else {
        0
    };
    let ghost d = selection_digits(trim_spec(line@));
    proof {
        assert(d =~= t@.subrange(start as int, t@.len() as int));
    }
    if start >= t.len() {
        return None;
    }
    let n = t.len();
    let mut acc: usize = 0;
    let mut over = false;
    let mut i: usize = start;
    while i < n
        invariant
            start <= i <= n,
            n == t@.len(),
            start <= 1,
            t@ == trim_spec(line@),
            d == selection_digits(trim_spec(line@)),
            d =~= t@.subrange(start as int, n as int),
            forall|j: int| start <= j < i ==> is_digit(#[trigger] t@[j]),
            !over ==> acc as int == digits_val(t@.subrange(start as int, i as int)) && acc <= max,
            over ==> digits_val(t@.subrange(start as int, i as int)) > max,
        decreases n - i,
    {
        let c = t[i];
        let cu = c as u32;
        if !(48 <= cu && cu <= 57) {
            proof {
                assert(!all_digits(d)) by {
                    assert(d[i as int - start as int] == t@[i as int]);
                }
            }
            return None;
        }
        let dv = (cu - 48) as usize;
        if !over {
            let stepped: Option<usize> = match acc.checked_mul(10) {
                Some(a10) => a10.checked_add(dv),
                None => None,
            };
            match stepped {
                Some(a) => {
                    if a > max {
                        over = true;
                    } else {
                        acc = a;
                    }
                },
                None => {
                    over = true;
                },
            }
        }
        i = i + 1;
        proof {
            let cur = t@.subrange(start as int, i as int);
            assert(cur.drop_last() =~= t@.subrange(start as int, i as int - 1));
            assert(cur.last() == t@[i as int - 1]);
        }
    }
    proof {
        assert(all_digits(d)) by {
            assert forall|j: int| 0 <= j < d.len() implies is_digit(#[trigger] d[j]) by {
                assert(d[j] == t@[start as int + j]);
            }
        }
    }
    if over {
        return None;
    }
    if acc >= 1 {
        Some(acc)
    } else {
        None
    }
}

} // verus!
