//! Corpus scanning: turn the decoded lines of one transcript file
//! into a `Session` summary, sort summaries newest-first, and apply
//! time- and count-based filters.

use vstd::multiset::Multiset;
use vstd::prelude::*;

use crate::clock::{parse_timestamp_millis, ts_millis_of};
use crate::decode::parse_entry_line;
use crate::session::{
    clean_message, clean_spec, content_text, first_chars, is_meta_message, is_meta_spec,
    project_name_from_path, project_name_of, take_at_most, Session, SessionFileEntry,
};
use crate::textops::{all_digits, chars_of, digits_val, is_digit, string_is, trim_chars, trim_spec};

verus! {

/// How many leading lines of a transcript file the scanner examines.
pub const SCAN_WINDOW: usize = 50;

/// The raw material of one transcript file: its identifier (the file
/// base name) and its lines.
#[derive(Debug, Clone)]
pub struct TranscriptFile {
    pub id: String,
    pub lines: Vec<String>,
}

/// The number of entries the scanner actually examines.
pub open spec fn scan_window(len: int) -> int {
    if len < 50 {
        len
    } else {
        50
    }
}

/// Whether a decoded line is a `"user"`-typed entry.
pub open spec fn entry_is_user(e: Option<SessionFileEntry>) -> bool {
    match e {
        Some(en) => en.entry_type@ == "user"@,
        None => false,
    }
}

/// The text carried by an entry's message, empty when there is none.
pub open spec fn entry_text(e: Option<SessionFileEntry>) -> Seq<char> {
    match e {
        Some(en) => match en.message {
            Some(m) => content_text(m.content),
            None => Seq::<char>::empty(),
        },
        None => Seq::<char>::empty(),
    }
}

/// Index `i` holds the first `"user"`-typed entry.
pub open spec fn first_user_at(es: Seq<Option<SessionFileEntry>>, i: int) -> bool {
    &&& 0 <= i < es.len()
    &&& entry_is_user(es[i])
    &&& forall|j: int| 0 <= j < i ==> !entry_is_user(es[j])
}

/// Index `i` holds a user entry whose text survives cleaning.
pub open spec fn displayable_at(es: Seq<Option<SessionFileEntry>>, i: int) -> bool {
    &&& 0 <= i < es.len()
    &&& entry_is_user(es[i])
    &&& !is_meta_spec(entry_text(es[i]))
}

/// Index `i` holds the first displayable user entry.
pub open spec fn first_displayable_at(es: Seq<Option<SessionFileEntry>>, i: int) -> bool {
    &&& displayable_at(es, i)
    &&& forall|j: int| 0 <= j < i ==> !displayable_at(es, j)
}

/// The session timestamp an entry yields: its parsed timestamp text,
/// or `now` as the deliberate fallback.
pub open spec fn entry_timestamp(e: SessionFileEntry, now: i64) -> i64 {
    match e.timestamp {
        Some(t) => match ts_millis_of(t@) {
            Some(ms) => ms,
            None => now,
        },
        None => now,
    }
}

/// The metadata fields a summary takes from the first user entry `e`.
pub open spec fn session_meta_of(s: Session, e: SessionFileEntry, id: Seq<char>, now: i64) -> bool {
    &&& s.id@ == id
    &&& s.cwd@ == match e.cwd {
        Some(c) => c@,
        None => Seq::<char>::empty(),
    }
    &&& s.project_path@ == s.cwd@
    &&& s.git_branch == e.git_branch
    &&& s.timestamp == entry_timestamp(e, now)
    &&& s.project_name@ == project_name_of(s.cwd@)
    &&& s.project_exists == false
}

/// Summarize the decoded entries of one transcript file.
///
/// Only the first `SCAN_WINDOW` entries are examined. Metadata comes
/// from the first `"user"`-typed entry even when its text is meta;
/// `first_message` is the cleaned, truncated text of the first
/// non-meta user entry, or empty when the window has none. A window
/// without any user entry yields no session at all.
pub fn summarize_entries(id: String, entries: &Vec<Option<SessionFileEntry>>, now_millis: i64) -> (r:
    Option<Session>)
    ensures
        ({
            let es = entries@;
            let w = scan_window(es.len() as int);
            &&& (r is Some <==> exists|i: int| 0 <= i < w && entry_is_user(es[i]))
            &&& match r {
                Some(s) => {
                    &&& exists|i: int| 0 <= i < w && #[trigger] first_user_at(es, i)
                    &&& forall|i: int|
                        0 <= i < w && #[trigger] first_user_at(es, i) ==> session_meta_of(
                            s,
                            es[i]->Some_0,
                            id@,
                            now_millis,
                        )
                    &&& forall|i: int|
                        0 <= i < w && #[trigger] first_displayable_at(es, i)
                            ==> s.first_message@ == take_at_most(clean_spec(entry_text(es[i])), 200)
                    &&& (forall|i: int| 0 <= i < w ==> !displayable_at(es, i))
                        ==> s.first_message@ == Seq::<char>::empty()
                },
                None => true,
            }
        }),
{
    let n = entries.len();
    let w = if n < SCAN_WINDOW {
        n
    } else {
        SCAN_WINDOW
    };
    let mut found = false;
    let mut cwd = String::new();
    let mut git_branch: Option<String> = None;
    let mut timestamp: i64 = now_millis;
    let mut first_message = String::new();
    let mut msg_found = false;
    let mut i: usize = 0;
    while i < w
        invariant
            w == scan_window(entries@.len() as int),
            i <= w <= entries@.len(),
            found <==> exists|k: int| 0 <= k < i && entry_is_user(entries@[k]),
            found ==> exists|k: int|
                0 <= k < i && #[trigger] first_user_at(entries@, k) && {
                    let e = entries@[k]->Some_0;
                    &&& cwd@ == match e.cwd {
                        Some(c) => c@,
                        None => Seq::<char>::empty(),
                    }
                    &&& git_branch == e.git_branch
                    &&& timestamp == entry_timestamp(e, now_millis)
                },
            msg_found ==> exists|k: int|
                0 <= k < i && #[trigger] first_displayable_at(entries@, k) && first_message@
                    == take_at_most(clean_spec(entry_text(entries@[k])), 200),
            !msg_found ==> (forall|k: int| 0 <= k < i ==> !displayable_at(entries@, k))
                && first_message@ == Seq::<char>::empty(),
        decreases w - i,
    {
        match &entries[i] {
            None => {},
            Some(en) => {
                if string_is(&en.entry_type, "user") {
                    if !found {
                        cwd = match &en.cwd {
                            Some(c) => c.clone(),
                            None => String::new(),
                        };
                        git_branch = match &en.git_branch {
                            Some(b) => Some(b.clone()),
                            None => None,
                        };
                        timestamp = match &en.timestamp {
                            Some(t) => match parse_timestamp_millis(t.as_str()) {
                                Some(ms) => ms,
                                None => now_millis,
                            },
                            None => now_millis,
                        };
                        found = true;
                        proof {
                            assert(first_user_at(entries@, i as int));
                        }
                    }
                    if !msg_found {
                        let raw = match &en.message {
                            Some(m) => m.content.text(),
                            None => String::new(),
                        };
                        if !is_meta_message(raw.as_str()) {
                            first_message = first_chars(clean_message(raw.as_str()).as_str(), 200);
                            msg_found = true;
                            proof {
                                assert(first_displayable_at(entries@, i as int));
                            }
                        }
                    }
                }
            },
        }
        i = i + 1;
    }
    if !found {
        return None;
    }
    let project_name = project_name_from_path(cwd.as_str());
    let project_path = cwd.clone();
    let s = Session {
        id,
        project_path,
        project_name,
        git_branch,
        timestamp,
        first_message,
        cwd,
        project_exists: false,
    };
    Some(s)
}

/// Decode every line of a transcript file; a line that fails to
/// decode is kept as `None` so that positions line up.
pub fn decode_lines(lines: &Vec<String>) -> (r: Vec<Option<SessionFileEntry>>)
    ensures
        r@.len() == lines@.len(),
{
    let mut out: Vec<Option<SessionFileEntry>> = Vec::new();
    let mut i: usize = 0;
    while i < lines.len()
        invariant
            i <= lines@.len(),
            out@.len() == i,
        decreases lines@.len() - i,
    {
        out.push(parse_entry_line(lines[i].as_str()));
        i = i + 1;
    }
    out
}

/// Parse one transcript file's lines into a session summary.
///
/// The line decoding itself is outside work, so only the summary
/// shape is promised here; `summarize_entries` carries the exact
/// scanning contract.
pub fn parse_session_lines(id: String, lines: &Vec<String>, now_millis: i64) -> (r: Option<
    Session,
>)
    ensures
        match r {
            Some(s) => s.id@ == id@ && s.project_exists == false,
            None => true,
        },
{
    let entries = decode_lines(lines);
    summarize_entries(id, &entries, now_millis)
}

/// The session list order after any scan or search: timestamps
/// non-increasing, most recent first.
pub open spec fn sorted_desc(s: Seq<Session>) -> bool {
    forall|i: int, j: int| 0 <= i < j < s.len() ==> s[i].timestamp >= s[j].timestamp
}

/// The predicate that picks sessions carrying timestamp `t`.
pub open spec fn has_ts(t: i64) -> spec_fn(Session) -> bool {
    |s: Session| s.timestamp == t
}

/// The subsequence of sessions carrying timestamp `t`, in order.
pub open spec fn with_timestamp(s: Seq<Session>, t: i64) -> Seq<Session> {
    s.filter(has_ts(t))
}

/// Sort sessions by timestamp descending. The result is a
/// permutation of the input, and the sort is stable: for every
/// timestamp, the sessions carrying it keep their relative order.
pub fn sort_sessions_desc(sessions: Vec<Session>) -> (r: Vec<Session>)
    ensures
        sorted_desc(r@),
        r@.to_multiset() == sessions@.to_multiset(),
        forall|t: i64| #[trigger] with_timestamp(r@, t) == with_timestamp(sessions@, t),
{
    let mut rem = sessions;
    let mut out: Vec<Session> = Vec::new();
    proof {
        broadcast use vstd::seq_lib::group_to_multiset_ensures;
        broadcast use vstd::multiset::group_multiset_axioms;

        vstd::seq_lib::to_multiset_len(out@);
        vstd::multiset::lemma_multiset_empty_len(out@.to_multiset());
        assert(out@.to_multiset().add(rem@.to_multiset()) =~= rem@.to_multiset());
        assert forall|t: i64|
            #[trigger] with_timestamp(out@, t) + with_timestamp(rem@, t) == with_timestamp(
                sessions@,
                t,
            ) by {
            out@.lemma_all_neg_filter_empty(has_ts(t));
            assert(with_timestamp(out@, t) =~= Seq::<Session>::empty());
            assert(with_timestamp(out@, t) + with_timestamp(rem@, t) =~= with_timestamp(rem@, t));
        }
    }
    loop
        invariant
            sorted_desc(out@),
            forall|a: int, b: int|
                0 <= a < out@.len() && 0 <= b < rem@.len() ==> out@[a].timestamp
                    >= rem@[b].timestamp,
            out@.to_multiset().add(rem@.to_multiset()) == sessions@.to_multiset(),
            forall|t: i64|
                #[trigger] with_timestamp(out@, t) + with_timestamp(rem@, t) == with_timestamp(
                    sessions@,
                    t,
                ),
        ensures
            rem@.len() == 0,
        decreases rem@.len(),
    {
        if rem.len() == 0 {
            break ;
        }
        let mut best: usize = 0;
        let mut j: usize = 1;
        while j < rem.len()
            invariant
                rem@.len() > 0,
                (best as int) < (j as int),
                j <= rem@.len(),
                forall|k: int| 0 <= k < j ==> rem@[best as int].timestamp >= rem@[k].timestamp,
                forall|k: int| 0 <= k < best ==> rem@[k].timestamp < rem@[best as int].timestamp,
            decreases rem@.len() - j,
        {
            if rem[j].timestamp > rem[best].timestamp {
                best = j;
            }
            j = j + 1;
        }
        let ghost pre_rem = rem@;
        let ghost pre_out = out@;
        let x = rem.remove(best);
        out.push(x);
        proof {
            broadcast use vstd::seq_lib::group_to_multiset_ensures;
            broadcast use vstd::multiset::group_multiset_axioms;

            assert(pre_rem.contains(x)) by {
                assert(pre_rem[best as int] == x);
            }
            assert(pre_rem.to_multiset().count(x) > 0);
            assert(out@.to_multiset().add(rem@.to_multiset()) =~= pre_out.to_multiset().add(
                pre_rem.to_multiset(),
            ));
            assert forall|b: int| 0 <= b < rem@.len() implies x.timestamp >= rem@[b].timestamp by {
                if b < best {
                    assert(rem@[b] == pre_rem[b]);
                } else {
                    assert(rem@[b] == pre_rem[b + 1]);
                }
            }
            let front = pre_rem.take(best as int);
            let back = pre_rem.skip(best as int + 1);
            assert forall|t: i64|
                #[trigger] with_timestamp(out@, t) + with_timestamp(rem@, t) == with_timestamp(
                    sessions@,
                    t,
                ) by {
                let p = has_ts(t);
                assert(pre_rem =~= front + (seq![x] + back));
                assert(rem@ =~= front + back);
                Seq::filter_distributes_over_add(front, seq![x] + back, p);
                Seq::filter_distributes_over_add(front, back, p);
                back.lemma_filter_prepend(x, p);
                assert(out@ =~= pre_out + seq![x]);
                Seq::filter_distributes_over_add(pre_out, seq![x], p);
                Seq::<Session>::empty().lemma_filter_prepend(x, p);
                assert(seq![x] + Seq::<Session>::empty() =~= seq![x]);
                if x.timestamp == t {
                    assert(front.all(|e: Session| !p(e))) by {
                        assert forall|k: int| 0 <= k < front.len() implies !p(front[k]) by {
                            assert(front[k] == pre_rem[k]);
                            assert(pre_rem[k].timestamp < x.timestamp);
                        }
                    }
                    front.lemma_all_neg_filter_empty(p);
                    assert(front.filter(p) =~= Seq::<Session>::empty());
                    assert(with_timestamp(out@, t) + with_timestamp(rem@, t) =~= with_timestamp(
                        pre_out,
                        t,
                    ) + with_timestamp(pre_rem, t));
                } else {
                    assert(with_timestamp(out@, t) + with_timestamp(rem@, t) =~= with_timestamp(
                        pre_out,
                        t,
                    ) + with_timestamp(pre_rem, t));
                }
            }
        }
    }
    proof {
        broadcast use vstd::seq_lib::group_to_multiset_ensures;
        broadcast use vstd::multiset::group_multiset_axioms;

        vstd::seq_lib::to_multiset_len(rem@);
        vstd::multiset::lemma_multiset_empty_len(rem@.to_multiset());
        assert(rem@.to_multiset() =~= Multiset::empty());
        assert(out@.to_multiset().add(Multiset::<Session>::empty()) =~= out@.to_multiset());
        assert forall|t: i64| #[trigger] with_timestamp(out@, t) == with_timestamp(
            sessions@,
            t,
        ) by {
            rem@.lemma_all_neg_filter_empty(has_ts(t));
            assert(with_timestamp(rem@, t) =~= Seq::<Session>::empty());
            assert(with_timestamp(out@, t) =~= with_timestamp(out@, t) + with_timestamp(rem@, t));
        }
    }
    out
}

/// A session summary drawn from one of the given files: its id is
/// that file's id.
pub open spec fn from_some_file(s: Session, files: Seq<TranscriptFile>) -> bool {
    exists|f: int| 0 <= f < files.len() && s.id@ == files[f].id@
}

/// Scan a whole corpus: summarize every file and sort the summaries
/// by timestamp descending.
pub fn discover_from_files(files: &Vec<TranscriptFile>, now_millis: i64) -> (r: Vec<Session>)
    ensures
        sorted_desc(r@),
        forall|k: int| 0 <= k < r@.len() ==> #[trigger] from_some_file(r@[k], files@),
{
    let mut collected: Vec<Session> = Vec::new();
    let mut i: usize = 0;
    while i < files.len()
        invariant
            i <= files@.len(),
            forall|k: int| 0 <= k < collected@.len() ==> #[trigger] from_some_file(
                collected@[k],
                files@,
            ),
        decreases files@.len() - i,
    {
        match parse_session_lines(files[i].id.clone(), &files[i].lines, now_millis) {
            Some(s) => {
                collected.push(s);
                proof {
                    assert(from_some_file(collected@.last(), files@)) by {
                        assert(collected@.last().id@ == files@[i as int].id@);
                    }
                }
            },
            None => {},
        }
        i = i + 1;
    }
    let ghost pre = collected@;
    let r = sort_sessions_desc(collected);
    proof {
        broadcast use vstd::seq_lib::group_to_multiset_ensures;
        broadcast use vstd::multiset::group_multiset_axioms;

        assert forall|k: int| 0 <= k < r@.len() implies #[trigger] from_some_file(
            r@[k],
            files@,
        ) by {
            assert(r@.contains(r@[k]));
            assert(r@.to_multiset().count(r@[k]) > 0);
            assert(pre.to_multiset().count(r@[k]) > 0);
            assert(pre.contains(r@[k]));
            let m = choose|m: int| 0 <= m < pre.len() && pre[m] == r@[k];
            assert(from_some_file(pre[m], files@));
        }
    }
    r
}

/// The sessions whose timestamp is at least `cutoff`, in order.
pub open spec fn keep_since(s: Seq<Session>, cutoff: int) -> Seq<Session>
    decreases s.len(),
{
    if s.len() == 0 {
        Seq::empty()
    } else {
        keep_since(s.drop_last(), cutoff) + if s.last().timestamp >= cutoff {
            seq![s.last()]
        } else {
            Seq::<Session>::empty()
        }
    }
}

/// The first `n` sessions, or all of them when fewer.
pub open spec fn take_first(s: Seq<Session>, n: int) -> Seq<Session> {
    if s.len() <= n {
        s
    } else {
        s.take(n)
    }
}

/// Apply the optional time-based and count-based filters.
///
/// `since_millis` keeps only sessions newer than `now - since`;
/// `last` then keeps only the first `n` entries of the (already
/// newest-first) list.
pub fn apply_filters(
    sessions: Vec<Session>,
    since_millis: Option<i64>,
    last: Option<usize>,
    now_millis: i64,
) -> (r: Vec<Session>)
    ensures
        ({
            let kept = match since_millis {
                Some(d) => keep_since(sessions@, now_millis - d),
                None => sessions@,
            };
            r@ == match last {
                Some(n) => take_first(kept, n as int),
                None => kept,
            }
        }),
{
    let mut v = match since_millis {
        Some(d) => {
            let cutoff: i128 = (now_millis as i128) - (d as i128);
            let mut kept: Vec<Session> = Vec::new();
            let mut i: usize = 0;
            proof {
                assert(sessions@.take(0) =~= Seq::<Session>::empty());
            }
            while i < sessions.len()
                invariant
                    i <= sessions@.len(),
                    cutoff == now_millis - d,
                    kept@ == keep_since(sessions@.take(i as int), now_millis - d),
                decreases sessions@.len() - i,
            {
                let ghost pre = kept@;
                if (sessions[i].timestamp as i128) >= cutoff {
                    kept.push(sessions[i].duplicate());
                }
                i = i + 1;
                proof {
                    let t = sessions@.take(i as int);
                    assert(t.drop_last() =~= sessions@.take(i as int - 1));
                    assert(t.last() == sessions@[i as int - 1]);
                    if sessions@[i as int - 1].timestamp >= now_millis - d {
                        assert(kept@ =~= pre + seq![t.last()]);
                    } else {
                        assert(kept@ =~= pre + Seq::<Session>::empty());
                    }
                }
            }
            proof {
                assert(sessions@.take(sessions@.len() as int) =~= sessions@);
            }
            kept
        },
        None => sessions,
    };
    match last {
        Some(n) => {
            let ghost kept = v@;
            v.truncate(n);
            proof {
                if n < kept.len() {
                    assert(v@ =~= take_first(kept, n as int));
                }
            }
            v
        },
        None => v,
    }
}

/// Milliseconds in a day.
pub const MILLIS_PER_DAY: i64 = 86400000;

/// Milliseconds in a week.
pub const MILLIS_PER_WEEK: i64 = 604800000;

/// Milliseconds in a thirty-day month.
pub const MILLIS_PER_MONTH: i64 = 2592000000;

/// The signed integer a duration's numeric part denotes: an optional
/// sign followed by at least one decimal digit.
pub open spec fn int_of(s: Seq<char>) -> Option<int> {
    if s.len() >= 1 && (s.first() == '-' || s.first() == '+') {
        if s.len() >= 2 && all_digits(s.drop_first()) {
            Some(
                if s.first() == '-' {
                    -digits_val(s.drop_first())
                } else {
                    digits_val(s.drop_first())
                },
            )
        } else {
            None
        }
    } else if s.len() >= 1 && all_digits(s) {
        Some(digits_val(s))
    } else {
        None
    }
}

/// The milliseconds a human-friendly duration text denotes: a number
/// followed by `d` (days), `w` (weeks) or `m` (thirty-day months),
/// with surrounding whitespace ignored. `None` for anything
/// malformed or out of range.
pub open spec fn duration_millis_of(s: Seq<char>) -> Option<i64> {
    let t = trim_spec(s);
    if t.len() == 0 {
        None
    } else {
        let suf = t.last();
        match int_of(t.drop_last()) {
            Some(n) => {
                let factor: int = if suf == 'd' {
                    MILLIS_PER_DAY as int
                } else if suf == 'w' {
                    MILLIS_PER_WEEK as int
                } else if suf == 'm' {
                    MILLIS_PER_MONTH as int
                } else {
                    0
                };
                if (suf == 'd' || suf == 'w' || suf == 'm') && i64::MIN <= n * factor && n * factor
                    <= i64::MAX {
                    Some((n * factor) as i64)
                } else {
                    None
                }
            },
            None => None,
        }
    }
}

/// Parse a human-friendly duration such as `7d`, `2w` or `1m` into
/// milliseconds.
///
/// Malformed or out-of-range input is a user-input error reported to
/// the caller; this never panics.
pub fn parse_duration(s: &str) -> (r: Result<i64, String>)
    ensures
        (r is Ok <==> duration_millis_of(s@) is Some),
        r matches Ok(v) ==> Some(v) == duration_millis_of(s@),
{
    let v = chars_of(s);
    let t = trim_chars(&v);
    let n = t.len();
    if n == 0 {
        return Err(String::from_str("empty duration string"));
    }
    let suffix = t[n - 1];
    let blen = n - 1;
    let ghost body = t@.drop_last();
    proof {
        assert(body =~= t@.subrange(0, blen as int));
    }
    let has_sign = blen >= 1 && (t[0] == '-' || t[0] == '+');
    let neg = has_sign && t[0] == '-';
    let start: usize = if has_sign {
        1
    } else {
        0
    };
    if start >= blen {
        proof {
            assert(int_of(body) is None);
        }
        return Err(String::from_str("invalid number in duration"));
    }
    let ghost digs = body.subrange(start as int, blen as int);
    let mut mag: u64 = 0;
    let mut over = false;
    let mut i: usize = start;
    while i < blen
        invariant
            start <= i <= blen,
            n == t@.len(),
            blen == n - 1,
            n >= 1,
            start < blen,
            t@ == trim_spec(s@),
            body == t@.drop_last(),
            body =~= t@.subrange(0, blen as int),
            start <= 1,
            has_sign == (blen >= 1 && (t@[0] == '-' || t@[0] == '+')),
            (start == 1) == has_sign,
            neg == (has_sign && t@[0] == '-'),
            suffix == t@[n as int - 1],
            digs == body.subrange(start as int, blen as int),
            forall|j: int| start <= j < i ==> is_digit(#[trigger] t@[j]),
            !over ==> mag as int == digits_val(t@.subrange(start as int, i as int)),
            over ==> digits_val(t@.subrange(start as int, i as int)) > u64::MAX,
        decreases blen - i,
    {
        let c = t[i];
        let cu = c as u32;
        if !(48 <= cu && cu <= 57) {
            proof {
                assert(!all_digits(digs)) by {
                    assert(digs[i as int - start as int] == t@[i as int]);
                }
                if start == 1 {
                    assert(body.drop_first() =~= digs);
                } else {
                    assert(body =~= digs);
                }
                assert(int_of(body) is None);
            }
            return Err(String::from_str("invalid number in duration"));
        }
        let d = (cu - 48) as u64;
        if !over {
            let stepped: Option<u64> = match mag.checked_mul(10) {
                Some(m10) => m10.checked_add(d),
                None => None,
            };
            match stepped {
                Some(m) => {
                    mag = m;
                },
                None => {
                    over = true;
                },
            }
        }
        i = i + 1;
        proof {
            let cur = t@.subrange(start as int, i as int);
            assert(cur.drop_last() =~= t@.subrange(start as int, i as int - 1));
            assert(cur.last() == t@[i as int - 1]);
        }
    }
    proof {
        assert(all_digits(digs)) by {
            assert forall|j: int| 0 <= j < digs.len() implies is_digit(#[trigger] digs[j]) by {
                assert(digs[j] == t@[start as int + j]);
            }
        }
        assert(digs =~= t@.subrange(start as int, blen as int));
        crate::textops::lemma_digits_val_nonneg(digs);
        if start == 1 {
            assert(body.first() == t@[0]);
            assert(body.drop_first() =~= digs);
            assert(body.len() >= 2);
        } else {
            assert(body =~= digs);
        }
        assert(int_of(body) == Some(
            if neg {
                -digits_val(digs)
            } else {
                digits_val(digs)
            },
        ));
    }
    let valid_suffix = suffix == 'd' || suffix == 'w' || suffix == 'm';
    let ghost num_spec: int = if neg {
        -digits_val(digs)
    } else {
        digits_val(digs)
    };
    let ghost factor_spec: int = if suffix == 'd' {
        MILLIS_PER_DAY as int
    } else if suffix == 'w' {
        MILLIS_PER_WEEK as int
    } else if suffix == 'm' {
        MILLIS_PER_MONTH as int
    } else {
        0
    };
    if !valid_suffix {
        return Err(String::from_str("unknown duration suffix (expected d, w, or m)"));
    }
    if over {
        proof {
            let dv = digits_val(digs);
            assert(dv > u64::MAX);
            if neg {
                assert(num_spec * factor_spec <= num_spec) by (nonlinear_arith)
                    requires
                        num_spec <= 0,
                        factor_spec >= 1,
                ;
                assert(num_spec * factor_spec < i64::MIN);
            } else {
                assert(num_spec * factor_spec >= num_spec) by (nonlinear_arith)
                    requires
                        num_spec >= 0,
                        factor_spec >= 1,
                ;
                assert(num_spec * factor_spec > i64::MAX);
            }
        }
        return Err(String::from_str("duration out of range"));
    }
    let num: i64 = if neg {
        if mag > 9223372036854775808u64 {
            proof {
                assert(num_spec * factor_spec <= num_spec) by (nonlinear_arith)
                    requires
                        num_spec <= 0,
                        factor_spec >= 1,
                ;
            }
            return Err(String::from_str("duration out of range"));
        }
        if mag == 9223372036854775808u64 {
            i64::MIN
        } else {
            -(mag as i64)
        }
    } else {
        if mag > 9223372036854775807u64 {
            proof {
                assert(num_spec * factor_spec >= num_spec) by (nonlinear_arith)
                    requires
                        num_spec >= 0,
                        factor_spec >= 1,
                ;
            }
            return Err(String::from_str("duration out of range"));
        }
        mag as i64
    };
    let factor: i64 = if suffix == 'd' {
        MILLIS_PER_DAY
    } else if suffix == 'w' {
        MILLIS_PER_WEEK
    } else {
        MILLIS_PER_MONTH
    };
    match num.checked_mul(factor) {
        Some(ms) => Ok(ms),
        None => Err(String::from_str("duration out of range")),
    }
}

} // verus!
