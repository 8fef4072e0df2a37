//! Prompt loading: extract the bounded tail of a session's user
//! turns for the detail view, and rebuild the transcript file path
//! from a session's stored metadata.

use vstd::prelude::*;

use crate::scan::{decode_lines, displayable_at, entry_text, entry_timestamp};
use crate::session::{
    clean_message, clean_spec, dashed, dashed_path, first_chars, is_meta_message, take_at_most,
    SessionFileEntry, UserPrompt,
};
use crate::textops::string_is;

verus! {

/// The relative path of a session's transcript file under the
/// storage root: `projects/<cwd-with-slashes-replaced-by-dashes>/<id>.jsonl`.
pub open spec fn transcript_rel_path_spec(project_path: Seq<char>, id: Seq<char>) -> Seq<char> {
    "projects/"@ + dashed(project_path) + "/"@ + id + ".jsonl"@
}

/// Rebuild the transcript file path (relative to the storage root)
/// from a session's stored project path and id.
pub fn transcript_rel_path(project_path: &str, id: &str) -> (r: String)
    ensures
        r@ == transcript_rel_path_spec(project_path@, id@),
{
    let mut r = String::from_str("projects/");
    let encoded = dashed_path(project_path);
    r.append(encoded.as_str());
    r.append("/");
    r.append(id);
    r.append(".jsonl");
    r
}

/// A prompt extracted from one user entry: its cleaned, truncated
/// text, its timestamp (with `now` as fallback), and its uuid.
pub open spec fn prompt_matches(p: UserPrompt, e: SessionFileEntry, now: i64) -> bool {
    &&& p.text@ == take_at_most(clean_spec(entry_text(Some(e))), 200)
    &&& p.timestamp == entry_timestamp(e, now)
    &&& p.uuid == e.uuid
}

/// The indices, in file order, of the entries that yield a prompt:
/// user entries whose text is not meta.
pub open spec fn prompt_indices(es: Seq<Option<SessionFileEntry>>) -> Seq<int>
    decreases es.len(),
{
    if es.len() == 0 {
        Seq::empty()
    } else {
        let prefix = prompt_indices(es.drop_last());
        if displayable_at(es, es.len() - 1) {
            prefix.push(es.len() - 1)
        } else {
            prefix
        }
    }
}

/// The last `n` elements of a sequence of indices, or all of them
/// when fewer.
pub open spec fn last_at_most(s: Seq<int>, n: int) -> Seq<int> {
    if s.len() <= n {
        s
    } else {
        s.skip(s.len() - n)
    }
}

/// Extract every prompt from the decoded entries of one transcript
/// file, keeping only the last `max` in chronological order.
pub fn prompts_of_entries(entries: &Vec<Option<SessionFileEntry>>, max: usize, now_millis: i64) -> (r:
    Vec<UserPrompt>)
    ensures
        ({
            let keep = last_at_most(prompt_indices(entries@), max as int);
            &&& r@.len() == keep.len()
            &&& r@.len() <= max
            &&& forall|k: int|
                0 <= k < keep.len() ==> prompt_matches(
                    r@[k],
                    entries@[#[trigger] keep[k]]->Some_0,
                    now_millis,
                )
        }),
{
    let mut full: Vec<UserPrompt> = Vec::new();
    let mut i: usize = 0;
    proof {
        assert(entries@.take(0) =~= Seq::<Option<SessionFileEntry>>::empty());
    }
    while i < entries.len()
        invariant
            i <= entries@.len(),
            full@.len() == prompt_indices(entries@.take(i as int)).len(),
            forall|k: int|
                0 <= k < full@.len() ==> prompt_matches(
                    full@[k],
                    entries@[#[trigger] prompt_indices(entries@.take(i as int))[k]]->Some_0,
                    now_millis,
                ),
            forall|k: int|
                0 <= k < full@.len() ==> 0 <= #[trigger] prompt_indices(
                    entries@.take(i as int),
                )[k] < i,
        decreases entries@.len() - i,
    {
        let ghost pre_idx = prompt_indices(entries@.take(i as int));
        match &entries[i] {
            None => {},
            Some(en) => {
                if string_is(&en.entry_type, "user") {
                    let raw = match &en.message {
                        Some(m) => m.content.text(),
                        None => String::new(),
                    };
                    if !is_meta_message(raw.as_str()) {
                        let text = first_chars(clean_message(raw.as_str()).as_str(), 200);
                        let timestamp = match &en.timestamp {
                            Some(t) => match crate::clock::parse_timestamp_millis(t.as_str()) {
                                Some(ms) => ms,
                                None => now_millis,
                            },
                            None => now_millis,
                        };
                        let uuid = match &en.uuid {
                            Some(u) => Some(u.clone()),
                            None => None,
                        };
                        full.push(UserPrompt { text, timestamp, uuid });
                        proof {
                            assert(displayable_at(entries@, i as int));
                        }
                    }
                }
            },
        }
        i = i + 1;
        proof {
            let t = entries@.take(i as int);
            assert(t.drop_last() =~= entries@.take(i as int - 1));
            assert(t.len() - 1 == i as int - 1);
            assert(t[i as int - 1] == entries@[i as int - 1]);
            if displayable_at(entries@, i as int - 1) {
                assert(displayable_at(t, i as int - 1));
                assert(prompt_indices(t) =~= pre_idx.push(i as int - 1));
            } else {
                assert(!displayable_at(t, i as int - 1));
                assert(prompt_indices(t) =~= pre_idx);
            }
        }
    }
    proof {
        assert(entries@.take(entries@.len() as int) =~= entries@);
    }
    if full.len() <= max {
        proof {
            assert(last_at_most(prompt_indices(entries@), max as int) =~= prompt_indices(
                entries@,
            ));
        }
        return full;
    }
    let start = full.len() - max;
    let mut out: Vec<UserPrompt> = Vec::new();
    let mut k: usize = start;
    while k < full.len()
        invariant
            start <= k <= full@.len(),
            start == full@.len() - max,
            max <= full@.len(),
            out@.len() == k - start,
            forall|j: int| 0 <= j < out@.len() ==> out@[j] == full@[start as int + j],
        decreases full@.len() - k,
    {
        let p = &full[k];
        let text = p.text.clone();
        let timestamp = p.timestamp;
        let uuid = match &p.uuid {
            Some(u) => Some(u.clone()),
            None => None,
        };
        out.push(UserPrompt { text, timestamp, uuid });
        k = k + 1;
    }
    proof {
        let idxs = prompt_indices(entries@);
        let keep = last_at_most(idxs, max as int);
        assert(keep =~= idxs.skip(idxs.len() - max as int));
        assert forall|j: int| 0 <= j < keep.len() implies prompt_matches(
            out@[j],
            entries@[#[trigger] keep[j]]->Some_0,
            now_millis,
        ) by {
            assert(keep[j] == idxs[start as int + j]);
            assert(out@[j] == full@[start as int + j]);
        }
    }
    out
}

/// Extract the last `max` user prompts from a transcript file's
/// lines, oldest first.
///
/// The per-line decoding is outside work; `prompts_of_entries`
/// carries the exact extraction contract.
pub fn extract_prompts(lines: &Vec<String>, max: usize, now_millis: i64) -> (r: Vec<UserPrompt>)
    ensures
        r@.len() <= max,
{
    let entries = decode_lines(lines);
    prompts_of_entries(&entries, max, now_millis)
}

} // verus!
