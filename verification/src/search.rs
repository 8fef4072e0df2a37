//! Content search: scan raw transcript lines for a pattern while
//! independently capturing the first user entry's metadata. A file
//! contributes a session only when both are found.

use vstd::prelude::*;

use crate::clock::parse_timestamp_millis;
use crate::scan::{
    decode_lines, entry_is_user, entry_text, entry_timestamp, first_user_at, session_meta_of,
    sort_sessions_desc, sorted_desc, TranscriptFile,
};
use crate::session::{
    clean_message, clean_spec, first_chars, project_name_from_path, take_at_most, Session,
    SessionFileEntry,
};
use crate::textops::string_is;

verus! {

#[verifier::external_type_specification]
#[verifier::external_body]
pub struct ExRegex(regex::Regex);

/// A compiled search pattern paired with its source text; the pair is
/// only ever built by [`compile_query`], so the compiled regex always
/// belongs to the text the view exposes.
pub struct Query {
    re: regex::Regex,
    source: String,
}

impl View for Query {
    type V = Seq<char>;

    closed spec fn view(&self) -> Seq<char> {
        self.source@
    }
}

/// Whether a pattern text is a valid regular expression; a function
/// of the text alone.
pub uninterp spec fn regex_ok(pattern: Seq<char>) -> bool;

/// Whether a line matches a pattern; a function of the pattern text
/// and the line alone.
pub uninterp spec fn line_matches(pattern: Seq<char>, line: Seq<char>) -> bool;

/// Relies on `regex::Regex::new`: whether a pattern compiles is
/// deterministic in the pattern text; on failure the error describes
/// the problem.
#[verifier::external_body]
pub fn compile_query(pattern: &str) -> (r: Result<Query, String>)
    ensures
        r is Ok <==> regex_ok(pattern@),
        r matches Ok(q) ==> q@ == pattern@,
{
    match regex::Regex::new(pattern) {
        Ok(re) => Ok(Query { re, source: pattern.to_string() }),
        Err(e) => Err(format!("{e}")),
    }
}

/// Relies on `regex::Regex::is_match`: deterministic in the compiled
/// pattern and the haystack; `Query` pairs the regex with its source
/// text, so the result is a function of that text and the line.
#[verifier::external_body]
pub(crate) fn query_matches(q: &Query, line: &str) -> (r: bool)
    ensures
        r == line_matches(q@, line@),
{
    q.re.is_match(line)
}

/// The session a matching file contributes: metadata from the first
/// user entry, and that entry's cleaned, truncated text as the first
/// message.
pub open spec fn search_session_of(s: Session, e: SessionFileEntry, id: Seq<char>, now: i64) -> bool {
    &&& session_meta_of(s, e, id, now)
    &&& s.first_message@ == take_at_most(clean_spec(entry_text(Some(e))), 200)
}

/// Search one file's raw lines for the pattern and, independently,
/// its decoded entries for the first user entry; the file yields a
/// session exactly when both a matching line and a user entry exist.
pub fn search_summarize(
    id: String,
    lines: &Vec<String>,
    entries: &Vec<Option<SessionFileEntry>>,
    q: &Query,
    now_millis: i64,
) -> (r: Option<Session>)
    requires
        lines@.len() == entries@.len(),
    ensures
        (r is Some <==> (exists|i: int| 0 <= i < lines@.len() && line_matches(q@, lines@[i]@)) && (
        exists|j: int| 0 <= j < entries@.len() && entry_is_user(entries@[j]))),
        match r {
            Some(s) => {
                &&& exists|j: int| 0 <= j < entries@.len() && #[trigger] first_user_at(entries@, j)
                &&& forall|j: int|
                    0 <= j < entries@.len() && #[trigger] first_user_at(entries@, j)
                        ==> search_session_of(s, entries@[j]->Some_0, id@, now_millis)
            },
            None => true,
        },
{
    let n = lines.len();
    let mut found_match = false;
    let mut found_user = false;
    let mut cwd = String::new();
    let mut git_branch: Option<String> = None;
    let mut timestamp: i64 = now_millis;
    let mut first_message = String::new();
    let mut i: usize = 0;
    while i < n && !(found_match && found_user)
        invariant
            n == lines@.len(),
            n == entries@.len(),
            i <= n,
            found_match <==> exists|k: int| 0 <= k < i && line_matches(q@, lines@[k]@),
            found_user <==> exists|k: int| 0 <= k < i && entry_is_user(entries@[k]),
            found_user ==> exists|k: int|
                0 <= k < i && #[trigger] first_user_at(entries@, k) && {
                    let e = entries@[k]->Some_0;
                    &&& cwd@ == match e.cwd {
                        Some(c) => c@,
                        None => Seq::<char>::empty(),
                    }
                    &&& git_branch == e.git_branch
                    &&& timestamp == entry_timestamp(e, now_millis)
                    &&& first_message@ == take_at_most(clean_spec(entry_text(entries@[k])), 200)
                },
        decreases n - i,
    {
        if !found_match {
            if query_matches(q, lines[i].as_str()) {
                found_match = true;
            }
        }
        if !found_user {
            match &entries[i] {
                None => {},
                Some(en) => {
                    if string_is(&en.entry_type, "user") {
                        cwd = match &en.cwd {
                            Some(c) => c.clone(),
                            None => String::new(),
                        };
                        git_branch = match &en.git_branch {
                            Some(b) => Some(b.clone()),
                            None => None,
                        };
                        timestamp = match &en.timestamp {
                            Some(t) => match parse_timestamp_millis(t.as_str()) {
                                Some(ms) => ms,
                                None => now_millis,
                            },
                            None => now_millis,
                        };
                        let raw = match &en.message {
                            Some(m) => m.content.text(),
                            None => String::new(),
                        };
                        first_message = first_chars(clean_message(raw.as_str()).as_str(), 200);
                        found_user = true;
                        proof {
                            assert(first_user_at(entries@, i as int));
                        }
                    }
                },
            }
        }
        i = i + 1;
    }
    if !(found_match && found_user) {
        return None;
    }
    let project_name = project_name_from_path(cwd.as_str());
    let project_path = cwd.clone();
    Some(
        Session {
            id,
            project_path,
            project_name,
            git_branch,
            timestamp,
            first_message,
            cwd,
            project_exists: false,
        },
    )
}

/// Search one transcript file; a session comes back only when some
/// raw line matches the pattern and a user entry supplied metadata.
pub fn search_file(file: &TranscriptFile, q: &Query, now_millis: i64) -> (r: Option<Session>)
    ensures
        match r {
            Some(s) => s.id@ == file.id@ && exists|i: int|
                0 <= i < file.lines@.len() && line_matches(q@, file.lines@[i]@),
            None => true,
        },
{
    let entries = decode_lines(&file.lines);
    search_summarize(file.id.clone(), &file.lines, &entries, q, now_millis)
}

/// A session drawn from a file of `files` that has a line matching
/// `pattern`.
pub open spec fn from_matching_file(
    s: Session,
    files: Seq<TranscriptFile>,
    pattern: Seq<char>,
) -> bool {
    exists|f: int|
        0 <= f < files.len() && s.id@ == files[f].id@ && exists|i: int|
            0 <= i < files[f].lines@.len() && line_matches(pattern, files[f].lines@[i]@)
}

/// Search a whole corpus for a pattern.
///
/// An invalid pattern is a usage error reported to the caller, never
/// a per-file failure; a valid one yields the matching files'
/// sessions sorted by timestamp descending, a complete replacement
/// list.
pub fn deep_search(files: &Vec<TranscriptFile>, pattern: &str, now_millis: i64) -> (r: Result<
    Vec<Session>,
    String,
>)
    ensures
        r is Ok <==> regex_ok(pattern@),
        match r {
            Ok(v) => {
                &&& sorted_desc(v@)
                &&& forall|k: int|
                    0 <= k < v@.len() ==> #[trigger] from_matching_file(v@[k], files@, pattern@)
            },
            Err(_) => true,
        },
{
    let q = match compile_query(pattern) {
        Ok(q) => q,
        Err(e) => {
            return Err(e);
        },
    };
    let mut collected: Vec<Session> = Vec::new();
    let mut i: usize = 0;
    while i < files.len()
        invariant
            i <= files@.len(),
            q@ == pattern@,
            forall|k: int|
                0 <= k < collected@.len() ==> #[trigger] from_matching_file(
                    collected@[k],
                    files@,
                    pattern@,
                ),
        decreases files@.len() - i,
    {
        match search_file(&files[i], &q, now_millis) {
            Some(s) => {
                collected.push(s);
                proof {
                    assert(from_matching_file(collected@.last(), files@, pattern@)) by {
                        assert(collected@.last().id@ == files@[i as int].id@);
                    }
                }
            },
            None => {},
        }
        i = i + 1;
    }
    let ghost pre = collected@;
    let sorted = sort_sessions_desc(collected);
    proof {
        broadcast use vstd::seq_lib::group_to_multiset_ensures;
        broadcast use vstd::multiset::group_multiset_axioms;

        assert forall|k: int| 0 <= k < sorted@.len() implies #[trigger] from_matching_file(
            sorted@[k],
            files@,
            pattern@,
        ) by {
            assert(sorted@.contains(sorted@[k]));
            assert(sorted@.to_multiset().count(sorted@[k]) > 0);
            assert(pre.to_multiset().count(sorted@[k]) > 0);
            assert(pre.contains(sorted@[k]));
            let m = choose|m: int| 0 <= m < pre.len() && pre[m] == sorted@[k];
            assert(from_matching_file(pre[m], files@, pattern@));
        }
    }
    Ok(sorted)
}

} // verus!
