//! Transcript record model: the `Session` summary, the per-line
//! transcript entry, polymorphic message content, and the markup
//! cleaning rules that decide what counts as displayable user text.

use vstd::prelude::*;
use vstd::string::*;

use crate::textops::{chars_of, is_wspace, push_char, string_is, string_of, wspace_char};

verus! {

/// A discovered session with normalized metadata.
///
/// `timestamp` is the session start time in milliseconds since the
/// Unix epoch; `project_exists` is recomputed at scan time by the
/// caller that can reach the file system and is `false` until then.
#[derive(Debug, Clone)]
pub struct Session {
    pub id: String,
    pub project_path: String,
    pub project_name: String,
    pub git_branch: Option<String>,
    pub timestamp: i64,
    pub first_message: String,
    pub cwd: String,
    pub project_exists: bool,
}

/// A single decoded line of a transcript file.
#[derive(Debug, Clone)]
pub struct SessionFileEntry {
    pub entry_type: String,
    pub session_id: Option<String>,
    pub cwd: Option<String>,
    pub git_branch: Option<String>,
    pub timestamp: Option<String>,
    pub version: Option<String>,
    pub message: Option<MessageContent>,
    pub uuid: Option<String>,
}

/// The message payload inside a transcript entry.
#[derive(Debug, Clone)]
pub struct MessageContent {
    pub role: String,
    pub content: StringOrArray,
}

/// Message content is either a plain string or an ordered sequence of
/// tagged content blocks.
#[derive(Debug, Clone)]
pub enum StringOrArray {
    Str(String),
    Array(Vec<ContentBlock>),
}

/// One block of an array-shaped message; only blocks tagged `"text"`
/// contribute to extracted text.
#[derive(Debug, Clone)]
pub struct ContentBlock {
    pub block_type: String,
    pub text: String,
}

/// A single user prompt extracted from a transcript file.
#[derive(Debug, Clone)]
pub struct UserPrompt {
    pub text: String,
    pub timestamp: i64,
    pub uuid: Option<String>,
}

/// An entry for history display.
#[derive(Debug, Clone)]
pub struct HistoryEntry {
    pub display: String,
    pub timestamp: i64,
    pub project: String,
}

/// `s` with every single quote replaced by the `'\''` shell escape.
pub open spec fn sq_escape(s: Seq<char>) -> Seq<char>
    decreases s.len(),
{
    if s.len() == 0 {
        Seq::empty()
    } else {
        (if s.first() == '\'' {
            "'\\''"@
        } else {
            seq![s.first()]
        }) + sq_escape(s.drop_first())
    }
}

/// The shell command that resumes a session: the working directory is
/// single-quoted with embedded quotes escaped, so it can be passed to
/// a shell safely.
pub open spec fn resume_command_spec(cwd: Seq<char>, id: Seq<char>) -> Seq<char> {
    "cd '"@ + sq_escape(cwd) + "' && resume "@ + id
}

impl Session {
    /// An equal copy of this session, with the copy's value known to
    /// the verifier (a derived clone carries no specification).
    pub fn duplicate(&self) -> (r: Session)
        ensures
            r == *self,
    {
        Session {
            id: self.id.clone(),
            project_path: self.project_path.clone(),
            project_name: self.project_name.clone(),
            git_branch: match &self.git_branch {
                Some(b) => Some(b.clone()),
                None => None,
            },
            timestamp: self.timestamp,
            first_message: self.first_message.clone(),
            cwd: self.cwd.clone(),
            project_exists: self.project_exists,
        }
    }

    /// Build the shell command to resume this session.
    pub fn resume_command(&self) -> (r: String)
        ensures
            r@ == resume_command_spec(self.cwd@, self.id@),
    {
        let mut r = String::from_str("cd '");
        let v = chars_of(self.cwd.as_str());
        let mut i: usize = 0;
        proof {
            assert(v@.skip(0) =~= v@);
        }
        while i < v.len()
            invariant
                i <= v@.len(),
                r@ + sq_escape(v@.skip(i as int)) == "cd '"@ + sq_escape(v@),
            decreases v@.len() - i,
        {
            let ghost r0 = r@;
            proof {
                assert(v@.skip(i as int).first() == v@[i as int]);
                assert(v@.skip(i as int).drop_first() =~= v@.skip(i as int + 1));
            }
            if v[i] == '\'' {
                r.append("'\\''");
                proof {
                    assert(r@ + sq_escape(v@.skip(i as int + 1)) =~= r0 + ("'\\''"@ + sq_escape(
                    v@.skip(i as int + 1))));
                }
            } else {
                push_char(&mut r, v[i]);
                proof {
                    assert(r@ + sq_escape(v@.skip(i as int + 1)) =~= r0 + (seq![v@[i as int]]
                        + sq_escape(v@.skip(i as int + 1))));
                }
            }
            i = i + 1;
        }
        proof {
            assert(sq_escape(v@.skip(v@.len() as int)) =~= Seq::<char>::empty());
            assert(r@ + Seq::<char>::empty() =~= r@);
        }
        r.append("' && resume ");
        r.append(self.id.as_str());
        r
    }
}

/// `s` without its trailing slashes.
pub open spec fn strip_trailing_slashes(s: Seq<char>) -> Seq<char>
    decreases s.len(),
{
    if s.len() > 0 && s.last() == '/' {
        strip_trailing_slashes(s.drop_last())
    } else {
        s
    }
}

/// The run of non-slash characters at the end of `s`.
pub open spec fn trailing_segment(s: Seq<char>) -> Seq<char>
    decreases s.len(),
{
    if s.len() == 0 || s.last() == '/' {
        Seq::empty()
    } else {
        trailing_segment(s.drop_last()).push(s.last())
    }
}

/// The last path component of `path` — the final non-empty segment,
/// ignoring trailing slashes — or `"unknown"` when there is none or it
/// is only a dot component.
pub open spec fn project_name_of(path: Seq<char>) -> Seq<char> {
    let seg = trailing_segment(strip_trailing_slashes(path));
    if seg.len() == 0 || seg == seq!['.'] || seg == seq!['.', '.'] {
        "unknown"@
    } else {
        seg
    }
}

/// Derive a display name for a project from its working directory.
pub fn project_name_from_path(path: &str) -> (r: String)
    ensures
        r@ == project_name_of(path@),
{
    let v = chars_of(path);
    let mut end: usize = v.len();
    proof {
        assert(v@.take(v@.len() as int) =~= v@);
    }
    while end > 0 && v[end - 1] == '/'
        invariant
            end <= v@.len(),
            strip_trailing_slashes(v@) == strip_trailing_slashes(v@.take(end as int)),
        decreases end,
    {
        proof {
            assert(v@.take(end as int).last() == v@[end as int - 1]);
            assert(v@.take(end as int).drop_last() =~= v@.take(end as int - 1));
        }
        end = end - 1;
    }
    proof {
        if end > 0 {
            assert(v@.take(end as int).last() == v@[end as int - 1]);
        }
        assert(strip_trailing_slashes(v@) == v@.take(end as int));
    }
    let mut start: usize = end;
    while start > 0 && v[start - 1] != '/'
        invariant
            start <= end <= v@.len(),
            trailing_segment(v@.take(end as int)) == trailing_segment(v@.take(start as int))
                + v@.subrange(start as int, end as int),
        decreases start,
    {
        proof {
            assert(v@.take(start as int).last() == v@[start as int - 1]);
            assert(v@.take(start as int).drop_last() =~= v@.take(start as int - 1));
            assert(v@.subrange(start as int - 1, end as int) =~= seq![v@[start as int - 1]]
                + v@.subrange(start as int, end as int));
            assert(trailing_segment(v@.take(start as int - 1)) + v@.subrange(
                start as int - 1,
                end as int,
            ) =~= (trailing_segment(v@.take(start as int - 1)).push(v@[start as int - 1]))
                + v@.subrange(start as int, end as int));
        }
        start = start - 1;
    }
    proof {
        if start > 0 {
            assert(v@.take(start as int).last() == v@[start as int - 1]);
        }
        assert(trailing_segment(v@.take(start as int)) =~= Seq::<char>::empty());
        assert(trailing_segment(v@.take(end as int)) =~= v@.subrange(start as int, end as int));
    }
    let mut seg: Vec<char> = Vec::new();
    let mut k: usize = start;
    while k < end
        invariant
            start <= k <= end <= v@.len(),
            seg@ == v@.subrange(start as int, k as int),
        decreases end - k,
    {
        seg.push(v[k]);
        proof {
            assert(v@.subrange(start as int, k as int + 1) =~= v@.subrange(
                start as int,
                k as int,
            ).push(v@[k as int]));
        }
        k = k + 1;
    }
    let is_dot = seg.len() == 1 && seg[0] == '.';
    let is_dotdot = seg.len() == 2 && seg[0] == '.' && seg[1] == '.';
    proof {
        if is_dot {
            assert(seg@ =~= seq!['.']);
        }
        if is_dotdot {
            assert(seg@ =~= seq!['.', '.']);
        }
    }
    if seg.len() == 0 || is_dot || is_dotdot {
        String::from_str("unknown")
    } else {
        string_of(&seg)
    }
}

/// `s` with every slash replaced by a dash: the directory encoding
/// used for per-project transcript folders.
pub open spec fn dashed(s: Seq<char>) -> Seq<char> {
    s.map_values(|c: char| if c == '/' { '-' } else { c })
}

/// Replace every slash in `path` with a dash.
pub fn dashed_path(path: &str) -> (r: String)
    ensures
        r@ == dashed(path@),
{
    let v = chars_of(path);
    let mut out: Vec<char> = Vec::new();
    let mut i: usize = 0;
    while i < v.len()
        invariant
            i <= v@.len(),
            out@ == dashed(v@.take(i as int)),
        decreases v@.len() - i,
    {
        if v[i] == '/' {
            out.push('-');
        } else {
            out.push(v[i]);
        }
        i = i + 1;
        proof {
            assert(dashed(v@.take(i as int)) =~= dashed(v@.take(i as int - 1)).push(
                if v@[i as int - 1] == '/' {
                    '-'
                } else {
                    v@[i as int - 1]
                },
            ));
        }
    }
    proof {
        assert(v@.take(v@.len() as int) =~= v@);
    }
    string_of(&out)
}

/// The first `n` characters of `s`, or all of `s` when it is shorter.
pub open spec fn take_at_most(s: Seq<char>, n: int) -> Seq<char> {
    if s.len() <= n {
        s
    } else {
        s.take(n)
    }
}

/// Keep at most the first `n` characters of `s`.
pub fn first_chars(s: &str, n: usize) -> (r: String)
    ensures
        r@ == take_at_most(s@, n as int),
{
    let v = chars_of(s);
    let limit = if v.len() <= n {
        v.len()
    } else {
        n
    };
    let mut out: Vec<char> = Vec::new();
    let mut i: usize = 0;
    while i < limit
        invariant
            i <= limit <= v@.len(),
            out@ == v@.take(i as int),
        decreases limit - i,
    {
        out.push(v[i]);
        i = i + 1;
        proof {
            assert(v@.take(i as int) =~= v@.take(i as int - 1).push(v@[i as int - 1]));
        }
    }
    proof {
        assert(v@.take(v@.len() as int) =~= v@);
    }
    string_of(&out)
}

/// `s` cut to at most `max_len` characters; when it is longer, the
/// last three kept characters are replaced by an ellipsis.
pub open spec fn truncate_spec(s: Seq<char>, max_len: int) -> Seq<char> {
    if max_len <= 3 {
        take_at_most(s, max_len)
    } else if s.len() > max_len {
        s.take(max_len - 3) + "..."@
    } else {
        s
    }
}

/// Truncate a string to `max_len` characters, adding `"..."` when it
/// was cut.
pub fn truncate_str(s: &str, max_len: usize) -> (r: String)
    ensures
        r@ == truncate_spec(s@, max_len as int),
{
    if max_len <= 3 {
        first_chars(s, max_len)
    } else {
        let n = s.unicode_len();
        if n > max_len {
            let mut r = first_chars(s, max_len - 3);
            r.append("...");
            r
        } else {
            let mut r = String::new();
            r.append(s);
            r
        }
    }
}

/// The concatenation, in order, of the text of every block tagged
/// `"text"`; other block kinds contribute nothing.
pub open spec fn blocks_text(blocks: Seq<ContentBlock>) -> Seq<char>
    decreases blocks.len(),
{
    if blocks.len() == 0 {
        Seq::empty()
    } else {
        blocks_text(blocks.drop_last()) + if blocks.last().block_type@ == "text"@ {
            blocks.last().text@
        } else {
            Seq::<char>::empty()
        }
    }
}

/// The plain text carried by a content value: the string itself, or
/// the concatenated `"text"` blocks.
pub open spec fn content_text(c: StringOrArray) -> Seq<char> {
    match c {
        StringOrArray::Str(s) => s@,
        StringOrArray::Array(blocks) => blocks_text(blocks@),
    }
}

impl StringOrArray {
    /// Extract the text content, concatenating `"text"` blocks in
    /// sequence order with no separator.
    pub fn text(&self) -> (r: String)
        ensures
            r@ == content_text(*self),
    {
        match self {
            StringOrArray::Str(s) => s.clone(),
            StringOrArray::Array(blocks) => {
                let mut acc = String::new();
                let mut i: usize = 0;
                while i < blocks.len()
                    invariant
                        i <= blocks@.len(),
                        acc@ == blocks_text(blocks@.take(i as int)),
                    decreases blocks@.len() - i,
                {
                    if string_is(&blocks[i].block_type, "text") {
                        acc.append(blocks[i].text.as_str());
                    }
                    i = i + 1;
                    proof {
                        assert(blocks@.take(i as int).drop_last() =~= blocks@.take(i as int - 1));
                        assert(blocks@.take(i as int).last() == blocks@[i as int - 1]);
                    }
                }
                proof {
                    assert(blocks@.take(blocks@.len() as int) =~= blocks@);
                }
                acc
            },
        }
    }
}

/// `s` with every angle-bracket-delimited run removed: a `<` enters
/// markup, the next `>` leaves it, and only characters outside markup
/// survive. A stray `>` outside markup is kept.
pub open spec fn strip_markup(s: Seq<char>, inside: bool) -> Seq<char>
    decreases s.len(),
{
    if s.len() == 0 {
        Seq::empty()
    } else {
        let c = s.first();
        let rest = s.drop_first();
        if c == '<' {
            strip_markup(rest, true)
        } else if inside {
            strip_markup(rest, c != '>')
        } else {
            seq![c] + strip_markup(rest, false)
        }
    }
}

/// `s` with every run of whitespace collapsed to a single space and
/// leading and trailing whitespace removed. `started` records that a
/// non-whitespace character was already emitted, `pending` that a
/// separating space is owed before the next one.
pub open spec fn collapse_ws(s: Seq<char>, started: bool, pending: bool) -> Seq<char>
    decreases s.len(),
{
    if s.len() == 0 {
        Seq::empty()
    } else {
        let c = s.first();
        let rest = s.drop_first();
        if is_wspace(c) {
            collapse_ws(rest, started, pending || started)
        } else {
            (if pending {
                seq![' ', c]
            } else {
                seq![c]
            }) + collapse_ws(rest, true, false)
        }
    }
}

/// The cleaned form of a raw message: markup stripped, whitespace
/// collapsed and trimmed.
pub open spec fn clean_spec(s: Seq<char>) -> Seq<char> {
    collapse_ws(strip_markup(s, false), false, false)
}

/// A message is meta (internal, not user-visible) when its cleaned
/// form is shorter than 3 characters.
pub open spec fn is_meta_spec(s: Seq<char>) -> bool {
    clean_spec(s).len() < 3
}

fn strip_markup_chars(v: &Vec<char>) -> (r: Vec<char>)
    ensures
        r@ == strip_markup(v@, false),
{
    let mut out: Vec<char> = Vec::new();
    let mut inside = false;
    let mut i: usize = 0;
    proof {
        assert(v@.skip(0) =~= v@);
    }
    while i < v.len()
        invariant
            i <= v@.len(),
            strip_markup(v@, false) == out@ + strip_markup(v@.skip(i as int), inside),
        decreases v@.len() - i,
    {
        let c = v[i];
        proof {
            assert(v@.skip(i as int).first() == v@[i as int]);
            assert(v@.skip(i as int).drop_first() =~= v@.skip(i as int + 1));
        }
        if c == '<' {
            inside = true;
        } else if inside {
            inside = c != '>';
        } else {
            out.push(c);
            proof {
                assert(out@ + strip_markup(v@.skip(i as int + 1), false) =~= out@.drop_last() + (
                seq![c] + strip_markup(v@.skip(i as int + 1), false)));
            }
        }
        i = i + 1;
    }
    proof {
        assert(v@.skip(v@.len() as int) =~= Seq::<char>::empty());
        assert(out@ + Seq::<char>::empty() =~= out@);
    }
    out
}

fn collapse_ws_chars(v: &Vec<char>) -> (r: Vec<char>)
    ensures
        r@ == collapse_ws(v@, false, false),
{
    let mut out: Vec<char> = Vec::new();
    let mut pending = false;
    let mut i: usize = 0;
    proof {
        assert(v@.skip(0) =~= v@);
    }
    while i < v.len()
        invariant
            i <= v@.len(),
            collapse_ws(v@, false, false) == out@ + collapse_ws(
                v@.skip(i as int),
                out@.len() > 0,
                pending,
            ),
            pending ==> out@.len() > 0,
        decreases v@.len() - i,
    {
        let c = v[i];
        proof {
            assert(v@.skip(i as int).first() == v@[i as int]);
            assert(v@.skip(i as int).drop_first() =~= v@.skip(i as int + 1));
        }
        if wspace_char(c) {
            if out.len() > 0 {
                pending = true;
            }
        } else {
            let ghost out0 = out@;
            if pending {
                out.push(' ');
                pending = false;
            }
            out.push(c);
            proof {
                assert(out@ + collapse_ws(v@.skip(i as int + 1), true, false) =~= out0 + ((if
                out0.len() > 0 && out@.len() == out0.len() + 2 {
                    seq![' ', c]
                } else {
                    seq![c]
                }) + collapse_ws(v@.skip(i as int + 1), true, false)));
            }
        }
        i = i + 1;
    }
    proof {
        assert(v@.skip(v@.len() as int) =~= Seq::<char>::empty());
        assert(out@ + Seq::<char>::empty() =~= out@);
    }
    out
}

/// Strip markup tags from a raw message and collapse whitespace.
///
/// Transcripts carry internal markers as angle-bracket tags around or
/// instead of user text; they are never displayable content.
pub fn clean_message(text: &str) -> (r: String)
    ensures
        r@ == clean_spec(text@),
{
    let v = chars_of(text);
    let stripped = strip_markup_chars(&v);
    let collapsed = collapse_ws_chars(&stripped);
    string_of(&collapsed)
}

/// Whether a raw message is purely internal markup, with no real user
/// content left after cleaning.
pub fn is_meta_message(text: &str) -> (r: bool)
    ensures
        r == is_meta_spec(text@),
{
    let cleaned = clean_message(text);
    cleaned.as_str().unicode_len() < 3
}

} // verus!
