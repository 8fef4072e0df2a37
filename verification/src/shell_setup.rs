//! Shell integration: the wrapper function definitions and the pure
//! splice that installs or refreshes them in a shell rc file. The
//! file reading, writing and prompting around it stay with the
//! caller.

use vstd::prelude::*;

use crate::textops::{
    chars_of, find_seq, find_sub, string_of, trim_end_spec, trim_start_spec, wspace_char,
};

verus! {

/// The line that opens the managed block in a shell rc file.
pub open spec fn marker_begin_text() -> Seq<char> {
    "# >>> cc-session shell functions >>>"@
}

/// The line that closes the managed block in a shell rc file.
pub open spec fn marker_end_text() -> Seq<char> {
    "# <<< cc-session shell functions <<<"@
}

/// The shell function definitions, markers included.
pub open spec fn shell_functions_text() -> Seq<char> {
    "# >>> cc-session shell functions >>>\n# Deep search for a session and resume it\nccs() {\n  local cmd\n  cmd=$(cc-session -g \"$1\" -q 2>/dev/null)\n  if [ $? -ne 0 ] || [ -z \"$cmd\" ]; then\n    echo \"No session found for: $1\" >&2\n    return 1\n  fi\n  eval \"$cmd\"\n}\n\n# Fuzzy search for a session and resume it\nccf() {\n  local cmd\n  cmd=$(cc-session -s \"$1\" -q 2>/dev/null)\n  if [ $? -ne 0 ] || [ -z \"$cmd\" ]; then\n    echo \"No session found for: $1\" >&2\n    return 1\n  fi\n  eval \"$cmd\"\n}\n# <<< cc-session shell functions <<<\n"@
}

/// The shell function definitions: a deep-search resume (`ccs`) and
/// a fuzzy-search resume (`ccf`), wrapped in marker lines so a later
/// install can replace the block.
pub fn shell_functions() -> (r: String)
    ensures
        r@ == shell_functions_text(),
{
    String::from_str(
        "# >>> cc-session shell functions >>>\n# Deep search for a session and resume it\nccs() {\n  local cmd\n  cmd=$(cc-session -g \"$1\" -q 2>/dev/null)\n  if [ $? -ne 0 ] || [ -z \"$cmd\" ]; then\n    echo \"No session found for: $1\" >&2\n    return 1\n  fi\n  eval \"$cmd\"\n}\n\n# Fuzzy search for a session and resume it\nccf() {\n  local cmd\n  cmd=$(cc-session -s \"$1\" -q 2>/dev/null)\n  if [ $? -ne 0 ] || [ -z \"$cmd\" ]; then\n    echo \"No session found for: $1\" >&2\n    return 1\n  fi\n  eval \"$cmd\"\n}\n# <<< cc-session shell functions <<<\n",
    )
}

/// The rc file content after an install: an existing managed block
/// (everything from the first begin marker through the first end
/// marker) is replaced in place; otherwise the block is appended.
pub open spec fn spliced_content(content: Seq<char>) -> Seq<char> {
    match find_seq(content, marker_begin_text()) {
        None => content + "\n"@ + shell_functions_text() + "\n"@,
        Some(b) => {
            let before = trim_end_spec(content.take(b));
            let after = match find_seq(content, marker_end_text()) {
                Some(e) => trim_start_spec(content.skip(e + marker_end_text().len())),
                None => Seq::<char>::empty(),
            };
            before + "\n\n"@ + shell_functions_text() + (if after.len() > 0 {
                "\n"@ + after
            } else {
                Seq::<char>::empty()
            }) + "\n"@
        },
    }
}

fn trimmed_end_prefix(v: &Vec<char>, upto: usize) -> (r: Vec<char>)
    requires
        upto <= v@.len(),
    ensures
        r@ == trim_end_spec(v@.take(upto as int)),
{
    let mut end: usize = upto;
    while end > 0 && wspace_char(v[end - 1])
        invariant
            end <= upto <= v@.len(),
            trim_end_spec(v@.take(upto as int)) == trim_end_spec(v@.take(end as int)),
        decreases end,
    {
        proof {
            assert(v@.take(end as int).last() == v@[end as int - 1]);
            assert(v@.take(end as int).drop_last() =~= v@.take(end as int - 1));
        }
        end = end - 1;
    }
    proof {
        if end > 0 {
            assert(v@.take(end as int).last() == v@[end as int - 1]);
        }
        assert(trim_end_spec(v@.take(upto as int)) == v@.take(end as int));
    }
    let mut out: Vec<char> = Vec::new();
    let mut i: usize = 0;
    while i < end
        invariant
            i <= end <= v@.len(),
            out@ == v@.take(i as int),
        decreases end - i,
    {
        out.push(v[i]);
        i = i + 1;
        proof {
            assert(v@.take(i as int) =~= v@.take(i as int - 1).push(v@[i as int - 1]));
        }
    }
    out
}

fn trimmed_start_suffix(v: &Vec<char>, from: usize) -> (r: Vec<char>)
    requires
        from <= v@.len(),
    ensures
        r@ == trim_start_spec(v@.skip(from as int)),
{
    let n = v.len();
    let mut start: usize = from;
    while start < n && wspace_char(v[start])
        invariant
            from <= start <= n,
            n == v@.len(),
            trim_start_spec(v@.skip(from as int)) == trim_start_spec(v@.skip(start as int)),
        decreases n - start,
    {
        proof {
            assert(v@.skip(start as int).first() == v@[start as int]);
            assert(v@.skip(start as int).drop_first() =~= v@.skip(start as int + 1));
        }
        start = start + 1;
    }
    proof {
        if start < n {
            assert(v@.skip(start as int).first() == v@[start as int]);
        } else {
            assert(v@.skip(start as int) =~= Seq::<char>::empty());
        }
        assert(trim_start_spec(v@.skip(from as int)) == v@.skip(start as int));
    }
    let mut out: Vec<char> = Vec::new();
    let mut i: usize = start;
    while i < n
        invariant
            start <= i <= n,
            n == v@.len(),
            out@ == v@.subrange(start as int, i as int),
        decreases n - i,
    {
        out.push(v[i]);
        i = i + 1;
        proof {
            assert(v@.subrange(start as int, i as int) =~= v@.subrange(
                start as int,
                i as int - 1,
            ).push(v@[i as int - 1]));
        }
    }
    proof {
        assert(v@.subrange(start as int, n as int) =~= v@.skip(start as int));
    }
    out
}

/// Compute the new content of a shell rc file with the managed
/// function block installed, replacing any existing block.
pub fn rc_content_with_functions(content: &str) -> (r: String)
    ensures
        r@ == spliced_content(content@),
{
    let v = chars_of(content);
    let begin_marker = chars_of("# >>> cc-session shell functions >>>");
    let end_marker = chars_of("# <<< cc-session shell functions <<<");
    let block = shell_functions();
    proof {
        crate::textops::lemma_find_from_ok(v@, begin_marker@, 0);
        crate::textops::lemma_find_from_ok(v@, end_marker@, 0);
    }
    match find_sub(&v, &begin_marker) {
        None => {
            let mut r = String::new();
            r.append(content);
            r.append("\n");
            r.append(block.as_str());
            r.append("\n");
            r
        },
        Some(b) => {
            let before = trimmed_end_prefix(&v, b);
            let after: Vec<char> = match find_sub(&v, &end_marker) {
                Some(e) => {
                    let vn = v.len();
                    proof {
                        assert(e as int + end_marker@.len() <= vn as int);
                    }
                    trimmed_start_suffix(&v, e + end_marker.len())
                },
                None => Vec::new(),
            };
            let mut r = string_of(&before);
            r.append("\n\n");
            r.append(block.as_str());
            if after.len() > 0 {
                r.append("\n");
                let after_s = string_of(&after);
                r.append(after_s.as_str());
            }
            r.append("\n");
            proof {
                assert(r@ =~= spliced_content(content@));
            }
            r
        },
    }
}

} // verus!
