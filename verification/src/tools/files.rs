//! What the file and command tools decide and answer: refusing sensitive
//! paths and paths outside the workspace, size and encoding checks, the
//! directory listing, name and line matching, and the replies. Walking
//! directories, reading and writing files and starting processes are done
//! by the application.

use vstd::prelude::*;
use vstd::utf8::{decode_utf8, valid_utf8};

use crate::context::{is_sensitive, sensitive_path, sensitive_refusal};
use crate::error::AgentError;
use crate::path::{path_starts_with, starts_with};
use crate::plugin::resolver::{key_views, sort_by_key};
use crate::precheck::{analyze, spec_categories, spec_joined, RiskTier};
use crate::sse::decode_utf8_bytes;
use crate::text::{
    chars_of, contains_text, debug_list, debug_list_string, decimal, join, join_strings, lex_lt, lowercase,
    push_char, push_decimal, string_of, string_of_range, text_contains, to_lowercase,
};
use crate::tool::ToolOutput;
use crate::tools::{FindFilesTool, GrepFilesTool, ListDirTool, ReadFileTool, RunCommandTool, WriteFileTool};

verus! {

/// Refuses a sensitive path (one with a component such as `.env` or `id_rsa`).
pub fn refuse_sensitive(abs: &str) -> (r: Result<(), AgentError>)
    ensures
        !sensitive_path(abs@) ==> r is Ok,
        sensitive_path(abs@) ==> (r matches Err(AgentError::PathPolicy(m)) && m@ == sensitive_refusal(abs@)),
{
    if is_sensitive(abs) {
        let mut m = String::from_str("sensitive path refused: ");
        m.append(abs);
        return Err(AgentError::PathPolicy(m));
    }
    Ok(())
}

/// The refusal of a path outside the workspace, for the argument `label`.
pub open spec fn outside_message(label: Seq<char>, abs: Seq<char>) -> Seq<char> {
    label + " "@ + abs + " escapes workspace"@
}

/// Accepts `abs` when it lies under `workspace` (component-wise prefix);
/// otherwise a `PathPolicy` error `<label> <abs> escapes workspace`.
pub fn check_under(abs: String, workspace: &str, label: &str) -> (r: Result<String, AgentError>)
    ensures
        starts_with(abs@, workspace@) ==> r == Ok::<String, AgentError>(abs),
        !starts_with(abs@, workspace@) ==> (r matches Err(AgentError::PathPolicy(m)) && m@ == outside_message(
            label@,
            abs@,
        )),
{
    if path_starts_with(abs.as_str(), workspace) {
        return Ok(abs);
    }
    let mut m = String::from_str(label);
    m.append(" ");
    m.append(abs.as_str());
    m.append(" escapes workspace");
    Err(AgentError::PathPolicy(m))
}

/// The refusal of a file that is too large.
pub open spec fn too_large_message(abs: Seq<char>, max: nat) -> Seq<char> {
    "file "@ + abs + " exceeds "@ + decimal(max) + " bytes"@
}

impl ReadFileTool {
    /// Refuses a file of `size` bytes when it exceeds `max_bytes`.
    pub fn check_size(&self, abs: &str, size: u64) -> (r: Result<(), AgentError>)
        ensures
            size <= self.max_bytes ==> r is Ok,
            size > self.max_bytes ==> (r matches Err(AgentError::Context(m)) && m@ == too_large_message(
                abs@,
                self.max_bytes as nat,
            )),
    {
        if size as u128 > self.max_bytes as u128 {
            let mut m = String::from_str("file ");
            m.append(abs);
            m.append(" exceeds ");
            push_decimal(&mut m, self.max_bytes as u128);
            m.append(" bytes");
            return Err(AgentError::Context(m));
        }
        Ok(())
    }

    /// The reply for a file's bytes: refused when they hold a zero byte
    /// (binary) or are not UTF-8; else `File: <path>`, a blank line and the text.
    pub fn file_output(&self, abs: &str, bytes: &[u8]) -> (r: Result<ToolOutput, AgentError>)
        ensures
            bytes@.contains(0u8) ==> (r matches Err(AgentError::Context(m)) && m@ == "binary file "@ + abs@
                + " not readable as text"@),
            !bytes@.contains(0u8) && !valid_utf8(bytes@) ==> (r matches Err(AgentError::Context(m)) && m@ == abs@
                + " is not valid UTF-8"@),
            !bytes@.contains(0u8) && valid_utf8(bytes@) ==> (r matches Ok(o) && o.success && o.content@ == "File: "@
                + abs@ + "\n\n"@ + decode_utf8(bytes@)),
    {
        let mut i: usize = 0;
        while i < bytes.len()
            invariant
                i <= bytes@.len(),
                forall|j: int| 0 <= j < i ==> bytes@[j] != 0u8,
            decreases bytes@.len() - i,
        {
            if bytes[i] == 0u8 {
                assert(bytes@[i as int] == 0u8);
                let mut m = String::from_str("binary file ");
                m.append(abs);
                m.append(" not readable as text");
                return Err(AgentError::Context(m));
            }
            i = i + 1;
        }
        match decode_utf8_bytes(bytes) {
            Ok(text) => {
                let mut s = String::from_str("File: ");
                s.append(abs);
                s.append("\n\n");
                s.append(text.as_str());
                Ok(ToolOutput::ok(s))
            },
            Err(_) => {
                let mut m = String::from_str(abs);
                m.append(" is not valid UTF-8");
                Err(AgentError::Context(m))
            },
        }
    }
}

/// The UTF-8 size of a text.
pub open spec fn utf8_size(s: Seq<char>) -> nat {
    vstd::utf8::encode_utf8(s).len()
}

impl WriteFileTool {
    /// Refuses content larger than `max_bytes` (its UTF-8 size).
    pub fn check_content(&self, content: &str) -> (r: Result<(), AgentError>)
        ensures
            utf8_size(content@) <= self.max_bytes ==> r is Ok,
            utf8_size(content@) > self.max_bytes ==> (r matches Err(AgentError::Context(m)) && m@ == "content exceeds "@
                + decimal(self.max_bytes as nat) + " bytes"@),
    {
        if content.as_bytes().len() > self.max_bytes {
            let mut m = String::from_str("content exceeds ");
            push_decimal(&mut m, self.max_bytes as u128);
            m.append(" bytes");
            return Err(AgentError::Context(m));
        }
        Ok(())
    }

    /// The reply once `content` has been written to `abs`.
    pub fn written(&self, abs: &str, content: &str) -> (o: ToolOutput)
        ensures
            o.success,
            o.content@ == "Written "@ + decimal(utf8_size(content@)) + " bytes to "@ + abs@,
    {
        let mut s = String::from_str("Written ");
        push_decimal(&mut s, content.as_bytes().len() as u128);
        s.append(" bytes to ");
        s.append(abs);
        ToolOutput::ok(s)
    }
}

/// `s` padded on the right with spaces to `w` characters (`{:<w}`).
pub open spec fn pad_right(s: Seq<char>, w: nat) -> Seq<char> {
    if s.len() >= w {
        s
    } else {
        s + Seq::new((w - s.len()) as nat, |i: int| ' ')
    }
}

/// The listing line of a directory entry.
pub open spec fn dir_line(name: Seq<char>, is_dir: bool) -> Seq<char> {
    pad_right(name, 40) + " "@ + if is_dir {
        "[dir]"@
    } else {
        "[file]"@
    }
}

/// Whether a name is hidden (starts with `.`).
pub open spec fn hidden(name: Seq<char>) -> bool {
    name.len() > 0 && name[0] == '.'
}

/// The listing lines of the first `k` entries that are not hidden, in order.
pub open spec fn visible_lines(entries: Seq<(Seq<char>, bool)>, k: int) -> Seq<Seq<char>>
    decreases k,
{
    if k <= 0 {
        Seq::empty()
    } else if hidden(entries[k - 1].0) {
        visible_lines(entries, k - 1)
    } else {
        visible_lines(entries, k - 1).push(dir_line(entries[k - 1].0, entries[k - 1].1))
    }
}

/// The entries as names and kinds.
pub open spec fn entry_views(entries: Seq<(String, bool)>) -> Seq<(Seq<char>, bool)> {
    entries.map_values(|e: (String, bool)| (e.0@, e.1))
}

/// Whether the texts are in order (each no greater than the next).
pub open spec fn texts_sorted(s: Seq<Seq<char>>) -> bool {
    forall|i: int, j: int| 0 <= i < j < s.len() ==> !lex_lt(#[trigger] s[j], #[trigger] s[i])
}

/// Whether `content` lists `want`, sorted, under the heading `abs`.
pub open spec fn listed(ls: Seq<Seq<char>>, want: Seq<Seq<char>>, abs: Seq<char>, content: Seq<char>) -> bool {
    &&& ls.to_multiset() == want.to_multiset()
    &&& texts_sorted(ls)
    &&& content == abs + "\n"@ + join(ls, "\n"@)
}

fn padded(name: &str) -> (r: String)
    ensures
        r@ == pad_right(name@, 40),
{
    let v = chars_of(name);
    let mut s = string_of(v.as_slice());
    let mut k: usize = v.len();
    while k < 40
        invariant
            v@ == name@,
            v@.len() <= k <= 40 || (k == v@.len() && k >= 40),
            s@ == name@ + Seq::new((k - v@.len()) as nat, |i: int| ' '),
        decreases 40 - k,
    {
        push_char(&mut s, ' ');
        k = k + 1;
        assert(s@ =~= name@ + Seq::new((k - v@.len()) as nat, |i: int| ' '));
    }
    if v.len() >= 40 {
        assert(s@ =~= name@);
    }
    s
}

impl ListDirTool {
    /// The reply listing a directory's entries (name, whether a directory):
    /// hidden names are left out; each line is the name padded to 40
    /// characters, a space and `[dir]` or `[file]`; the lines are sorted
    /// and follow the directory's path. No visible entry: `(empty directory: <path>)`.
    pub fn listing(&self, abs: &str, entries: &[(String, bool)]) -> (o: ToolOutput)
        ensures
            o.success,
            ({
                let want = visible_lines(entry_views(entries@), entries@.len() as int);
                &&& want.len() == 0 ==> o.content@ == "(empty directory: "@ + abs@ + ")"@
                &&& want.len() > 0 ==> exists|ls: Seq<Seq<char>>| #[trigger] listed(ls, want, abs@, o.content@)
            }),
    {
        let ghost es = entry_views(entries@);
        let mut lines: Vec<(String, ())> = Vec::new();
        let mut i: usize = 0;
        while i < entries.len()
            invariant
                i <= entries@.len(),
                es == entry_views(entries@),
                lines@.map_values(|l: (String, ())| l.0@) == visible_lines(es, i as int),
            decreases entries@.len() - i,
        {
            let name = entries[i].0.as_str();
            let ghost prev = lines@;
            let hide = name.unicode_len() > 0 && name.get_char(0) == '.';
            assert(hide == hidden(es[i as int].0));
            if !hide {
                let mut line = padded(name);
                line.append(" ");
                if entries[i].1 {
                    line.append("[dir]");
                } else {
                    line.append("[file]");
                }
                lines.push((line, ()));
                assert(lines@.map_values(|l: (String, ())| l.0@) =~= prev.map_values(|l: (String, ())| l.0@).push(
                    dir_line(es[i as int].0, es[i as int].1),
                ));
            }
            i = i + 1;
        }
        let ghost want = visible_lines(es, entries@.len() as int);
        if lines.len() == 0 {
            let mut s = String::from_str("(empty directory: ");
            s.append(abs);
            s.append(")");
            return ToolOutput::ok(s);
        }
        let ghost unsorted = lines@;
        let sorted = sort_by_key(lines);
        let mut texts: Vec<String> = Vec::new();
        let mut j: usize = 0;
        while j < sorted.len()
            invariant
                j <= sorted@.len(),
                texts@.map_values(|t: String| t@) == sorted@.map_values(|l: (String, ())| l.0@).take(j as int),
            decreases sorted@.len() - j,
        {
            let ghost prev = texts@;
            let t = String::from_str(sorted[j].0.as_str());
            texts.push(t);
            proof {
                let keys = sorted@.map_values(|l: (String, ())| l.0@);
                assert(prev.map_values(|t: String| t@).len() == prev.len());
                assert(prev.len() == j);
                assert(texts@ == prev.push(t));
                assert(keys[j as int] == sorted@[j as int].0@);
                assert forall|k: int| 0 <= k < j + 1 implies (#[trigger] texts@[k])@ == keys[k] by {
                    if k < j {
                        assert(prev.map_values(|t: String| t@)[k] == keys.take(j as int)[k]);
                    }
                }
                assert(texts@.map_values(|t: String| t@) =~= keys.take(j + 1));
            }
            j = j + 1;
        }
        let body = join_strings(texts.as_slice(), "\n");
        let mut s = String::from_str(abs);
        s.append("\n");
        s.append(body.as_str());
        proof {
            let ls = sorted@.map_values(|l: (String, ())| l.0@);
            assert(sorted@.map_values(|l: (String, ())| l.0@).take(sorted@.len() as int) =~= ls);
            assert(ls == key_views(sorted@));
            assert(want == key_views(unsorted));
            assert(texts_sorted(ls)) by {
                assert forall|a: int, b: int| 0 <= a < b < ls.len() implies !lex_lt(#[trigger] ls[b], #[trigger] ls[a]) by {
                    assert(ls[a] == sorted@[a].0@ && ls[b] == sorted@[b].0@);
                }
            }
            assert(listed(ls, want, abs@, s@));
        }
        ToolOutput::ok(s)
    }
}

/// Whether a file name matches a lower-cased pattern: its lower case holds it.
pub open spec fn name_matches(name: Seq<char>, pattern: Seq<char>) -> bool {
    contains_text(lowercase(name), pattern)
}

fn lower_contains(text: &str, pattern: &str) -> (b: bool)
    ensures
        b == name_matches(text@, pattern@),
{
    let lower = to_lowercase(text);
    text_contains(lower.as_str(), pattern)
}

impl FindFilesTool {
    /// Whether file `name` matches the lower-cased `pattern`.
    pub fn matches(&self, name: &str, pattern: &str) -> (b: bool)
        ensures
            b == name_matches(name@, pattern@),
    {
        lower_contains(name, pattern)
    }

    /// The reply listing the files found (as given) for `pattern` under `abs`.
    pub fn found_output(&self, pattern: &str, abs: &str, found: &[String]) -> (o: ToolOutput)
        ensures
            o.success,
            found@.len() == 0 ==> o.content@ == "No files matching '"@ + pattern@ + "' under "@ + abs@,
            found@.len() > 0 ==> o.content@ == "Found "@ + decimal(found@.len()) + " files:\n\n"@ + join(
                found@.map_values(|f: String| f@),
                "\n"@,
            ),
    {
        if found.len() == 0 {
            let mut s = String::from_str("No files matching '");
            s.append(pattern);
            s.append("' under ");
            s.append(abs);
            return ToolOutput::ok(s);
        }
        let mut s = String::from_str("Found ");
        push_decimal(&mut s, found.len() as u128);
        s.append(" files:\n\n");
        s.append(join_strings(found, "\n").as_str());
        ToolOutput::ok(s)
    }
}

/// A line without its final `\r`, if it has one.
pub open spec fn strip_cr(line: Seq<char>) -> Seq<char> {
    if line.len() > 0 && line.last() == '\r' {
        line.drop_last()
    } else {
        line
    }
}

/// The lines of `s` after the line begun as `cur`, as `str::lines` gives
/// them: split after each `\n`, a `\r` before it removed, no empty line
/// after a final `\n`.
pub open spec fn lines_from(s: Seq<char>, cur: Seq<char>) -> Seq<Seq<char>>
    decreases s.len(),
{
    if s.len() == 0 {
        if cur.len() == 0 {
            Seq::empty()
        } else {
            seq![cur]
        }
    } else if s[0] == '\n' {
        seq![strip_cr(cur)] + lines_from(s.drop_first(), Seq::empty())
    } else {
        lines_from(s.drop_first(), cur.push(s[0]))
    }
}

/// The lines of `s` (`str::lines`).
pub open spec fn text_lines(s: Seq<char>) -> Seq<Seq<char>> {
    lines_from(s, Seq::empty())
}

/// The lines of a text (`str::lines`).
pub fn lines_of(s: &str) -> (r: Vec<String>)
    ensures
        r@.map_values(|l: String| l@) == text_lines(s@),
{
    let v = chars_of(s);
    let mut out: Vec<String> = Vec::new();
    let mut cur: Vec<char> = Vec::new();
    let mut i: usize = 0;
    assert(v@.skip(0) =~= v@);
    while i < v.len()
        invariant
            v@ == s@,
            i <= v@.len(),
            out@.map_values(|l: String| l@) + lines_from(v@.skip(i as int), cur@) == text_lines(s@),
        decreases v@.len() - i,
    {
        let ghost rest = v@.skip(i as int);
        let ghost before = out@.map_values(|l: String| l@);
        assert(rest.drop_first() =~= v@.skip(i + 1));
        assert(rest[0] == v@[i as int]);
        if v[i] == '\n' {
            let line = if cur.len() > 0 && cur[cur.len() - 1] == '\r' {
                let l = string_of_range(cur.as_slice(), 0, cur.len() - 1);
                assert(cur@.subrange(0, cur@.len() - 1) =~= cur@.drop_last());
                l
            } else {
                string_of(cur.as_slice())
            };
            let ghost c = cur@;
            out.push(line);
            cur = Vec::new();
            assert(out@.map_values(|l: String| l@) =~= before.push(strip_cr(c)));
            assert(before + (seq![strip_cr(c)] + lines_from(rest.drop_first(), Seq::empty())) =~= before.push(
                strip_cr(c),
            ) + lines_from(rest.drop_first(), Seq::empty()));
        } else {
            cur.push(v[i]);
        }
        i = i + 1;
    }
    assert(v@.skip(i as int) =~= Seq::<char>::empty());
    if cur.len() > 0 {
        let ghost before = out@.map_values(|l: String| l@);
        out.push(string_of(cur.as_slice()));
        assert(out@.map_values(|l: String| l@) =~= before + seq![cur@]);
    } else {
        assert(out@.map_values(|l: String| l@) =~= out@.map_values(|l: String| l@) + Seq::<Seq<char>>::empty());
    }
    out
}

/// The result line of a match: the file, the line number (from 1) and the line.
pub open spec fn hit_line(file: Seq<char>, n: int, line: Seq<char>) -> Seq<char> {
    file + ":"@ + decimal((n + 1) as nat) + ":"@ + line
}

/// The result lines of the first `k` lines whose lower case holds `pattern`.
pub open spec fn line_hits(file: Seq<char>, lines: Seq<Seq<char>>, pattern: Seq<char>, k: int) -> Seq<Seq<char>>
    decreases k,
{
    if k <= 0 {
        Seq::empty()
    } else if name_matches(lines[k - 1], pattern) {
        line_hits(file, lines, pattern, k - 1).push(hit_line(file, k - 1, lines[k - 1]))
    } else {
        line_hits(file, lines, pattern, k - 1)
    }
}

/// The hits up to `j` begin the hits up to `k`.
proof fn lemma_hits_prefix(file: Seq<char>, lines: Seq<Seq<char>>, pattern: Seq<char>, j: int, k: int)
    requires
        0 <= j <= k,
    ensures
        line_hits(file, lines, pattern, j).len() <= line_hits(file, lines, pattern, k).len(),
        line_hits(file, lines, pattern, k).take(line_hits(file, lines, pattern, j).len() as int) == line_hits(
            file,
            lines,
            pattern,
            j,
        ),
    decreases k - j,
{
    if j < k {
        lemma_hits_prefix(file, lines, pattern, j, k - 1);
        let a = line_hits(file, lines, pattern, j);
        let b = line_hits(file, lines, pattern, k - 1);
        let c = line_hits(file, lines, pattern, k);
        if name_matches(lines[k - 1], pattern) {
            assert(c.take(a.len() as int) =~= b.take(a.len() as int));
        }
    } else {
        assert(line_hits(file, lines, pattern, k).take(line_hits(file, lines, pattern, k).len() as int)
            =~= line_hits(file, lines, pattern, k));
    }
}

/// The result lines that fit after `found` results when at most `max` are kept.
pub open spec fn kept_hits(hits: Seq<Seq<char>>, found: nat, max: nat) -> Seq<Seq<char>> {
    let room: int = if found < max {
        max - found
    } else {
        0
    };
    if hits.len() <= room {
        hits
    } else {
        hits.take(room)
    }
}

impl GrepFilesTool {
    /// Adds the matches of one file's text to `results`: each line whose
    /// lower case holds the lower-cased `pattern`, as `file:number:line`,
    /// until `max_lines` results are there.
    pub fn scan_file(&self, file: &str, content: &str, pattern: &str, results: &mut Vec<String>)
        ensures
            final(results)@.map_values(|r: String| r@) == old(results)@.map_values(|r: String| r@) + kept_hits(
                line_hits(file@, text_lines(content@), pattern@, text_lines(content@).len() as int),
                old(results)@.len(),
                self.max_lines as nat,
            ),
    {
        let lines = lines_of(content);
        let ghost ls = text_lines(content@);
        let ghost start = results@.map_values(|r: String| r@);
        let ghost n0 = results@.len();
        let ghost room: int = if n0 < self.max_lines {
            self.max_lines - n0
        } else {
            0
        };
        let mut j: usize = 0;
        while j < lines.len()
            invariant
                lines@.map_values(|l: String| l@) == ls,
                j <= lines@.len(),
                results@.map_values(|r: String| r@) == start + line_hits(file@, ls, pattern@, j as int),
                line_hits(file@, ls, pattern@, j as int).len() <= room,
                n0 == start.len(),
                room == (if n0 < self.max_lines {
                    self.max_lines - n0
                } else {
                    0int
                }),
            ensures
                j >= lines@.len() || results@.len() >= self.max_lines,
                j <= lines@.len(),
                results@.map_values(|r: String| r@) == start + line_hits(file@, ls, pattern@, j as int),
                line_hits(file@, ls, pattern@, j as int).len() <= room,
            decreases lines@.len() - j,
        {
            if results.len() >= self.max_lines {
                break;
            }
            assert(lines@.map_values(|l: String| l@)[j as int] == lines@[j as int]@);
            let ghost before = results@.map_values(|r: String| r@);
            if lower_contains(lines[j].as_str(), pattern) {
                let mut line = String::from_str(file);
                line.append(":");
                push_decimal(&mut line, j as u128 + 1);
                line.append(":");
                line.append(lines[j].as_str());
                results.push(line);
                assert(results@.map_values(|r: String| r@) =~= before.push(hit_line(file@, j as int, ls[j as int])));
            }
            j = j + 1;
        }
        proof {
            let all = line_hits(file@, ls, pattern@, ls.len() as int);
            let got = line_hits(file@, ls, pattern@, j as int);
            lemma_hits_prefix(file@, ls, pattern@, j as int, ls.len() as int);
            assert(results@.len() == n0 + got.len());
            if j < ls.len() {
                assert(got.len() == room);
                assert(all.take(room) == got);
            } else {
                assert(got == all);
            }
            assert(kept_hits(all, n0, self.max_lines as nat) == got);
        }
    }

    /// The reply listing the matches (as given) for `pattern` under `abs`.
    pub fn found_output(&self, pattern: &str, abs: &str, results: &[String]) -> (o: ToolOutput)
        ensures
            o.success,
            results@.len() == 0 ==> o.content@ == "No matches for '"@ + pattern@ + "' under "@ + abs@,
            results@.len() > 0 ==> o.content@ == "Found "@ + decimal(results@.len()) + " matches:\n\n"@ + join(
                results@.map_values(|f: String| f@),
                "\n"@,
            ),
    {
        if results.len() == 0 {
            let mut s = String::from_str("No matches for '");
            s.append(pattern);
            s.append("' under ");
            s.append(abs);
            return ToolOutput::ok(s);
        }
        let mut s = String::from_str("Found ");
        push_decimal(&mut s, results.len() as u128);
        s.append(" matches:\n\n");
        s.append(join_strings(results, "\n").as_str());
        ToolOutput::ok(s)
    }
}

/// The refusal of a high-risk command.
pub open spec fn blocked_message(categories: Seq<Seq<char>>) -> Seq<char> {
    "high-risk command blocked: categories="@ + debug_list(categories)
}

impl RunCommandTool {
    /// Pre-checks a command (program then arguments): refused when a
    /// high-risk family matches, naming the families.
    pub fn precheck(&self, argv: &[String]) -> (r: Result<(), AgentError>)
        ensures
            spec_categories(spec_joined(argv@)).len() == 0 ==> r is Ok,
            spec_categories(spec_joined(argv@)).len() > 0 ==> (r matches Err(AgentError::CommandPolicy(m)) && m@
                == blocked_message(spec_categories(spec_joined(argv@)))),
    {
        let p = match analyze(argv) {
            Ok(p) => p,
            Err(e) => {
                return Err(e);
            },
        };
        if p.tier == RiskTier::High {
            let mut m = String::from_str("high-risk command blocked: categories=");
            m.append(debug_list_string(p.categories.as_slice()).as_str());
            return Err(AgentError::CommandPolicy(m));
        }
        Ok(())
    }
}

} // verus!
