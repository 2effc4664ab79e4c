//! The built-in tools' settings and the parts of their work that decide
//! rather than touch the file system or start processes (those are done by
//! the application).

use vstd::prelude::*;

pub mod delegation;
pub mod files;

use crate::bench::runner::signed_decimal;
use crate::reminders::TodoItem;
use crate::text::push_decimal;
use crate::error::AgentError;
use crate::tool::ToolOutput;
use vstd::utf8::encode_utf8;

verus! {

/// The built-in tools a run can be given by name.
#[derive(Debug, Clone, Copy, PartialEq, Eq, Structural)]
pub enum ToolKind {
    TodoWrite,
    ReadFile,
    WriteFile,
    RunCommand,
    ListDir,
    GrepFiles,
    FindFiles,
    Scratchpad,
}

/// The tool a name stands for.
pub open spec fn kind_named(name: Seq<char>) -> Option<ToolKind> {
    if name == "todo_write"@ {
        Some(ToolKind::TodoWrite)
    } else if name == "read_file"@ {
        Some(ToolKind::ReadFile)
    } else if name == "write_file"@ {
        Some(ToolKind::WriteFile)
    } else if name == "run_command"@ {
        Some(ToolKind::RunCommand)
    } else if name == "list_dir"@ {
        Some(ToolKind::ListDir)
    } else if name == "grep_files"@ {
        Some(ToolKind::GrepFiles)
    } else if name == "find_files"@ {
        Some(ToolKind::FindFiles)
    } else if name == "scratchpad"@ {
        Some(ToolKind::Scratchpad)
    } else {
        None
    }
}

/// The tool named `name` in the `--tools` list; an unknown name is an error.
pub fn tool_kind(name: &str) -> (r: Result<ToolKind, AgentError>)
    ensures
        match kind_named(name@) {
            Some(k) => r == Ok::<ToolKind, AgentError>(k),
            None => r matches Err(AgentError::Context(m)) && m@ == "unknown tool: `"@ + name@ + "`"@,
        },
{
    let eq = |lit: &str| -> (b: bool)
        ensures
            b == (name@ == lit@),
        { crate::text::str_eq(name, lit) };
    if eq("todo_write") {
        Ok(ToolKind::TodoWrite)
    } else if eq("read_file") {
        Ok(ToolKind::ReadFile)
    } else if eq("write_file") {
        Ok(ToolKind::WriteFile)
    } else if eq("run_command") {
        Ok(ToolKind::RunCommand)
    } else if eq("list_dir") {
        Ok(ToolKind::ListDir)
    } else if eq("grep_files") {
        Ok(ToolKind::GrepFiles)
    } else if eq("find_files") {
        Ok(ToolKind::FindFiles)
    } else if eq("scratchpad") {
        Ok(ToolKind::Scratchpad)
    } else {
        let mut m = String::from_str("unknown tool: `");
        m.append(name);
        m.append("`");
        Err(AgentError::Context(m))
    }
}

/// `read_file`: reads a file inside the workspace.
#[derive(Debug, Clone, Copy)]
pub struct ReadFileTool {
    /// The largest file read, in bytes.
    pub max_bytes: usize,
}

impl ReadFileTool {
    /// Reads files up to 1,000,000 bytes.
    pub fn new() -> (t: Self)
        ensures
            t.max_bytes == 1_000_000,
    {
        ReadFileTool { max_bytes: 1_000_000 }
    }

    /// The same tool with another byte limit.
    pub fn with_max_bytes(self, bytes: usize) -> (t: Self)
        ensures
            t.max_bytes == bytes,
    {
        ReadFileTool { max_bytes: bytes }
    }
}

impl Default for ReadFileTool {
    fn default() -> (t: Self)
        ensures
            t.max_bytes == 1_000_000,
    {
        ReadFileTool::new()
    }
}

/// `write_file`: writes a file inside the workspace.
#[derive(Debug, Clone, Copy)]
pub struct WriteFileTool {
    /// The largest content written, in bytes.
    pub max_bytes: usize,
}

impl WriteFileTool {
    /// Writes contents up to 10,000,000 bytes.
    pub fn new() -> (t: Self)
        ensures
            t.max_bytes == 10_000_000,
    {
        WriteFileTool { max_bytes: 10_000_000 }
    }

    /// The same tool with another byte limit.
    pub fn with_max_bytes(self, bytes: usize) -> (t: Self)
        ensures
            t.max_bytes == bytes,
    {
        WriteFileTool { max_bytes: bytes }
    }
}

impl Default for WriteFileTool {
    fn default() -> (t: Self)
        ensures
            t.max_bytes == 10_000_000,
    {
        WriteFileTool::new()
    }
}

/// `run_command`: runs a program in the workspace.
#[derive(Debug, Clone, Copy)]
pub struct RunCommandTool {
    /// The timeout in seconds.
    pub timeout_secs: u64,
    /// The most output bytes kept.
    pub max_output_bytes: usize,
}

/// The marker appended to output that was cut.
pub open spec fn truncation_marker() -> Seq<u8> {
    "\n... (output truncated)"@.map_values(|c: char| c as u8)
}

/// Text read from bytes, with each malformed sequence replaced by U+FFFD
/// (`String::from_utf8_lossy`).
pub uninterp spec fn lossy_text(bytes: Seq<u8>) -> Seq<char>;

/// The text of bytes (`String::from_utf8_lossy`); its result is the name
/// `lossy_text` applied to the bytes.
#[verifier::external_body]
fn from_utf8_lossy(bytes: &[u8]) -> (s: String)
    ensures
        s@ == lossy_text(bytes@),
{
    String::from_utf8_lossy(bytes).into_owned()
}

/// The output bytes kept of a command: stdout then stderr, cut to
/// `max` bytes and marked when longer.
pub open spec fn kept_output(stdout: Seq<u8>, stderr: Seq<u8>, max: nat) -> Seq<u8> {
    let all = stdout + stderr;
    if all.len() > max {
        all.take(max as int) + truncation_marker()
    } else {
        all
    }
}

impl RunCommandTool {
    /// A 120 s timeout and 65,536 output bytes.
    pub fn new() -> (t: Self)
        ensures
            t.timeout_secs == 120,
            t.max_output_bytes == 65_536,
    {
        RunCommandTool { timeout_secs: 120, max_output_bytes: 65_536 }
    }

    /// The same tool with another timeout.
    pub fn with_timeout(self, secs: u64) -> (t: Self)
        ensures
            t.timeout_secs == secs,
            t.max_output_bytes == self.max_output_bytes,
    {
        RunCommandTool { timeout_secs: secs, ..self }
    }

    /// The tool's output for a finished command: `exit=<code>` and the kept
    /// output; it succeeds exactly when the exit code is 0.
    pub fn command_output(&self, stdout: Vec<u8>, stderr: Vec<u8>, exit_code: i32) -> (o: ToolOutput)
        ensures
            o.success == (exit_code == 0),
            o.content@ == "exit="@ + signed_decimal(exit_code as int) + "\n"@ + lossy_text(
                kept_output(stdout@, stderr@, self.max_output_bytes as nat),
            ),
    {
        let ghost all = stdout@ + stderr@;
        let mut combined = stdout;
        let mut rest = stderr;
        combined.append(&mut rest);
        assert(combined@ == all);
        if combined.len() > self.max_output_bytes {
            combined.truncate(self.max_output_bytes);
            let marker = "\n... (output truncated)".as_bytes();
            let mut i: usize = 0;
            let ghost head = combined@;
            proof {
                reveal_strlit("\n... (output truncated)");
                vstd::string::is_ascii_spec_bytes("\n... (output truncated)");
            }
            while i < marker.len()
                invariant
                    i <= marker@.len(),
                    combined@ == head + marker@.take(i as int),
                decreases marker@.len() - i,
            {
                combined.push(marker[i]);
                i = i + 1;
                assert(combined@ =~= head + marker@.take(i as int));
            }
            assert(marker@.take(i as int) =~= marker@);
            assert(marker@ =~= truncation_marker());
        }
        let text = from_utf8_lossy(combined.as_slice());
        let mut content = String::from_str("exit=");
        if exit_code < 0 {
            crate::text::push_char(&mut content, '-');
            let magnitude: u128 = (0i64 - exit_code as i64) as u128;
            push_decimal(&mut content, magnitude);
        } else {
            push_decimal(&mut content, exit_code as u128);
        }
        content.append("\n");
        content.append(text.as_str());
        if exit_code == 0 {
            ToolOutput::ok(content)
        } else {
            ToolOutput::err(content)
        }
    }
}

impl Default for RunCommandTool {
    fn default() -> (t: Self)
        ensures
            t.timeout_secs == 120,
            t.max_output_bytes == 65_536,
    {
        RunCommandTool::new()
    }
}

/// `list_dir`: lists a directory.
#[derive(Debug, Clone, Copy, Default)]
pub struct ListDirTool;

impl ListDirTool {
    /// The tool.
    pub fn new() -> Self {
        ListDirTool
    }
}

/// `find_files`: finds files by name.
#[derive(Debug, Clone, Copy)]
pub struct FindFilesTool {
    /// The most results.
    pub max_results: usize,
}

impl FindFilesTool {
    /// At most 100 results.
    pub fn new() -> (t: Self)
        ensures
            t.max_results == 100,
    {
        FindFilesTool { max_results: 100 }
    }
}

impl Default for FindFilesTool {
    fn default() -> (t: Self)
        ensures
            t.max_results == 100,
    {
        FindFilesTool::new()
    }
}

/// `grep_files`: searches file contents.
#[derive(Debug, Clone, Copy)]
pub struct GrepFilesTool {
    /// The most result lines.
    pub max_lines: usize,
}

impl GrepFilesTool {
    /// At most 100 lines.
    pub fn new() -> (t: Self)
        ensures
            t.max_lines == 100,
    {
        GrepFilesTool { max_lines: 100 }
    }
}

impl Default for GrepFilesTool {
    fn default() -> (t: Self)
        ensures
            t.max_lines == 100,
    {
        GrepFilesTool::new()
    }
}

/// `todo_write`: holds the model's TODO list; each write replaces the whole list.
#[derive(Debug)]
pub struct TodoWriteTool {
    items: Vec<TodoItem>,
}

impl TodoWriteTool {
    /// The list held.
    pub closed spec fn list(self) -> Seq<TodoItem> {
        self.items@
    }

    /// An empty list.
    pub fn new() -> (t: Self)
        ensures
            t.list() == Seq::<TodoItem>::empty(),
    {
        TodoWriteTool { items: Vec::new() }
    }

    /// The list held.
    pub fn current(&self) -> (r: &[TodoItem])
        ensures
            r@ == self.list(),
    {
        self.items.as_slice()
    }

    /// Replaces the whole list; the result text names the schema and the count.
    pub fn write(&mut self, todos: Vec<TodoItem>) -> (o: ToolOutput)
        ensures
            final(self).list() == todos@,
            o.success,
            o.content@ == "aura.todo.v1: "@ + crate::text::decimal(todos@.len()) + " items written"@,
    {
        let len = todos.len();
        self.items = todos;
        let mut s = String::from_str("aura.todo.v1: ");
        push_decimal(&mut s, len as u128);
        s.append(" items written");
        ToolOutput::ok(s)
    }
}

impl Default for TodoWriteTool {
    fn default() -> (t: Self)
        ensures
            t.list() == Seq::<TodoItem>::empty(),
    {
        TodoWriteTool::new()
    }
}

/// One scratchpad entry.
#[derive(Debug, Clone)]
pub struct ScratchpadEntry {
    /// The stored text.
    pub value: String,
    /// When it was last written (Unix seconds).
    pub updated_at: i64,
}

} // verus!

verus! {

/// The scratchpad's entries by name: the state behind the `scratchpad`
/// tool. Loading and saving `artifacts/scratchpad.json` is done by the
/// application.
#[derive(Debug, Clone)]
pub struct ScratchpadStore {
    entries: Vec<(String, ScratchpadEntry)>,
}

/// What a scratchpad action gives back.
#[derive(Debug)]
pub enum ScratchpadReply {
    /// The tool's output; `changed` tells whether the store must be saved.
    Done { output: ToolOutput, changed: bool },
    /// List the entries (their names, sizes and times).
    List,
}

/// Whether `after` is `before` with entry `name` now holding `value`,
/// written at `now`, and every other entry unchanged.
pub open spec fn written(
    before: Map<Seq<char>, ScratchpadEntry>,
    after: Map<Seq<char>, ScratchpadEntry>,
    name: Seq<char>,
    value: Seq<char>,
    now: i64,
) -> bool {
    &&& after.dom() == before.dom().insert(name)
    &&& after[name].value@ == value
    &&& after[name].updated_at == now
    &&& forall|k: Seq<char>| k != name && #[trigger] before.dom().contains(k) ==> after[k] == before[k]
}

/// The text of the error for a missing key.
pub open spec fn key_not_found(name: Seq<char>) -> Seq<char> {
    "key not found: `"@ + name + "`"@
}

impl ScratchpadStore {
    /// No name occurs twice.
    pub closed spec fn wf(self) -> bool {
        forall|i: int, j: int|
            0 <= i < j < self.entries@.len() ==> #[trigger] self.entries@[i].0@ != #[trigger] self.entries@[j].0@
    }

    closed spec fn index_of(self, k: Seq<char>) -> int {
        choose|i: int| 0 <= i < self.entries@.len() && self.entries@[i].0@ == k
    }

    /// The entries by name.
    pub closed spec fn view(self) -> Map<Seq<char>, ScratchpadEntry> {
        Map::new(
            |k: Seq<char>| exists|i: int| 0 <= i < self.entries@.len() && self.entries@[i].0@ == k,
            |k: Seq<char>| self.entries@[self.index_of(k)].1,
        )
    }

    proof fn lemma_view_at(self, i: int)
        requires
            self.wf(),
            0 <= i < self.entries@.len(),
        ensures
            self.view().dom().contains(self.entries@[i].0@),
            self.view()[self.entries@[i].0@] == self.entries@[i].1,
    {
        let k = self.entries@[i].0@;
        assert(self.view().dom().contains(k));
        let j = self.index_of(k);
        if j != i {
            if j < i {
                assert(self.entries@[j].0@ != self.entries@[i].0@);
            } else {
                assert(self.entries@[i].0@ != self.entries@[j].0@);
            }
        }
    }

    proof fn lemma_len(self)
        requires
            self.wf(),
        ensures
            self.view().dom().finite(),
            self.view().dom().len() == self.entries@.len(),
    {
        let ks = self.entries@.map_values(|e: (String, ScratchpadEntry)| e.0@);
        assert forall|a: int, b: int| 0 <= a < b < ks.len() implies ks[a] != ks[b] by {
            assert(self.entries@[a].0@ != self.entries@[b].0@);
        }
        ks.unique_seq_to_set();
        assert(self.view().dom() =~= ks.to_set()) by {
            assert forall|k: Seq<char>| self.view().dom().contains(k) implies ks.to_set().contains(k) by {
                let j = choose|j: int| 0 <= j < self.entries@.len() && self.entries@[j].0@ == k;
                assert(ks[j] == k);
            }
            assert forall|k: Seq<char>| ks.to_set().contains(k) implies self.view().dom().contains(k) by {
                let j = choose|j: int| 0 <= j < ks.len() && ks[j] == k;
                assert(self.entries@[j].0@ == k);
            }
        }
    }

    /// An empty scratchpad.
    pub fn new() -> (s: Self)
        ensures
            s.wf(),
            s.view() == Map::<Seq<char>, ScratchpadEntry>::empty(),
    {
        let s = ScratchpadStore { entries: Vec::new() };
        assert(s.view() =~= Map::<Seq<char>, ScratchpadEntry>::empty());
        s
    }

    fn locate(&self, name: &str) -> (r: Option<usize>)
        requires
            self.wf(),
        ensures
            match r {
                Some(i) => i < self.entries@.len() && self.entries@[i as int].0@ == name@,
                None => !self.view().dom().contains(name@),
            },
    {
        let mut i: usize = 0;
        while i < self.entries.len()
            invariant
                i <= self.entries@.len(),
                forall|j: int| 0 <= j < i ==> self.entries@[j].0@ != name@,
            decreases self.entries@.len() - i,
        {
            if crate::text::str_eq(self.entries[i].0.as_str(), name) {
                return Some(i);
            }
            i = i + 1;
        }
        None
    }

    /// Sets `name` to `entry`, replacing an entry of the same name.
    fn put(&mut self, name: String, entry: ScratchpadEntry)
        requires
            old(self).wf(),
        ensures
            final(self).wf(),
            final(self).view() == old(self).view().insert(name@, entry),
    {
        let ghost k = name@;
        let ghost before = *self;
        match self.locate(name.as_str()) {
            Some(i) => {
                self.entries.set(i, (name, entry));
                proof {
                    assert(self.wf()) by {
                        assert forall|a: int, b: int| 0 <= a < b < self.entries@.len() implies
                            #[trigger] self.entries@[a].0@ != #[trigger] self.entries@[b].0@ by {
                            assert(before.entries@[a].0@ == self.entries@[a].0@);
                            assert(before.entries@[b].0@ == self.entries@[b].0@);
                        }
                    }
                    assert(self.view() =~= before.view().insert(k, entry)) by {
                        assert forall|x: Seq<char>| #![auto]
                            self.view().dom().contains(x) == before.view().insert(k, entry).dom().contains(x) by {
                            if before.view().dom().contains(x) {
                                let j = choose|j: int| 0 <= j < before.entries@.len() && before.entries@[j].0@ == x;
                                assert(self.entries@[j].0@ == x || j == i);
                            }
                            if self.view().dom().contains(x) {
                                let j = choose|j: int| 0 <= j < self.entries@.len() && self.entries@[j].0@ == x;
                                assert(before.entries@[j].0@ == x || j == i);
                            }
                        }
                        assert forall|x: Seq<char>| #[trigger] self.view().dom().contains(x) implies self.view()[x]
                            == before.view().insert(k, entry)[x] by {
                            let j = choose|j: int| 0 <= j < self.entries@.len() && self.entries@[j].0@ == x;
                            self.lemma_view_at(j);
                            if j != i {
                                before.lemma_view_at(j);
                            }
                        }
                    }
                }
            },
            None => {
                self.entries.push((name, entry));
                proof {
                    let n = before.entries@.len() as int;
                    assert(self.wf()) by {
                        assert forall|a: int, b: int| 0 <= a < b < self.entries@.len() implies
                            #[trigger] self.entries@[a].0@ != #[trigger] self.entries@[b].0@ by {
                            if b == n {
                                assert(before.entries@[a].0@ != k);
                            } else {
                                assert(before.entries@[a].0@ != before.entries@[b].0@);
                            }
                        }
                    }
                    assert(self.view() =~= before.view().insert(k, entry)) by {
                        assert forall|x: Seq<char>| #![auto]
                            self.view().dom().contains(x) == before.view().insert(k, entry).dom().contains(x) by {
                            if before.view().dom().contains(x) {
                                let j = choose|j: int| 0 <= j < before.entries@.len() && before.entries@[j].0@ == x;
                                assert(self.entries@[j].0@ == x);
                            }
                            if x == k {
                                assert(self.entries@[n].0@ == x);
                            }
                            if self.view().dom().contains(x) {
                                let j = choose|j: int| 0 <= j < self.entries@.len() && self.entries@[j].0@ == x;
                                assert(j == n || before.entries@[j].0@ == x);
                            }
                        }
                        assert forall|x: Seq<char>| #[trigger] self.view().dom().contains(x) implies self.view()[x]
                            == before.view().insert(k, entry)[x] by {
                            let j = choose|j: int| 0 <= j < self.entries@.len() && self.entries@[j].0@ == x;
                            self.lemma_view_at(j);
                            if j != n {
                                before.lemma_view_at(j);
                            }
                        }
                    }
                }
            },
        }
    }

    /// The entries, in store order.
    pub fn entries(&self) -> (r: &[(String, ScratchpadEntry)])
        requires
            self.wf(),
        ensures
            r@.len() == self.view().dom().len(),
            forall|i: int| #![trigger r@[i]]
                0 <= i < r@.len() ==> self.view().dom().contains(r@[i].0@) && self.view()[r@[i].0@]
                    == r@[i].1,
    {
        proof {
            self.lemma_len();
            assert forall|i: int| #![trigger self.entries@[i]]
                0 <= i < self.entries@.len() implies self.view().dom().contains(self.entries@[i].0@)
                    && self.view()[self.entries@[i].0@] == self.entries@[i].1 by {
                self.lemma_view_at(i);
            }
        }
        self.entries.as_slice()
    }

    /// Sets `name` to `value` at time `now`; with `idempotent`, an entry that
    /// holds `value` already is left as it is and the reply is `unchanged`.
    pub fn set(&mut self, name: &str, value: &str, idempotent: bool, now: i64) -> (r: (ToolOutput, bool))
        requires
            old(self).wf(),
        ensures
            final(self).wf(),
            ({
                let unchanged = idempotent && old(self).view().dom().contains(name@)
                    && old(self).view()[name@].value@ == value@;
                &&& unchanged ==> final(self).view() == old(self).view() && r.0.content@ == "unchanged"@
                    && !r.1
                &&& !unchanged ==> written(old(self).view(), final(self).view(), name@, value@, now)
                    && r.0.content@ == "set `"@ + name@ + "`"@ && r.1
            }),
            r.0.success,
    {
        if idempotent {
            if let Some(i) = self.locate(name) {
                proof {
                    self.lemma_view_at(i as int);
                }
                if crate::text::str_eq(self.entries[i].1.value.as_str(), value) {
                    return (ToolOutput::ok(String::from_str("unchanged")), false);
                }
            }
        }
        let entry = ScratchpadEntry { value: String::from_str(value), updated_at: now };
        self.put(String::from_str(name), entry);
        assert(self.view().dom() =~= old(self).view().dom().insert(name@));
        let mut m = String::from_str("set `");
        m.append(name);
        m.append("`");
        (ToolOutput::ok(m), true)
    }

    /// The value of `name`; an unknown name is a `Context` error.
    pub fn get(&self, name: &str) -> (r: Result<ToolOutput, AgentError>)
        requires
            self.wf(),
        ensures
            self.view().dom().contains(name@) ==> (r matches Ok(o) && o.success && o.content@
                == self.view()[name@].value@),
            !self.view().dom().contains(name@) ==> (r matches Err(AgentError::Context(m)) && m@
                == key_not_found(name@)),
    {
        match self.locate(name) {
            Some(i) => {
                proof {
                    self.lemma_view_at(i as int);
                }
                Ok(ToolOutput::ok(self.entries[i].1.value.clone()))
            },
            None => {
                let mut m = String::from_str("key not found: `");
                m.append(name);
                m.append("`");
                Err(AgentError::Context(m))
            },
        }
    }

    /// Appends a line break and `value` to the entry `name`, at time `now`;
    /// an unknown name is a `Context` error and changes nothing.
    pub fn append(&mut self, name: &str, value: &str, now: i64) -> (r: Result<ToolOutput, AgentError>)
        requires
            old(self).wf(),
        ensures
            final(self).wf(),
            old(self).view().dom().contains(name@) ==> {
                &&& r matches Ok(o) && o.success && o.content@ == "appended to `"@ + name@ + "`"@
                &&& written(
                    old(self).view(),
                    final(self).view(),
                    name@,
                    old(self).view()[name@].value@ + seq!['\n'] + value@,
                    now,
                )
            },
            !old(self).view().dom().contains(name@) ==> (r matches Err(AgentError::Context(m)) && m@
                == key_not_found(name@) && final(self).view() == old(self).view()),
    {
        match self.locate(name) {
            Some(i) => {
                proof {
                    self.lemma_view_at(i as int);
                }
                let mut v = self.entries[i].1.value.clone();
                crate::text::push_char(&mut v, '\n');
                v.append(value);
                self.put(String::from_str(name), ScratchpadEntry { value: v, updated_at: now });
                assert(self.view().dom() =~= old(self).view().dom().insert(name@));
                assert(self.view()[name@].value@ == old(self).view()[name@].value@ + seq!['\n'] + value@);
                assert(self.view()[name@].updated_at == now);
                assert(forall|k: Seq<char>| k != name@ && #[trigger] old(self).view().dom().contains(k) ==> self.view()[k] == old(self).view()[k]);
                let mut m = String::from_str("appended to `");
                m.append(name);
                m.append("`");
                Ok(ToolOutput::ok(m))
            },
            None => {
                let mut m = String::from_str("key not found: `");
                m.append(name);
                m.append("`");
                Err(AgentError::Context(m))
            },
        }
    }

    /// Removes every entry; the reply counts them.
    pub fn clear(&mut self) -> (o: ToolOutput)
        requires
            old(self).wf(),
        ensures
            final(self).wf(),
            final(self).view() == Map::<Seq<char>, ScratchpadEntry>::empty(),
            o.success,
            o.content@ == crate::text::decimal(old(self).view().dom().len()) + " entries cleared"@,
    {
        proof {
            self.lemma_len();
        }
        let count = self.entries.len();
        self.entries = Vec::new();
        assert(self.view() =~= Map::<Seq<char>, ScratchpadEntry>::empty());
        let mut m = String::new();
        push_decimal(&mut m, count as u128);
        m.append(" entries cleared");
        ToolOutput::ok(m)
    }

    /// Runs one scratchpad action (`set`, `get`, `append`, `list` or `clear`)
    /// with the call's `name`, `value` and `idempotent` arguments, at time `now`.
    pub fn dispatch(
        &mut self,
        action: &str,
        name: Option<&str>,
        value: Option<&str>,
        idempotent: bool,
        now: i64,
    ) -> (r: Result<ScratchpadReply, AgentError>)
        requires
            old(self).wf(),
        ensures
            final(self).wf(),
            action@ == "list"@ ==> (r matches Ok(ScratchpadReply::List) && final(self).view() == old(
                self,
            ).view()),
            !(action@ == "set"@ || action@ == "get"@ || action@ == "append"@ || action@ == "list"@
                || action@ == "clear"@) ==> (r matches Err(AgentError::InvalidArguments(m)) && m@
                == "unknown action: `"@ + action@ + "`"@ && final(self).view() == old(self).view()),
            (action@ == "set"@ || action@ == "get"@ || action@ == "append"@) && name is None ==> (r matches Err(
                AgentError::InvalidArguments(m),
            ) && m@ == "missing `name`"@ && final(self).view() == old(self).view()),
            (action@ == "set"@ || action@ == "append"@) && name is Some && value is None ==> (r matches Err(
                AgentError::InvalidArguments(m),
            ) && m@ == "missing `value`"@ && final(self).view() == old(self).view()),
            action@ == "get"@ && name is Some ==> final(self).view() == old(self).view(),
            action@ == "get"@ && name is Some && old(self).view().dom().contains(name->0@) ==> (r matches Ok(
                ScratchpadReply::Done { output, changed },
            ) && output.content@ == old(self).view()[name->0@].value@ && !changed),
            action@ == "get"@ && name is Some && !old(self).view().dom().contains(name->0@) ==> (r matches Err(
                AgentError::Context(m),
            ) && m@ == key_not_found(name->0@)),
            action@ == "set"@ && name is Some && value is Some ==> ({
                let (n, v) = (name->0@, value->0@);
                let unchanged = idempotent && old(self).view().dom().contains(n) && old(self).view()[n].value@
                    == v;
                &&& r matches Ok(ScratchpadReply::Done { output, changed })
                &&& unchanged ==> final(self).view() == old(self).view() && r->Ok_0->output.content@
                    == "unchanged"@ && !r->Ok_0->changed
                &&& !unchanged ==> written(old(self).view(), final(self).view(), n, v, now)
                    && r->Ok_0->output.content@ == "set `"@ + n + "`"@ && r->Ok_0->changed
            }),
            action@ == "append"@ && name is Some && value is Some ==> ({
                let (n, v) = (name->0@, value->0@);
                &&& old(self).view().dom().contains(n) ==> (r matches Ok(
                    ScratchpadReply::Done { output, changed },
                ) && output.content@ == "appended to `"@ + n + "`"@ && changed && written(
                    old(self).view(),
                    final(self).view(),
                    n,
                    old(self).view()[n].value@ + seq!['\n'] + v,
                    now,
                ))
                &&& !old(self).view().dom().contains(n) ==> (r matches Err(AgentError::Context(m)) && m@
                    == key_not_found(n) && final(self).view() == old(self).view())
            }),
            action@ == "clear"@ ==> final(self).view() == Map::<Seq<char>, ScratchpadEntry>::empty() && (
            r matches Ok(ScratchpadReply::Done { output, changed }) && changed && output.content@
                == crate::text::decimal(old(self).view().dom().len()) + " entries cleared"@),
    {
        proof {
            reveal_strlit("set");
            reveal_strlit("get");
            reveal_strlit("append");
            reveal_strlit("list");
            reveal_strlit("clear");
            assert("set"@.len() == 3 && "get"@.len() == 3 && "append"@.len() == 6);
            assert("list"@.len() == 4 && "clear"@.len() == 5);
            assert("set"@[0] != "get"@[0]);
        }
        let is_set = crate::text::str_eq(action, "set");
        let is_get = crate::text::str_eq(action, "get");
        let is_append = crate::text::str_eq(action, "append");
        if crate::text::str_eq(action, "list") {
            return Ok(ScratchpadReply::List);
        }
        if crate::text::str_eq(action, "clear") {
            let output = self.clear();
            return Ok(ScratchpadReply::Done { output, changed: true });
        }
        if !(is_set || is_get || is_append) {
            let mut m = String::from_str("unknown action: `");
            m.append(action);
            m.append("`");
            return Err(AgentError::InvalidArguments(m));
        }
        let name = match name {
            Some(n) => n,
            None => {
                return Err(AgentError::InvalidArguments(String::from_str("missing `name`")));
            },
        };
        if is_get {
            return match self.get(name) {
                Ok(output) => Ok(ScratchpadReply::Done { output, changed: false }),
                Err(e) => Err(e),
            };
        }
        let value = match value {
            Some(v) => v,
            None => {
                return Err(AgentError::InvalidArguments(String::from_str("missing `value`")));
            },
        };
        if is_set {
            let (output, changed) = self.set(name, value, idempotent, now);
            Ok(ScratchpadReply::Done { output, changed })
        } else {
            match self.append(name, value, now) {
                Ok(output) => Ok(ScratchpadReply::Done { output, changed: true }),
                Err(e) => Err(e),
            }
        }
    }

    /// The entries' names in store order.
    pub closed spec fn names(self) -> Seq<Seq<char>> {
        self.entries@.map_values(|e: (String, ScratchpadEntry)| e.0@)
    }

    /// The summary line of each entry, in store order.
    closed spec fn summary_lines(self) -> Seq<Seq<char>> {
        self.entries@.map_values(|e: (String, ScratchpadEntry)| summary_line(e.0@, e.1))
    }

    /// `name: <bytes>B` for every entry in store order, joined with `, `;
    /// `None` when the scratchpad is empty.
    pub fn summary(&self) -> (r: Option<String>)
        requires
            self.wf(),
        ensures
            r is None <==> self.view().dom().len() == 0,
            r matches Some(s) ==> summary_of(self.view(), self.names(), s@),
    {
        proof {
            self.lemma_len();
        }
        if self.entries.len() == 0 {
            return None;
        }
        let mut parts: Vec<String> = Vec::new();
        let mut i: usize = 0;
        while i < self.entries.len()
            invariant
                i <= self.entries@.len(),
                parts@.map_values(|p: String| p@) == self.summary_lines().take(i as int),
            decreases self.entries@.len() - i,
        {
            let mut line = String::from_str(self.entries[i].0.as_str());
            line.append(": ");
            push_decimal(&mut line, self.entries[i].1.value.as_str().as_bytes().len() as u128);
            line.append("B");
            assert(line@ == summary_line(self.entries@[i as int].0@, self.entries@[i as int].1));
            let ghost prev = parts@;
            parts.push(line);
            proof {
                let want = self.summary_lines();
                assert(want.len() == self.entries@.len());
                assert(prev.map_values(|p: String| p@).len() == prev.len());
                assert(prev.len() == i);
                assert(parts@ == prev.push(line));
                assert(parts@.len() == i + 1);
                assert(want[i as int] == summary_line(self.entries@[i as int].0@, self.entries@[i as int].1));
                assert forall|j: int| 0 <= j < i + 1 implies (#[trigger] parts@[j])@ == want[j] by {
                    if j < i {
                        assert(prev.map_values(|p: String| p@)[j] == want.take(i as int)[j]);
                    }
                }
                assert(parts@.map_values(|p: String| p@) =~= want.take(i + 1));
            }
            i = i + 1;
        }
        let s = crate::text::join_strings(parts.as_slice(), ", ");
        proof {
            let ks = self.names();
            assert(self.summary_lines().take(self.entries@.len() as int) =~= self.summary_lines());
            assert forall|a: int, b: int| 0 <= a < b < ks.len() implies ks[a] != ks[b] by {
                assert(self.entries@[a].0@ != self.entries@[b].0@);
            }
            assert forall|a: int| 0 <= a < ks.len() implies self.view().dom().contains(ks[a]) && #[trigger] summary_line(
                ks[a],
                self.view()[ks[a]],
            ) == self.summary_lines()[a] by {
                self.lemma_view_at(a);
            }
            assert(ks.map_values(|k: Seq<char>| summary_line(k, self.view()[k])) =~= self.summary_lines());
            assert(summary_of(self.view(), ks, s@));
        }
        Some(s)
    }

    /// The list entry of each entry, in store order.
    closed spec fn list_entries(self) -> Seq<Seq<char>> {
        self.entries@.map_values(|e: (String, ScratchpadEntry)| list_entry_json(e.0@, e.1))
    }

    /// The `list` reply: every entry's size, name and time, in store order,
    /// as a pretty-printed JSON array.
    pub fn list_reply(&self) -> (o: ToolOutput)
        requires
            self.wf(),
        ensures
            o.success,
            o.content@ == list_json(self.view(), self.names()),
            self.names().len() == self.view().dom().len(),
            self.names().no_duplicates(),
            forall|a: int| 0 <= a < self.names().len() ==> self.view().dom().contains(#[trigger] self.names()[a]),
    {
        proof {
            self.lemma_len();
        }
        let ks = Ghost(self.names());
        proof {
            assert forall|a: int, b: int| 0 <= a < b < ks@.len() implies ks@[a] != ks@[b] by {
                assert(self.entries@[a].0@ != self.entries@[b].0@);
            }
            assert forall|a: int| 0 <= a < ks@.len() implies self.view().dom().contains(#[trigger] ks@[a]) by {
                self.lemma_view_at(a);
            }
        }
        if self.entries.len() == 0 {
            return ToolOutput::ok(String::from_str("[]"));
        }
        let mut parts: Vec<String> = Vec::new();
        let mut i: usize = 0;
        while i < self.entries.len()
            invariant
                i <= self.entries@.len(),
                parts@.map_values(|p: String| p@) == self.list_entries().take(i as int),
            decreases self.entries@.len() - i,
        {
            let e = &self.entries[i].1;
            let mut line = String::from_str("  {\n    \"bytes\": ");
            push_decimal(&mut line, e.value.as_str().as_bytes().len() as u128);
            line.append(",\n    \"name\": ");
            line.append(crate::tools::delegation::json_string(self.entries[i].0.as_str()).as_str());
            line.append(",\n    \"updated_at\": ");
            if e.updated_at < 0 {
                crate::text::push_char(&mut line, '-');
                let magnitude: u128 = (0i128 - e.updated_at as i128) as u128;
                push_decimal(&mut line, magnitude);
            } else {
                push_decimal(&mut line, e.updated_at as u128);
            }
            line.append("\n  }");
            assert(line@ == list_entry_json(self.entries@[i as int].0@, self.entries@[i as int].1));
            let ghost prev = parts@;
            parts.push(line);
            proof {
                let want = self.list_entries();
                assert(prev.map_values(|p: String| p@).len() == prev.len());
                assert forall|j: int| 0 <= j < i + 1 implies (#[trigger] parts@[j])@ == want[j] by {
                    if j < i {
                        assert(prev.map_values(|p: String| p@)[j] == want.take(i as int)[j]);
                    }
                }
                assert(parts@.map_values(|p: String| p@) =~= want.take(i + 1));
            }
            i = i + 1;
        }
        let body = crate::text::join_strings(parts.as_slice(), ",\n");
        let mut s = String::from_str("[\n");
        s.append(body.as_str());
        s.append("\n]");
        proof {
            assert(self.list_entries().take(self.entries@.len() as int) =~= self.list_entries());
            assert forall|a: int| 0 <= a < ks@.len() implies #[trigger] list_entry_json(
                ks@[a],
                self.view()[ks@[a]],
            ) == self.list_entries()[a] by {
                self.lemma_view_at(a);
            }
            assert(ks@.map_values(|k: Seq<char>| list_entry_json(k, self.view()[k])) =~= self.list_entries());
        }
        ToolOutput::ok(s)
    }
}

/// The summary line of one entry: its name and the UTF-8 size of its value.
pub open spec fn summary_line(name: Seq<char>, e: ScratchpadEntry) -> Seq<char> {
    name + ": "@ + crate::text::decimal(encode_utf8(e.value@).len()) + "B"@
}

/// Whether `s` lists the entries of `m` in the order `ks`: each name once,
/// every name of `m`.
pub open spec fn summary_of(m: Map<Seq<char>, ScratchpadEntry>, ks: Seq<Seq<char>>, s: Seq<char>) -> bool {
    &&& ks.len() == m.dom().len()
    &&& ks.no_duplicates()
    &&& forall|a: int| 0 <= a < ks.len() ==> m.dom().contains(#[trigger] ks[a])
    &&& s == crate::text::join(ks.map_values(|k: Seq<char>| summary_line(k, m[k])), ", "@)
}

/// One entry of the `list` reply, as `serde_json`'s pretty printer writes
/// the object `{"bytes", "name", "updated_at"}` inside an array.
pub open spec fn list_entry_json(name: Seq<char>, e: ScratchpadEntry) -> Seq<char> {
    "  {\n    \"bytes\": "@ + crate::text::decimal(encode_utf8(e.value@).len()) + ",\n    \"name\": "@
        + crate::tools::delegation::json_string_text(name) + ",\n    \"updated_at\": "@ + signed_decimal(
        e.updated_at as int,
    ) + "\n  }"@
}

/// The `list` reply for the entries of `m` in the order `ks`: a pretty JSON
/// array of their names, sizes and times (`[]` when empty).
pub open spec fn list_json(m: Map<Seq<char>, ScratchpadEntry>, ks: Seq<Seq<char>>) -> Seq<char> {
    if ks.len() == 0 {
        "[]"@
    } else {
        "[\n"@ + crate::text::join(ks.map_values(|k: Seq<char>| list_entry_json(k, m[k])), ",\n"@) + "\n]"@
    }
}

/// `scratchpad`: a store of named texts kept in `artifacts/scratchpad.json`
/// under the workspace. Reading and writing the file is done by the application.
#[derive(Debug)]
pub struct ScratchpadTool {
    /// The file the store is kept in.
    pub path: String,
    /// The entries.
    pub store: ScratchpadStore,
}

impl ScratchpadTool {
    /// The tool for `workspace`: the file `artifacts/scratchpad.json` inside
    /// it, and an empty store (the application loads the file into it).
    pub fn new(workspace: &str) -> (t: Self)
        ensures
            t.path@ == crate::path::join(crate::path::join(workspace@, "artifacts"@), "scratchpad.json"@),
            t.store.wf(),
            t.store.view() == Map::<Seq<char>, ScratchpadEntry>::empty(),
    {
        let dir = crate::path::path_join(workspace, "artifacts");
        let path = crate::path::path_join(dir.as_str(), "scratchpad.json");
        ScratchpadTool { path, store: ScratchpadStore::new() }
    }

    /// The summary of the entries, as [`ScratchpadStore::summary`].
    pub fn summary(&self) -> (r: Option<String>)
        requires
            self.store.wf(),
        ensures
            r is None <==> self.store.view().dom().len() == 0,
            r matches Some(s) ==> summary_of(self.store.view(), self.store.names(), s@),
    {
        self.store.summary()
    }
}

/// What was written to the scratchpad is what is read back, and the other
/// entries stay as they were.
pub proof fn law_scratchpad_reads_back_what_was_written(
    before: Map<Seq<char>, ScratchpadEntry>,
    after: Map<Seq<char>, ScratchpadEntry>,
    name: Seq<char>,
    value: Seq<char>,
    now: i64,
    other: Seq<char>,
)
    requires
        written(before, after, name, value, now),
        other != name,
    ensures
        after.dom().contains(name),
        after[name].value@ == value,
        before.dom().contains(other) <==> after.dom().contains(other),
        before.dom().contains(other) ==> after[other] == before[other],
{
}

} // verus!
