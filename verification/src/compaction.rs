//! Layered context compaction: a long conversation becomes a history
//! summary, a working-memory summary and a core window of recent messages.

use vstd::prelude::*;
use vstd::utf8::encode_utf8;

use crate::context::{msg_bytes, prefix_bytes, total_bytes};
use crate::domain::{Message, ToolCall};
use crate::text::{chars_of, decimal, join, join_strings, push_decimal, string_of_range};

verus! {

/// The compacted context in layers.
#[derive(Debug)]
pub struct LayeredContext {
    /// The working-memory summary, if any.
    pub scratchpad_summary: Option<String>,
    /// The core window: the most recent messages, in full.
    pub core_window: Vec<Message>,
    /// The summary of the earlier messages, if there are any.
    pub history_summary: Option<String>,
    /// The most messages the core window keeps.
    pub core_window_size: usize,
}

/// The working-memory message built from a scratchpad summary.
pub open spec fn working_memory_text(sp: Seq<char>) -> Seq<char> {
    "## Working memory\n"@ + sp + "\n---\nUse this context as needed."@
}

/// Whether `m` is an assistant message with text `t` and no tool calls.
pub open spec fn assistant_says(m: Message, t: Seq<char>) -> bool {
    m matches Message::Assistant { content, tool_calls } && content@ == t && tool_calls@.len() == 0
}

impl LayeredContext {
    /// The number of entries: the core window's messages, plus one for each
    /// summary present.
    pub fn message_count(&self) -> (n: usize)
        requires
            self.core_window@.len() + 2 <= usize::MAX,
        ensures
            n == self.core_window@.len() + (if self.scratchpad_summary is Some {
                1int
            } else {
                0int
            }) + (if self.history_summary is Some {
                1int
            } else {
                0int
            }),
    {
        let scratchpad: usize = if self.scratchpad_summary.is_some() {
            1
        } else {
            0
        };
        let history: usize = if self.history_summary.is_some() {
            1
        } else {
            0
        };
        scratchpad + self.core_window.len() + history
    }

    /// The messages for the model: the history summary, then the
    /// working-memory summary, each as an assistant message, then the core
    /// window.
    pub fn into_model_messages(self) -> (r: Vec<Message>)
        ensures
            ({
                let h: int = if self.history_summary is Some {
                    1
                } else {
                    0
                };
                let w: int = if self.scratchpad_summary is Some {
                    1
                } else {
                    0
                };
                &&& r@.len() == h + w + self.core_window@.len()
                &&& self.history_summary matches Some(hs) ==> assistant_says(r@[0], hs@)
                &&& self.scratchpad_summary matches Some(sp) ==> assistant_says(
                    r@[h],
                    working_memory_text(sp@),
                )
                &&& r@.skip(h + w) == self.core_window@
            }),
    {
        let ghost core = self.core_window@;
        let mut result: Vec<Message> = Vec::new();
        if let Some(summary) = self.history_summary {
            result.push(Message::Assistant { content: summary, tool_calls: Vec::new() });
        }
        if let Some(sp) = self.scratchpad_summary {
            let mut content = String::from_str("## Working memory\n");
            content.append(sp.as_str());
            content.append("\n---\nUse this context as needed.");
            result.push(Message::Assistant { content, tool_calls: Vec::new() });
        }
        let ghost head = result@;
        let mut window = self.core_window;
        result.append(&mut window);
        assert(result@.skip(head.len() as int) =~= core);
        result
    }
}

/// The session's messages once compaction is written back: its system
/// prompt, when it starts with one, then the compacted layers.
pub fn compacted_session(messages: &[Message], layers: Vec<Message>) -> (r: Vec<Message>)
    ensures
        messages@.len() > 0 && messages@[0] is System ==> r@.len() == layers@.len() + 1 && r@[0].same(
            messages@[0],
        ) && r@.skip(1) == layers@,
        !(messages@.len() > 0 && messages@[0] is System) ==> r@ == layers@,
{
    let mut r: Vec<Message> = Vec::new();
    if messages.len() > 0 {
        if let Message::System { .. } = &messages[0] {
            r.push(messages[0].duplicate());
        }
    }
    let ghost head = r@;
    let mut rest = layers;
    r.append(&mut rest);
    assert(r@.skip(head.len() as int) =~= layers@);
    r
}

/// Whether messages of this size call for compaction: the size reaches 80%
/// of a non-zero limit (the 80% taken in integer division).
pub open spec fn compaction_due(total: nat, max: nat) -> bool {
    max != 0 && total >= (max * 80) / 100
}

/// Whether the messages have reached the compaction threshold, 80% of
/// `max_context_bytes`; never for a limit of zero.
pub fn should_compact(messages: &[Message], max_context_bytes: u64) -> (b: bool)
    requires
        max_context_bytes * 80 <= u64::MAX,
        total_bytes(messages@) <= u64::MAX,
    ensures
        b == compaction_due(total_bytes(messages@), max_context_bytes as nat),
{
    if max_context_bytes == 0 {
        return false;
    }
    let threshold = (max_context_bytes * 80) / 100;
    let mut total: u64 = 0;
    let mut i: usize = 0;
    while i < messages.len()
        invariant
            i <= messages@.len(),
            total_bytes(messages@) <= u64::MAX,
            total == prefix_bytes(messages@, i as int),
        decreases messages@.len() - i,
    {
        proof {
            lemma_prefix_le_total(messages@, i + 1);
        }
        total = total + message_byte_len(&messages[i]);
        i = i + 1;
    }
    total >= threshold
}

proof fn lemma_prefix_le_total(s: Seq<Message>, k: int)
    requires
        0 <= k <= s.len(),
    ensures
        prefix_bytes(s, k) <= total_bytes(s),
    decreases s.len() - k,
{
    if k < s.len() {
        lemma_prefix_le_total(s, k + 1);
    }
}

fn message_byte_len(m: &Message) -> (b: u64)
    ensures
        b == msg_bytes(*m),
{
    let s: &String = match m {
        Message::System { content } => content,
        Message::User { content } => content,
        Message::Assistant { content, .. } => content,
        Message::Tool { output, .. } => output,
    };
    s.as_str().as_bytes().len() as u64
}

/// The size of a text in UTF-8 bytes.
pub open spec fn utf8_len(s: Seq<char>) -> nat {
    encode_utf8(s).len()
}

/// An assistant or user text in a summary: marked with `…` when it is over
/// 120 bytes.
pub open spec fn snippet(c: Seq<char>) -> Seq<char> {
    if utf8_len(c) > 120 {
        c + "…"@
    } else {
        c
    }
}

/// A tool output in a summary: cut to its first 80 characters and marked
/// with `…` when it is over 80 bytes.
pub open spec fn preview(o: Seq<char>) -> Seq<char> {
    if utf8_len(o) > 80 {
        o.take(if o.len() < 80 {
            o.len() as int
        } else {
            80
        }) + "…"@
    } else {
        o
    }
}

/// The index of the last occurrence of `c` in `s`, if any.
pub open spec fn last_index_of(s: Seq<char>, c: char) -> Option<int>
    decreases s.len(),
{
    if s.len() == 0 {
        None
    } else if s.last() == c {
        Some(s.len() - 1)
    } else {
        last_index_of(s.drop_last(), c)
    }
}

/// The tool's name in a call id: what comes before the last `-`, or the whole id.
pub open spec fn tool_name_of(call_id: Seq<char>) -> Seq<char> {
    match last_index_of(call_id, '-') {
        Some(k) => call_id.take(k),
        None => call_id,
    }
}

/// The summary line of one message.
pub open spec fn summary_line(m: Message) -> Seq<char> {
    match m {
        Message::Assistant { content, .. } => "[assistant] "@ + snippet(content@),
        Message::Tool { call_id, output, .. } => "["@ + tool_name_of(call_id@) + "] "@ + preview(output@),
        Message::User { content } => "[user] "@ + snippet(content@),
        Message::System { content } => "[system] "@ + content@,
    }
}

/// The rule-based summary of the earlier messages; empty for none.
pub open spec fn summary_of(ms: Seq<Message>) -> Seq<char> {
    if ms.len() == 0 {
        Seq::empty()
    } else {
        "## Earlier conversation summary ("@ + decimal(ms.len()) + " messages)\n"@ + join(
            ms.map_values(|m: Message| summary_line(m)),
            "\n"@,
        ) + "\n---"@
    }
}

fn is_long(s: &String, limit: usize) -> (b: bool)
    ensures
        b == (utf8_len(s@) > limit),
{
    s.as_str().as_bytes().len() > limit
}

fn last_dash(v: &Vec<char>) -> (r: Option<usize>)
    ensures
        match r {
            Some(k) => k < v@.len() && last_index_of(v@, '-') == Some(k as int),
            None => last_index_of(v@, '-') is None,
        },
{
    let mut i: usize = v.len();
    assert(v@.take(i as int) =~= v@);
    while i > 0
        invariant
            i <= v@.len(),
            last_index_of(v@, '-') == last_index_of(v@.take(i as int), '-'),
        decreases i,
    {
        assert(v@.take(i as int).drop_last() =~= v@.take(i - 1));
        if v[i - 1] == '-' {
            return Some(i - 1);
        }
        i = i - 1;
    }
    None
}

fn line_of(m: &Message) -> (s: String)
    ensures
        s@ == summary_line(*m),
{
    match m {
        Message::Assistant { content, .. } => {
            let mut s = String::from_str("[assistant] ");
            s.append(content.as_str());
            if is_long(content, 120) {
                s.append("…");
            }
            s
        },
        Message::Tool { call_id, output, .. } => {
            let id = chars_of(call_id.as_str());
            let name = match last_dash(&id) {
                Some(k) => string_of_range(id.as_slice(), 0, k),
                None => call_id.clone(),
            };
            let mut s = String::from_str("[");
            s.append(name.as_str());
            s.append("] ");
            if is_long(output, 80) {
                let v = chars_of(output.as_str());
                let cut = if v.len() < 80 {
                    v.len()
                } else {
                    80
                };
                let head = string_of_range(v.as_slice(), 0, cut);
                s.append(head.as_str());
                s.append("…");
            } else {
                s.append(output.as_str());
            }
            s
        },
        Message::User { content } => {
            let mut s = String::from_str("[user] ");
            s.append(content.as_str());
            if is_long(content, 120) {
                s.append("…");
            }
            s
        },
        Message::System { content } => {
            let mut s = String::from_str("[system] ");
            s.append(content.as_str());
            s
        },
    }
}

/// Summarizes the earlier messages by rule, one line per message.
fn summarize_early_messages(messages: &[Message]) -> (s: String)
    ensures
        s@ == summary_of(messages@),
{
    if messages.len() == 0 {
        return String::new();
    }
    let ghost lines = messages@.map_values(|m: Message| summary_line(m));
    let mut parts: Vec<String> = Vec::new();
    let mut i: usize = 0;
    while i < messages.len()
        invariant
            i <= messages@.len(),
            lines == messages@.map_values(|m: Message| summary_line(m)),
            parts@.len() == i,
            forall|k: int| 0 <= k < i ==> (#[trigger] parts@[k])@ == lines[k],
        decreases messages@.len() - i,
    {
        parts.push(line_of(&messages[i]));
        i = i + 1;
    }
    assert(parts@.map_values(|p: String| p@) =~= lines);
    let joined = join_strings(parts.as_slice(), "\n");
    let mut s = String::from_str("## Earlier conversation summary (");
    push_decimal(&mut s, messages.len() as u128);
    s.append(" messages)\n");
    s.append(joined.as_str());
    s.append("\n---");
    s
}

/// The text that stands for earlier messages already summarized.
pub open spec fn already_summarized_text() -> Seq<char> {
    "[earlier messages already summarized — see prior summary]"@
}

/// Where the core window starts: it keeps the last `size` messages.
pub open spec fn split_point(len: nat, size: nat) -> int {
    if len > size {
        len - size
    } else {
        0
    }
}

/// Whether two message lists are alike, message by message.
pub open spec fn alike(a: Seq<Message>, b: Seq<Message>) -> bool {
    a.len() == b.len() && forall|i: int| 0 <= i < a.len() ==> (#[trigger] a[i]).same(b[i])
}

fn copy_range(messages: &[Message], lo: usize, hi: usize) -> (r: Vec<Message>)
    requires
        lo <= hi <= messages@.len(),
    ensures
        alike(r@, messages@.subrange(lo as int, hi as int)),
{
    let mut r: Vec<Message> = Vec::new();
    let mut i: usize = lo;
    while i < hi
        invariant
            lo <= i <= hi <= messages@.len(),
            r@.len() == i - lo,
            forall|k: int| 0 <= k < i - lo ==> (#[trigger] r@[k]).same(messages@[lo + k]),
        decreases hi - i,
    {
        r.push(messages[i].duplicate());
        i = i + 1;
    }
    r
}

/// Compacts the messages into layers: the core window keeps the last
/// `core_window_size` messages; the earlier ones become a history summary
/// (or a note that they were summarized already).
pub fn compact(
    messages: &[Message],
    scratchpad_summary: Option<&str>,
    max_context_bytes: u64,
    core_window_size: usize,
    already_summarized: bool,
) -> (c: LayeredContext)
    ensures
        ({
            let split = split_point(messages@.len(), core_window_size as nat);
            &&& alike(c.core_window@, messages@.skip(split))
            &&& c.core_window_size == core_window_size
            &&& match scratchpad_summary {
                Some(sp) => c.scratchpad_summary matches Some(x) && x@ == sp@,
                None => c.scratchpad_summary is None,
            }
            &&& split == 0 ==> c.history_summary is None
            &&& split > 0 && already_summarized ==> (c.history_summary matches Some(h) && h@
                == already_summarized_text())
            &&& split > 0 && !already_summarized ==> (c.history_summary matches Some(h) && h@
                == summary_of(messages@.take(split)))
        }),
{
    let n = messages.len();
    let split: usize = if n > core_window_size {
        n - core_window_size
    } else {
        0
    };
    let core_window = copy_range(messages, split, n);
    proof {
        assert(messages@.subrange(split as int, n as int) =~= messages@.skip(split as int));
    }
    let history_summary = if split == 0 {
        None
    } else if already_summarized {
        Some(String::from_str("[earlier messages already summarized — see prior summary]"))
    } else {
        let early = copy_range(messages, 0, split);
        let ghost e = messages@.subrange(0, split as int);
        proof {
            assert(e =~= messages@.take(split as int));
            assert(early@.map_values(|m: Message| summary_line(m)) =~= e.map_values(|m: Message| summary_line(m))) by {
                assert forall|k: int| 0 <= k < early@.len() implies summary_line(#[trigger] early@[k]) == summary_line(e[k]) by {
                    lemma_same_line(early@[k], e[k]);
                }
            }
        }
        Some(summarize_early_messages(early.as_slice()))
    };
    let scratch = match scratchpad_summary {
        Some(sp) => Some(String::from_str(sp)),
        None => None,
    };
    LayeredContext { scratchpad_summary: scratch, core_window, history_summary, core_window_size }
}

proof fn lemma_same_line(a: Message, b: Message)
    requires
        a.same(b),
    ensures
        summary_line(a) == summary_line(b),
{
}

/// The core window holds the last `size` messages, or all of them when
/// there are no more than `size`; the earlier part and the core window
/// together are the whole conversation.
pub proof fn law_core_window_is_the_tail(s: Seq<Message>, size: nat)
    ensures
        ({
            let split = split_point(s.len(), size);
            &&& s.skip(split).len() == if s.len() > size {
                size
            } else {
                s.len()
            }
            &&& s.take(split) + s.skip(split) == s
            &&& (split == 0) == (s.len() <= size)
        }),
{
    let split = split_point(s.len(), size);
    assert(s.take(split) + s.skip(split) =~= s);
}

/// Compaction is due for any size at least as large as one for which it is due.
pub proof fn law_compaction_due_is_monotone(t1: nat, t2: nat, max: nat)
    requires
        compaction_due(t1, max),
        t1 <= t2,
    ensures
        compaction_due(t2, max),
{
}

} // verus!
