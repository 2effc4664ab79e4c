//! Context collection rules and message truncation.
//!
//! - `is_sensitive`: the default deny list (`.env`, `*.pem`, `*.key`, `.ssh`, ...).
//! - `context_path`: where a requested context file is read from, if it may be read.
//! - `truncate_messages`: drops whole messages by priority until the total
//!   size fits `max_bytes`.

use vstd::prelude::*;
use vstd::utf8::encode_utf8;

use crate::domain::Message;
use crate::error::AgentError;
use crate::path::{comp_text, components, join, path_components, path_join, Comp, Component};
use crate::text::str_eq;

verus! {

/// A context entry: path, content and truncation priority.
#[derive(Debug, Clone, PartialEq, Eq)]
pub struct ContextFile {
    /// The file's path (absolute, or relative to the workspace).
    pub path: String,
    /// The file's content.
    pub content: String,
    /// Truncation priority (smaller values are kept first).
    pub priority: ContextPriority,
}

/// Truncation priority: smaller is more important; at equal priority the
/// earlier entry is kept first.
#[derive(Debug, Clone, Copy, PartialEq, Eq, PartialOrd, Ord)]
pub enum ContextPriority {
    /// System reminders and the instruction (never truncated).
    System,
    /// The user's first instruction.
    UserInstruction,
    /// The most recent tool results.
    RecentTool,
    /// Early conversation (truncated first).
    Early,
}

/// Whether a dot-file name is on the deny list: any `.env*` name (`.env`,
/// `.envrc`, `.env.local`, ...), or `.git`, `.ssh`, `.aws`, `.npmrc`.
pub open spec fn sensitive_dotfile(name: Seq<char>) -> bool {
    starts_with(name, ".env"@) || name == ".git"@ || name == ".ssh"@ || name == ".aws"@
        || name == ".npmrc"@
}

/// Whether `s` starts with `prefix`.
pub open spec fn starts_with(s: Seq<char>, prefix: Seq<char>) -> bool {
    prefix.len() <= s.len() && s.take(prefix.len() as int) == prefix
}

/// Whether `s` ends with `suffix`.
pub open spec fn ends_with(s: Seq<char>, suffix: Seq<char>) -> bool {
    suffix.len() <= s.len() && s.skip(s.len() - suffix.len()) == suffix
}

/// Whether one path component is sensitive: a denied dot-file, a key or
/// certificate file, or a `.ssh`, `secrets` or `credentials` directory.
pub open spec fn sensitive_name(s: Seq<char>) -> bool {
    ||| (s.len() > 0 && s[0] == '.' && sensitive_dotfile(s))
    ||| ends_with(s, ".pem"@)
    ||| ends_with(s, ".key"@)
    ||| ends_with(s, ".pfx"@)
    ||| s == ".ssh"@
    ||| s == "secrets"@
    ||| s == "credentials"@
}

/// Whether a path has a sensitive component.
pub open spec fn sensitive_path(p: Seq<char>) -> bool {
    exists|i: int| 0 <= i < components(p).len() && sensitive_name(comp_text(#[trigger] components(p)[i]))
}

fn ends_with_lit(v: &Vec<char>, lit: &str) -> (b: bool)
    ensures
        b == ends_with(v@, lit@),
{
    let n = v.len();
    let m = lit.unicode_len();
    if m > n {
        return false;
    }
    let s = crate::text::string_of_range(v.as_slice(), n - m, n);
    str_eq(s.as_str(), lit)
}

fn starts_with_lit(v: &Vec<char>, lit: &str) -> (b: bool)
    ensures
        b == starts_with(v@, lit@),
{
    let n = v.len();
    let m = lit.unicode_len();
    if m > n {
        return false;
    }
    let s = crate::text::string_of_range(v.as_slice(), 0, m);
    proof {
        assert(v@.subrange(0, m as int) =~= v@.take(m as int));
    }
    str_eq(s.as_str(), lit)
}

fn is_sensitive_dotfile(name: &str) -> (b: bool)
    ensures
        b == sensitive_dotfile(name@),
{
    let v = crate::text::chars_of(name);
    starts_with_lit(&v, ".env") || str_eq(name, ".git") || str_eq(name, ".ssh") || str_eq(
        name,
        ".aws",
    ) || str_eq(name, ".npmrc")
}

fn is_sensitive_name(s: &str) -> (b: bool)
    ensures
        b == sensitive_name(s@),
{
    let v = crate::text::chars_of(s);
    if v.len() > 0 && v[0] == '.' && is_sensitive_dotfile(s) {
        return true;
    }
    ends_with_lit(&v, ".pem") || ends_with_lit(&v, ".key") || ends_with_lit(&v, ".pfx") || str_eq(
        s,
        ".ssh",
    ) || str_eq(s, "secrets") || str_eq(s, "credentials")
}

/// Whether a path falls under the default deny list: some component is a
/// denied dot-file (`.env*`, `.git`, `.ssh`, `.aws`, `.npmrc`), ends
/// with `.pem`, `.key` or `.pfx`, or is `.ssh`, `secrets` or `credentials`.
pub fn is_sensitive(path: &str) -> (b: bool)
    ensures
        b == sensitive_path(path@),
{
    let cs = path_components(path);
    let ghost cv = cs@.map_values(|c: Component| c.view());
    let mut i: usize = 0;
    while i < cs.len()
        invariant
            cv == cs@.map_values(|c: Component| c.view()),
            cv == components(path@),
            i <= cs@.len(),
            forall|j: int| 0 <= j < i ==> !sensitive_name(comp_text(#[trigger] cv[j])),
        decreases cs@.len() - i,
    {
        let t = crate::path::component_text(&cs[i]);
        if is_sensitive_name(t.as_str()) {
            assert(sensitive_name(comp_text(cv[i as int])));
            return true;
        }
        i = i + 1;
    }
    false
}

/// The text of the refusal of a sensitive path.
pub open spec fn sensitive_refusal(p: Seq<char>) -> Seq<char> {
    "sensitive path refused: "@ + p
}

/// Where a requested context file is read from: `rel` joined to the
/// workspace (an absolute `rel` stands as it is). A sensitive path is refused.
pub fn context_path(workspace: &str, rel: &str) -> (r: Result<String, AgentError>)
    ensures
        match r {
            Ok(p) => p@ == join(workspace@, rel@) && !sensitive_path(join(workspace@, rel@)),
            Err(e) => sensitive_path(join(workspace@, rel@)) && e == AgentError::PathPolicy(
                e->PathPolicy_0,
            ) && e->PathPolicy_0@ == sensitive_refusal(join(workspace@, rel@)),
        },
{
    let abs = path_join(workspace, rel);
    if is_sensitive(abs.as_str()) {
        let mut m = String::from_str("sensitive path refused: ");
        m.append(abs.as_str());
        return Err(AgentError::PathPolicy(m));
    }
    Ok(abs)
}

} // verus!

verus! {

/// The size of a message in bytes: the UTF-8 length of its text.
pub open spec fn msg_bytes(m: Message) -> nat {
    encode_utf8(m.text()).len()
}

/// The size of the first `k` messages.
pub open spec fn prefix_bytes(s: Seq<Message>, k: int) -> nat
    decreases k,
{
    if k <= 0 {
        0
    } else {
        prefix_bytes(s, k - 1) + msg_bytes(s[k - 1])
    }
}

/// The size of all messages.
pub open spec fn total_bytes(s: Seq<Message>) -> nat {
    prefix_bytes(s, s.len() as int)
}

/// The number of tool results among the first `k` messages.
pub open spec fn tools_before(s: Seq<Message>, k: int) -> nat
    decreases k,
{
    if k <= 0 {
        0
    } else {
        tools_before(s, k - 1) + if s[k - 1] is Tool {
            1nat
        } else {
            0nat
        }
    }
}

/// The number of tool results after message `i`.
pub open spec fn tools_after(s: Seq<Message>, i: int) -> int {
    tools_before(s, s.len() as int) - tools_before(s, i + 1)
}

/// How many of the most recent tool results are kept.
pub open spec fn max_recent_tools() -> int {
    5
}

/// Whether message `i` survives the first step: a tool result survives when
/// it is among the five most recent; every other message survives.
pub open spec fn base_kept(s: Seq<Message>, i: int) -> bool {
    !(s[i] is Tool) || tools_after(s, i) < max_recent_tools()
}

/// The size of the messages among the first `k` that survive the first step.
pub open spec fn base_bytes(s: Seq<Message>, k: int) -> nat
    decreases k,
{
    if k <= 0 {
        0
    } else {
        base_bytes(s, k - 1) + if base_kept(s, k - 1) {
            msg_bytes(s[k - 1])
        } else {
            0
        }
    }
}

/// The size of the assistant messages among the first `k`.
pub open spec fn assistant_bytes(s: Seq<Message>, k: int) -> nat
    decreases k,
{
    if k <= 0 {
        0
    } else {
        assistant_bytes(s, k - 1) + if s[k - 1] is Assistant {
            msg_bytes(s[k - 1])
        } else {
            0
        }
    }
}

/// Whether message `i` is kept when the messages do not fit: assistant
/// messages are dropped newest first, each while what is left after the
/// first step, less the newer assistant messages, is over `max`; the others
/// are kept as the first step left them.
pub open spec fn kept(s: Seq<Message>, max: int, i: int) -> bool {
    let n = s.len() as int;
    if s[i] is Assistant {
        base_bytes(s, n) - (assistant_bytes(s, n) - assistant_bytes(s, i + 1)) <= max
    } else {
        base_kept(s, i)
    }
}

/// The kept messages among the first `k`, in order.
pub open spec fn kept_messages(s: Seq<Message>, max: int, k: int) -> Seq<Message>
    decreases k,
{
    if k <= 0 {
        Seq::empty()
    } else if kept(s, max, k - 1) {
        kept_messages(s, max, k - 1).push(s[k - 1])
    } else {
        kept_messages(s, max, k - 1)
    }
}

/// The result of truncation.
#[derive(Debug)]
pub struct TruncationResult {
    /// The messages kept.
    pub messages: Vec<Message>,
    /// The total size before truncation.
    pub original_bytes: u64,
    /// The total size after truncation.
    pub truncated_bytes: u64,
    /// The number of messages dropped.
    pub dropped: usize,
}

proof fn lemma_sums_bounded(s: Seq<Message>, k: int)
    requires
        0 <= k <= s.len(),
    ensures
        base_bytes(s, k) <= prefix_bytes(s, k),
        assistant_bytes(s, k) <= prefix_bytes(s, k),
        tools_before(s, k) <= k,
        prefix_bytes(s, k) <= total_bytes(s),
    decreases k,
{
    if k > 0 {
        lemma_sums_bounded(s, k - 1);
    }
    lemma_prefix_monotone(s, k, s.len() as int);
}

proof fn lemma_prefix_monotone(s: Seq<Message>, j: int, k: int)
    requires
        0 <= j <= k,
    ensures
        prefix_bytes(s, j) <= prefix_bytes(s, k),
    decreases k - j,
{
    if j < k {
        lemma_prefix_monotone(s, j, k - 1);
    }
}

proof fn lemma_counts_monotone(s: Seq<Message>, j: int, k: int)
    requires
        0 <= j <= k,
    ensures
        tools_before(s, j) <= tools_before(s, k),
        assistant_bytes(s, j) <= assistant_bytes(s, k),
    decreases k - j,
{
    if j < k {
        lemma_counts_monotone(s, j, k - 1);
    }
}

proof fn lemma_kept_bytes_bounded(s: Seq<Message>, max: int, k: int)
    requires
        0 <= k <= s.len(),
    ensures
        total_bytes(kept_messages(s, max, k)) <= prefix_bytes(s, k),
        kept_messages(s, max, k).len() <= k,
    decreases k,
{
    if k > 0 {
        lemma_kept_bytes_bounded(s, max, k - 1);
        let p = kept_messages(s, max, k - 1);
        if kept(s, max, k - 1) {
            let q = p.push(s[k - 1]);
            assert(q.len() == p.len() + 1);
            lemma_prefix_push(p, s[k - 1]);
        }
    }
}

proof fn lemma_prefix_push(p: Seq<Message>, m: Message)
    ensures
        total_bytes(p.push(m)) == total_bytes(p) + msg_bytes(m),
{
    lemma_prefix_same(p, p.push(m), p.len() as int);
}

proof fn lemma_prefix_same(a: Seq<Message>, b: Seq<Message>, k: int)
    requires
        0 <= k <= a.len(),
        k <= b.len(),
        forall|i: int| 0 <= i < k ==> a[i] == b[i],
    ensures
        prefix_bytes(a, k) == prefix_bytes(b, k),
    decreases k,
{
    if k > 0 {
        lemma_prefix_same(a, b, k - 1);
    }
}

/// The size of one message in bytes.
fn message_bytes(m: &Message) -> (b: u64)
    ensures
        b == msg_bytes(*m),
{
    let s: &String = match m {
        Message::System { content } => content,
        Message::User { content } => content,
        Message::Assistant { content, .. } => content,
        Message::Tool { output, .. } => output,
    };
    let n = s.as_str().as_bytes().len();
    n as u64
}

/// Drops whole messages until the total size fits `max_bytes`. When the
/// messages fit already they all stay. Otherwise every system and user
/// message stays, only the five most recent tool results stay, and assistant
/// messages are dropped newest first while the size is still over the limit.
pub fn truncate_messages(messages: Vec<Message>, max_bytes: u64) -> (r: Result<TruncationResult, AgentError>)
    requires
        total_bytes(messages@) <= u64::MAX,
    ensures
        r is Ok,
        r matches Ok(t) ==> {
            &&& t.original_bytes == total_bytes(messages@)
            &&& total_bytes(messages@) <= max_bytes ==> t.messages@ == messages@
            &&& total_bytes(messages@) > max_bytes ==> t.messages@ == kept_messages(
                messages@,
                max_bytes as int,
                messages@.len() as int,
            )
            &&& t.truncated_bytes == total_bytes(t.messages@)
            &&& t.dropped == messages@.len() - t.messages@.len()
        },
{
    let ghost s = messages@;
    let n = messages.len();
    let mut sizes: Vec<u64> = Vec::new();
    let mut total: u64 = 0;
    let mut tools: usize = 0;
    let mut i: usize = 0;
    while i < n
        invariant
            s == messages@,
            n == s.len(),
            i <= n,
            total_bytes(s) <= u64::MAX,
            sizes@.len() == i,
            forall|j: int| 0 <= j < i ==> #[trigger] sizes@[j] == msg_bytes(s[j]),
            total == prefix_bytes(s, i as int),
            tools == tools_before(s, i as int),
        decreases n - i,
    {
        proof {
            lemma_sums_bounded(s, i + 1);
        }
        let b = message_bytes(&messages[i]);
        sizes.push(b);
        total = total + b;
        if let Message::Tool { .. } = &messages[i] {
            tools = tools + 1;
        }
        i = i + 1;
    }
    if total <= max_bytes {
        return Ok(TruncationResult { messages, original_bytes: total, truncated_bytes: total, dropped: 0 });
    }
    // Which messages survive the first step, and the sizes that count.
    let mut keep: Vec<bool> = Vec::new();
    let mut base: u64 = 0;
    let mut assistants: u64 = 0;
    let mut seen_tools: usize = 0;
    i = 0;
    while i < n
        invariant
            s == messages@,
            n == s.len(),
            i <= n,
            total_bytes(s) <= u64::MAX,
            sizes@.len() == n,
            forall|j: int| 0 <= j < n ==> #[trigger] sizes@[j] == msg_bytes(s[j]),
            tools == tools_before(s, n as int),
            keep@.len() == i,
            forall|j: int| 0 <= j < i ==> #[trigger] keep@[j] == base_kept(s, j),
            base == base_bytes(s, i as int),
            assistants == assistant_bytes(s, i as int),
            seen_tools == tools_before(s, i as int),
        decreases n - i,
    {
        proof {
            lemma_sums_bounded(s, i + 1);
            lemma_sums_bounded(s, n as int);
            lemma_counts_monotone(s, i + 1, n as int);
        }
        let k = match &messages[i] {
            Message::Tool { .. } => {
                seen_tools = seen_tools + 1;
                tools - seen_tools < 5
            },
            Message::Assistant { .. } => {
                assistants = assistants + sizes[i];
                true
            },
            _ => true,
        };
        keep.push(k);
        if k {
            base = base + sizes[i];
        }
        i = i + 1;
    }
    // Drop assistant messages, newest first, while over the limit.
    let mut dropped: usize = 0;
    let mut out: Vec<Message> = Vec::new();
    let mut kept_total: u64 = 0;
    let mut prefix_assistants: u64 = 0;
    let mut rest = messages;
    i = 0;
    proof {
        assert(rest@.skip(0) =~= s);
    }
    while i < n
        invariant
            n == s.len(),
            i <= n,
            total_bytes(s) <= u64::MAX,
            rest@ == s.skip(i as int),
            sizes@.len() == n,
            forall|j: int| 0 <= j < n ==> #[trigger] sizes@[j] == msg_bytes(s[j]),
            keep@.len() == n,
            forall|j: int| 0 <= j < n ==> #[trigger] keep@[j] == base_kept(s, j),
            base == base_bytes(s, n as int),
            assistants == assistant_bytes(s, n as int),
            prefix_assistants == assistant_bytes(s, i as int),
            out@ == kept_messages(s, max_bytes as int, i as int),
            kept_total == total_bytes(out@),
            dropped + out@.len() == i,
        decreases n - i,
    {
        proof {
            lemma_sums_bounded(s, i + 1);
            lemma_sums_bounded(s, n as int);
            lemma_kept_bytes_bounded(s, max_bytes as int, i + 1);
            lemma_kept_bytes_bounded(s, max_bytes as int, i as int);
            lemma_prefix_push(out@, s[i as int]);
            lemma_counts_monotone(s, i + 1, n as int);
        }
        let m = rest.remove(0);
        proof {
            assert(rest@ =~= s.skip(i + 1));
        }
        let is_assistant = match &m {
            Message::Assistant { .. } => true,
            _ => false,
        };
        let stays = if is_assistant {
            prefix_assistants = prefix_assistants + sizes[i];
            // base - (assistants - prefix_assistants) <= max
            (base as u128) <= (max_bytes as u128) + (assistants as u128) - (prefix_assistants as u128)
        } else {
            keep[i]
        };
        if stays {
            kept_total = kept_total + sizes[i];
            out.push(m);
        } else {
            dropped = dropped + 1;
        }
        i = i + 1;
    }
    proof {
        lemma_kept_bytes_bounded(s, max_bytes as int, n as int);
    }
    Ok(TruncationResult { messages: out, original_bytes: total, truncated_bytes: kept_total, dropped })
}

/// The size of the assistant messages dropped among the first `k`.
pub open spec fn dropped_bytes(s: Seq<Message>, max: int, k: int) -> nat
    decreases k,
{
    if k <= 0 {
        0
    } else {
        dropped_bytes(s, max, k - 1) + if s[k - 1] is Assistant && !kept(s, max, k - 1) {
            msg_bytes(s[k - 1])
        } else {
            0
        }
    }
}

proof fn lemma_kept_size(s: Seq<Message>, max: int, k: int)
    requires
        0 <= k <= s.len(),
    ensures
        total_bytes(kept_messages(s, max, k)) + dropped_bytes(s, max, k) == base_bytes(s, k),
    decreases k,
{
    if k > 0 {
        lemma_kept_size(s, max, k - 1);
        if kept(s, max, k - 1) {
            lemma_prefix_push(kept_messages(s, max, k - 1), s[k - 1]);
        }
    }
}

proof fn newest_kept_assistant(s: Seq<Message>, max: int, k: int, witness: int) -> (r: int)
    requires
        0 <= witness < k <= s.len(),
        s[witness] is Assistant,
        kept(s, max, witness),
    ensures
        witness <= r < k,
        s[r] is Assistant,
        kept(s, max, r),
        forall|j: int| r < j < k && #[trigger] s[j] is Assistant ==> !kept(s, max, j),
    decreases k,
{
    if s[k - 1] is Assistant && kept(s, max, k - 1) {
        k - 1
    } else {
        newest_kept_assistant(s, max, k - 1, witness)
    }
}

proof fn lemma_dropped_after_newest(s: Seq<Message>, max: int, r: int, k: int)
    requires
        0 <= r < s.len(),
        r + 1 <= k <= s.len(),
        s[r] is Assistant,
        kept(s, max, r),
        forall|j: int| r < j < s.len() && #[trigger] s[j] is Assistant ==> !kept(s, max, j),
    ensures
        dropped_bytes(s, max, k) == assistant_bytes(s, k) - assistant_bytes(s, r + 1),
    decreases k,
{
    if k > r + 1 {
        lemma_dropped_after_newest(s, max, r, k - 1);
    } else {
        lemma_nothing_dropped_before(s, max, r, k);
    }
}

proof fn lemma_nothing_dropped_before(s: Seq<Message>, max: int, r: int, k: int)
    requires
        0 <= r < s.len(),
        0 <= k <= r + 1,
        s[r] is Assistant,
        kept(s, max, r),
    ensures
        dropped_bytes(s, max, k) == 0,
    decreases k,
{
    if k > 0 {
        lemma_nothing_dropped_before(s, max, r, k - 1);
        lemma_counts_monotone(s, k, r + 1);
    }
}

/// After truncation the kept messages fit the limit, unless no assistant
/// message is left to drop: once an assistant message is kept, the size is
/// at most `max`.
pub proof fn law_truncation_fits_once_an_assistant_stays(s: Seq<Message>, max: int, i: int)
    requires
        0 <= i < s.len(),
        s[i] is Assistant,
        kept(s, max, i),
    ensures
        total_bytes(kept_messages(s, max, s.len() as int)) <= max,
{
    let n = s.len() as int;
    let r = newest_kept_assistant(s, max, n, i);
    lemma_dropped_after_newest(s, max, r, n);
    lemma_kept_size(s, max, n);
}

/// System and user messages are never dropped, nor any of the five most
/// recent tool results.
pub proof fn law_truncation_keeps_instructions_and_recent_tools(s: Seq<Message>, max: int, i: int)
    requires
        0 <= i < s.len(),
        s[i] is System || s[i] is User || (s[i] is Tool && tools_after(s, i) < max_recent_tools()),
    ensures
        kept(s, max, i),
{
}

/// Whether `idx` picks `sub` out of the first `k` messages of `s`, in order.
pub open spec fn picks(idx: Seq<int>, sub: Seq<Message>, s: Seq<Message>, k: int) -> bool {
    &&& idx.len() == sub.len()
    &&& forall|a: int, b: int| 0 <= a < b < idx.len() ==> #[trigger] idx[a] < #[trigger] idx[b]
    &&& forall|a: int| 0 <= a < idx.len() ==> 0 <= #[trigger] idx[a] < k && sub[a] == s[idx[a]]
}

/// Truncation keeps the order of the messages: what is kept is a
/// subsequence of the input.
pub proof fn law_truncation_keeps_order(s: Seq<Message>, max: int, k: int)
    requires
        0 <= k <= s.len(),
    ensures
        exists|idx: Seq<int>| #[trigger] picks(idx, kept_messages(s, max, k), s, k),
    decreases k,
{
    if k == 0 {
        assert(picks(Seq::<int>::empty(), kept_messages(s, max, k), s, k));
    } else {
        law_truncation_keeps_order(s, max, k - 1);
        let prev = kept_messages(s, max, k - 1);
        let idx = choose|idx: Seq<int>| #[trigger] picks(idx, prev, s, k - 1);
        if kept(s, max, k - 1) {
            let idx2 = idx.push(k - 1);
            assert(picks(idx2, kept_messages(s, max, k), s, k));
        } else {
            assert(picks(idx, kept_messages(s, max, k), s, k));
        }
    }
}

} // verus!
