//! Server-Sent Events (SSE) parser.
//!
//! Input is a byte stream that may cut across event boundaries; output is the
//! list of complete events. A single pass over each fed chunk:
//! - `data:` lines are decoded as UTF-8 and joined with `\n`;
//! - `event:` sets the event type, `id:` the id;
//! - an empty line dispatches the buffered event;
//! - lines that start with `:` are comments.

use vstd::prelude::*;
use vstd::utf8::{decode_utf8, partial_valid_utf8, valid_utf8};

use crate::text::{
    chars_of, find_char, is_whitespace, is_ws, join, join_strings, lemma_find_char,
    lemma_split_on_len, lemma_trim_start_index, split_on, str_eq, string_of_range, trim_start,
};

verus! {

/// Decodes bytes as UTF-8 (`std::str::from_utf8`); on failure gives the
/// length of the longest valid prefix (`Utf8Error::valid_up_to`).
#[verifier::external_body]
pub(crate) fn decode_utf8_bytes(bytes: &[u8]) -> (r: Result<String, usize>)
    ensures
        match r {
            Ok(s) => valid_utf8(bytes@) && s@ == decode_utf8(bytes@),
            Err(k) => {
                &&& !valid_utf8(bytes@)
                &&& partial_valid_utf8(bytes@, k as int)
                &&& forall|j: int| k < j <= bytes@.len() ==> !partial_valid_utf8(bytes@, j)
            },
        },
{
    std::str::from_utf8(bytes).map(|s| s.to_string()).map_err(|e| e.valid_up_to())
}

/// One parsed event.
#[derive(Debug, Clone, PartialEq, Eq)]
pub struct SseEvent {
    /// The event type from `event:`; `None` means `"message"`.
    pub event: Option<String>,
    /// The `data:` lines, joined with `\n`.
    pub data: String,
    /// The `id:` field.
    pub id: Option<String>,
}

/// The mathematical value of an event.
pub struct EventView {
    pub event: Option<Seq<char>>,
    pub data: Seq<char>,
    pub id: Option<Seq<char>>,
}

/// The mathematical value of the pending event buffer.
pub struct BufView {
    pub event: Option<Seq<char>>,
    pub data: Seq<Seq<char>>,
    pub id: Option<Seq<char>>,
}

/// The view of an optional string.
pub open spec fn opt_view(o: Option<String>) -> Option<Seq<char>> {
    match o {
        Some(s) => Some(s@),
        None => None,
    }
}

impl SseEvent {
    /// The mathematical value of the event.
    pub open spec fn view(self) -> EventView {
        EventView { event: opt_view(self.event), data: self.data@, id: opt_view(self.id) }
    }
}

/// Parse errors.
#[derive(Debug)]
pub enum SseError {
    /// The stream is not valid UTF-8; holds the offset of the first bad byte.
    InvalidUtf8(usize),
}

impl SseError {
    /// The text of the error.
    pub fn to_text(&self) -> (s: String)
        ensures
            match self {
                SseError::InvalidUtf8(k) => s@ == "non-utf8 byte in SSE stream at byte offset "@
                    + crate::text::decimal(*k as nat),
            },
    {
        match self {
            SseError::InvalidUtf8(k) => {
                let mut s = String::from_str("non-utf8 byte in SSE stream at byte offset ");
                crate::text::push_decimal(&mut s, *k as u128);
                s
            },
        }
    }
}

/// The empty buffer.
pub open spec fn empty_buf() -> BufView {
    BufView { event: None, data: Seq::empty(), id: None }
}

/// The event that a buffer dispatches: nothing when the buffer is empty.
pub open spec fn buf_event(b: BufView) -> Option<EventView> {
    if b.event is None && b.data.len() == 0 && b.id is None {
        None
    } else {
        Some(EventView { event: b.event, data: join(b.data, seq!['\n']), id: b.id })
    }
}

/// A line without its trailing `\r`.
pub open spec fn strip_cr(l: Seq<char>) -> Seq<char> {
    if l.len() > 0 && l.last() == '\r' {
        l.drop_last()
    } else {
        l
    }
}

/// The field and value of a non-empty, non-comment line.
pub open spec fn field_value(line: Seq<char>) -> (Seq<char>, Seq<char>) {
    match find_char(line, ':') {
        Some(i) => (line.take(i), trim_start(line.skip(i + 1))),
        None => (line, Seq::empty()),
    }
}

/// The effect of one line on the buffer, and the event it dispatches.
pub open spec fn step(b: BufView, raw: Seq<char>) -> (BufView, Option<EventView>) {
    let line = strip_cr(raw);
    if line.len() == 0 {
        (empty_buf(), buf_event(b))
    } else if line[0] == ':' {
        (b, None)
    } else {
        let (field, value) = field_value(line);
        if field == "event"@ {
            (BufView { event: Some(value), ..b }, None)
        } else if field == "data"@ {
            (BufView { data: b.data.push(value), ..b }, None)
        } else if field == "id"@ {
            (BufView { id: Some(value), ..b }, None)
        } else {
            (b, None)
        }
    }
}

/// An optional event as a sequence of zero or one events.
pub open spec fn opt_seq(e: Option<EventView>) -> Seq<EventView> {
    match e {
        Some(x) => seq![x],
        None => Seq::empty(),
    }
}

/// The lines processed in order: the final buffer and the events dispatched.
pub open spec fn process(b: BufView, lines: Seq<Seq<char>>) -> (BufView, Seq<EventView>)
    decreases lines.len(),
{
    if lines.len() == 0 {
        (b, Seq::empty())
    } else {
        let (b1, evs) = process(b, lines.drop_last());
        let (b2, e) = step(b1, lines.last());
        (b2, evs + opt_seq(e))
    }
}

/// The pending event: the fields read since the last dispatch.
#[derive(Debug)]
struct SseBuffer {
    event: Option<String>,
    data: Vec<String>,
    id: Option<String>,
}

impl SseBuffer {
    closed spec fn view(self) -> BufView {
        BufView {
            event: opt_view(self.event),
            data: self.data@.map_values(|s: String| s@),
            id: opt_view(self.id),
        }
    }

    fn clear(&mut self)
        ensures
            final(self).view() == empty_buf(),
    {
        self.event = None;
        self.data = Vec::new();
        self.id = None;
        assert(self.view().data =~= Seq::<Seq<char>>::empty());
    }

    fn to_event(&self) -> (r: Option<SseEvent>)
        ensures
            match r {
                Some(e) => buf_event(self.view()) == Some(e.view()),
                None => buf_event(self.view()) is None,
            },
    {
        if self.event.is_none() && self.data.len() == 0 && self.id.is_none() {
            return None;
        }
        let event = match &self.event {
            Some(e) => Some(e.clone()),
            None => None,
        };
        let id = match &self.id {
            Some(e) => Some(e.clone()),
            None => None,
        };
        let data = join_strings(self.data.as_slice(), "\n");
        proof {
            reveal_strlit("\n");
            assert("\n"@ =~= seq!['\n']);
        }
        Some(SseEvent { event, data, id })
    }
}

/// The SSE parser: the pending event, and the line not yet ended, between feeds.
#[derive(Debug)]
pub struct SseParser {
    buf: SseBuffer,
    partial: Vec<char>,
}

/// The event `finish` gives for a pending buffer and an unended last line:
/// the line is read as a line, then the buffer is dispatched.
pub open spec fn finish_event(b: BufView, partial: Seq<char>) -> Option<EventView> {
    let (b1, e1) = step(b, partial);
    match e1 {
        Some(e) => Some(e),
        None => buf_event(b1),
    }
}

impl SseParser {
    /// The pending, not yet dispatched, event fields.
    pub closed spec fn pending(self) -> BufView {
        self.buf.view()
    }

    /// The text after the last `\n` fed so far: a line not yet ended.
    pub closed spec fn partial(self) -> Seq<char> {
        self.partial@
    }

    /// An empty parser.
    pub fn new() -> (p: Self)
        ensures
            p.pending() == empty_buf(),
            p.partial() == Seq::<char>::empty(),
    {
        let p = SseParser { buf: SseBuffer { event: None, data: Vec::new(), id: None }, partial: Vec::new() };
        assert(p.pending().data =~= Seq::<Seq<char>>::empty());
        p
    }

    fn handle_line(&mut self, raw: &Vec<char>, out: &mut Vec<SseEvent>)
        ensures
            final(self).pending() == step(old(self).pending(), raw@).0,
            final(self).partial() == old(self).partial(),
            final(out)@.map_values(|e: SseEvent| e.view()) == old(out)@.map_values(
                |e: SseEvent| e.view(),
            ) + opt_seq(step(old(self).pending(), raw@).1),
    {
        let mut n = raw.len();
        if n > 0 && raw[n - 1] == '\r' {
            n = n - 1;
        }
        let ghost line = strip_cr(raw@);
        assert(line =~= raw@.subrange(0, n as int));
        if n == 0 {
            let ev = self.buf.to_event();
            match ev {
                Some(e) => {
                    out.push(e);
                },
                None => {},
            }
            self.buf.clear();
            assert(out@.map_values(|e: SseEvent| e.view()) =~= old(out)@.map_values(
                |e: SseEvent| e.view(),
            ) + opt_seq(step(old(self).pending(), raw@).1));
            return;
        }
        if raw[0] == ':' {
            assert(out@.map_values(|e: SseEvent| e.view()) =~= old(out)@.map_values(
                |e: SseEvent| e.view(),
            ) + opt_seq(step(old(self).pending(), raw@).1));
            return;
        }
        let mut idx: usize = 0;
        while idx < n && raw[idx] != ':'
            invariant
                n <= raw@.len(),
                line == raw@.subrange(0, n as int),
                idx <= n,
                forall|k: int| 0 <= k < idx ==> line[k] != ':',
            decreases n - idx,
        {
            idx = idx + 1;
        }
        proof {
            lemma_find_char(line, ':', idx as int);
        }
        let field = string_of_range(raw.as_slice(), 0, idx);
        let value = if idx < n {
            let mut s = idx + 1;
            while s < n && is_whitespace(raw[s])
                invariant
                    n <= raw@.len(),
                    idx < n,
                    idx + 1 <= s <= n,
                    forall|k: int| idx + 1 <= k < s ==> is_ws(#[trigger] raw@[k]),
                decreases n - s,
            {
                s = s + 1;
            }
            proof {
                let rest = line.skip(idx + 1);
                assert forall|k: int| 0 <= k < s - (idx + 1) implies is_ws(#[trigger] rest[k]) by {
                    assert(rest[k] == raw@[k + idx + 1]);
                }
                lemma_trim_start_index(rest, s - (idx + 1));
                assert(rest.skip(s - (idx + 1)) =~= raw@.subrange(s as int, n as int));
            }
            string_of_range(raw.as_slice(), s, n)
        } else {
            String::new()
        };
        assert(field@ =~= field_value(line).0);
        assert(value@ =~= field_value(line).1);
        let ghost before = self.pending();
        if str_eq(field.as_str(), "event") {
            self.buf.event = Some(value);
        } else if str_eq(field.as_str(), "data") {
            self.buf.data.push(value);
            assert(self.pending().data =~= before.data.push(field_value(line).1));
        } else if str_eq(field.as_str(), "id") {
            self.buf.id = Some(value);
        }
        assert(out@.map_values(|e: SseEvent| e.view()) =~= old(out)@.map_values(
            |e: SseEvent| e.view(),
        ) + opt_seq(step(old(self).pending(), raw@).1));
    }

    /// Feeds a chunk of bytes and returns the events it completes.
    ///
    /// The chunk is decoded as UTF-8 and added to the line not yet ended;
    /// the text is split on `\n`, and every piece followed by a `\n` is a
    /// line. An empty line dispatches the pending event; the fields of an
    /// event not yet closed by an empty line, and the text after the last
    /// `\n`, stay for the next feed. Fails with `InvalidUtf8` (and changes
    /// nothing) when the chunk is not valid UTF-8.
    pub fn feed(&mut self, bytes: &[u8]) -> (r: Result<Vec<SseEvent>, SseError>)
        ensures
            valid_utf8(bytes@) ==> {
                let pieces = split_on(old(self).partial() + decode_utf8(bytes@), '\n');
                let (b, evs) = process(old(self).pending(), pieces.drop_last());
                &&& r is Ok
                &&& r->Ok_0@.map_values(|e: SseEvent| e.view()) == evs
                &&& final(self).pending() == b
                &&& final(self).partial() == pieces.last()
            },
            !valid_utf8(bytes@) ==> {
                &&& r matches Err(SseError::InvalidUtf8(k))
                &&& partial_valid_utf8(bytes@, k as int)
                &&& forall|j: int| k < j <= bytes@.len() ==> !partial_valid_utf8(bytes@, j)
                &&& final(self).pending() == old(self).pending()
                &&& final(self).partial() == old(self).partial()
            },
    {
        let text = match decode_utf8_bytes(bytes) {
            Ok(t) => t,
            Err(k) => {
                return Err(SseError::InvalidUtf8(k));
            },
        };
        let mut fresh = chars_of(text.as_str());
        let mut chars: Vec<char> = Vec::new();
        chars.append(&mut self.partial);
        chars.append(&mut fresh);
        let ghost all = old(self).partial() + decode_utf8(bytes@);
        assert(chars@ =~= all);
        let ghost b0 = self.pending();
        let mut out: Vec<SseEvent> = Vec::new();
        let mut cur: Vec<char> = Vec::new();
        let mut i: usize = 0;
        while i < chars.len()
            invariant
                i <= chars@.len(),
                chars@ == all,
                ({
                    let pieces = split_on(chars@.take(i as int), '\n');
                    &&& pieces.last() == cur@
                    &&& process(b0, pieces.drop_last()) == (
                        self.pending(),
                        out@.map_values(|e: SseEvent| e.view()),
                    )
                }),
            decreases chars.len() - i,
        {
            let ghost prefix = chars@.take(i as int);
            let ghost pieces = split_on(prefix, '\n');
            proof {
                lemma_split_on_len(prefix, '\n');
                assert(chars@.take(i + 1).drop_last() =~= prefix);
            }
            if chars[i] == '\n' {
                self.handle_line(&cur, &mut out);
                cur = Vec::new();
                i = i + 1;
                proof {
                    let np = split_on(chars@.take(i as int), '\n');
                    assert(np =~= pieces.push(Seq::empty()));
                    assert(np.drop_last() =~= pieces);
                    assert(cur@ =~= Seq::<char>::empty());
                }
            } else {
                cur.push(chars[i]);
                i = i + 1;
                proof {
                    let np = split_on(chars@.take(i as int), '\n');
                    assert(np =~= pieces.update(pieces.len() - 1, pieces.last().push(chars@[i - 1])));
                    assert(np.drop_last() =~= pieces.drop_last());
                }
            }
        }
        proof {
            assert(chars@.take(i as int) =~= chars@);
        }
        self.partial = cur;
        Ok(out)
    }

    /// Marks the end of the stream: the line not yet ended is read as a line,
    /// then the pending event, if any, is returned; the parser is left empty.
    pub fn finish(&mut self) -> (r: Option<SseEvent>)
        ensures
            match r {
                Some(e) => finish_event(old(self).pending(), old(self).partial()) == Some(e.view()),
                None => finish_event(old(self).pending(), old(self).partial()) is None,
            },
            final(self).pending() == empty_buf(),
            final(self).partial() == Seq::<char>::empty(),
    {
        let mut tail: Vec<char> = Vec::new();
        tail.append(&mut self.partial);
        let mut out: Vec<SseEvent> = Vec::new();
        self.handle_line(&tail, &mut out);
        let ghost b0 = old(self).pending();
        assert(out@.map_values(|e: SseEvent| e.view()) =~= opt_seq(step(b0, tail@).1));
        let r = if out.len() > 0 {
            assert(out@.map_values(|e: SseEvent| e.view())[0] == out@[0].view());
            let e = out.pop().unwrap();
            Some(e)
        } else {
            self.buf.to_event()
        };
        self.buf.clear();
        r
    }
}

/// After `finish`, the parser is empty, so a second `finish` yields nothing.
pub proof fn law_finish_twice_yields_nothing()
    ensures
        finish_event(empty_buf(), Seq::empty()) is None,
{
}

/// An event stays pending until an empty line closes it: lines that are
/// not empty dispatch nothing.
pub proof fn law_only_blank_lines_dispatch(b: BufView, line: Seq<char>)
    requires
        strip_cr(line).len() > 0,
    ensures
        step(b, line).1 is None,
{
}

/// A comment line changes nothing and dispatches nothing.
pub proof fn law_comment_lines_are_ignored(b: BufView, line: Seq<char>)
    requires
        line.len() > 0,
        line[0] == ':',
    ensures
        step(b, line) == (b, None::<EventView>),
{
}

/// An empty line (or a lone `\r`) dispatches the pending event and empties the buffer.
pub proof fn law_blank_line_dispatches(b: BufView)
    ensures
        step(b, Seq::empty()) == (empty_buf(), buf_event(b)),
        step(b, seq!['\r']) == (empty_buf(), buf_event(b)),
{
    assert(strip_cr(seq!['\r']) =~= Seq::<char>::empty());
}

/// A line ended by `\r\n` is read exactly like the same line ended by `\n`:
/// a trailing `\r` after a line's text changes neither the buffer nor what
/// is dispatched.
pub proof fn law_crlf_line_reads_like_lf(b: BufView, line: Seq<char>)
    requires
        line.len() == 0 || line.last() != '\r',
    ensures
        step(b, line.push('\r')) == step(b, line),
{
    assert(line.push('\r').drop_last() =~= line);
}

/// A stream of `\r\n`-ended lines gives the same events, and leaves the same
/// pending event, as the same lines ended by `\n`.
pub proof fn law_crlf_stream_reads_like_lf(b: BufView, lines: Seq<Seq<char>>, crlf: Seq<Seq<char>>)
    requires
        crlf.len() == lines.len(),
        forall|i: int| 0 <= i < lines.len() ==> (#[trigger] lines[i]).len() == 0 || lines[i].last() != '\r',
        forall|i: int| 0 <= i < lines.len() ==> #[trigger] crlf[i] == lines[i].push('\r'),
    ensures
        process(b, crlf) == process(b, lines),
    decreases lines.len(),
{
    if lines.len() > 0 {
        let n = lines.len() - 1;
        assert forall|i: int| 0 <= i < n implies #[trigger] crlf.drop_last()[i] == lines.drop_last()[i].push('\r') by {
            assert(crlf[i] == lines[i].push('\r'));
        }
        assert forall|i: int| 0 <= i < n implies (#[trigger] lines.drop_last()[i]).len() == 0
            || lines.drop_last()[i].last() != '\r' by {
            assert(lines[i].len() == 0 || lines[i].last() != '\r');
        }
        law_crlf_stream_reads_like_lf(b, lines.drop_last(), crlf.drop_last());
        let (b1, evs) = process(b, lines.drop_last());
        assert(lines[n].len() == 0 || lines[n].last() != '\r');
        assert(crlf[n] == lines[n].push('\r'));
        law_crlf_line_reads_like_lf(b1, lines.last());
    }
}

proof fn lemma_field_line(name: Seq<char>, v: Seq<char>)
    requires
        name.len() > 0,
        forall|k: int| 0 <= k < name.len() ==> name[k] != ':',
        v.len() == 0 || v.last() != '\r',
    ensures
        strip_cr(name + seq![':'] + v) == name + seq![':'] + v,
        (name + seq![':'] + v).len() > 0,
        (name + seq![':'] + v)[0] == name[0],
        field_value(name + seq![':'] + v) == (name, trim_start(v)),
{
    let line = name + seq![':'] + v;
    let n = name.len() as int;
    if v.len() > 0 {
        assert(line.last() == v.last());
    }
    assert(line[n] == ':');
    lemma_find_char(line, ':', n);
    assert(line.take(n) =~= name);
    assert(line.skip(n + 1) =~= v);
}

/// `data:`, `event:` and `id:` lines fill the pending event: a `data` line
/// adds its value (leading blanks dropped) as the next data line, `event`
/// and `id` lines set those fields, and none of them dispatches.
pub proof fn law_field_lines_fill_the_event(b: BufView, v: Seq<char>)
    requires
        v.len() == 0 || v.last() != '\r',
    ensures
        step(b, "data:"@ + v) == (BufView { data: b.data.push(trim_start(v)), ..b }, None::<EventView>),
        step(b, "event:"@ + v) == (BufView { event: Some(trim_start(v)), ..b }, None::<EventView>),
        step(b, "id:"@ + v) == (BufView { id: Some(trim_start(v)), ..b }, None::<EventView>),
{
    reveal_strlit("data:");
    reveal_strlit("event:");
    reveal_strlit("id:");
    reveal_strlit("data");
    reveal_strlit("event");
    reveal_strlit("id");
    assert("data:"@ + v =~= "data"@ + seq![':'] + v);
    assert("event:"@ + v =~= "event"@ + seq![':'] + v);
    assert("id:"@ + v =~= "id"@ + seq![':'] + v);
    lemma_field_line("data"@, v);
    lemma_field_line("event"@, v);
    lemma_field_line("id"@, v);
    assert("data"@ != "event"@ && "data"@ != "id"@ && "event"@ != "id"@) by {
        assert("data"@.len() != "event"@.len() && "data"@.len() != "id"@.len() && "event"@.len() != "id"@.len());
    }
}

} // verus!
