//! The registry of background child agents, shared by the parent's scope.
//!
//! A child is registered by the `subagent` tool; the parent asks for its status,
//! fetches its result once it has finished, sends messages to its inbox and
//! finally deletes it.

use vstd::prelude::*;

use crate::domain::{AgentMessage, ChildHandle, ChildId, ChildStatus};
use crate::text::{decimal, push_char, str_eq};

verus! {

/// What the registry records of one message in a child's inbox.
pub struct MessageRecord {
    pub to: Seq<char>,
    pub from: Seq<char>,
    pub content: Seq<char>,
}

/// What the registry records of one child.
pub struct ChildRecord {
    pub name: Option<Seq<char>>,
    pub session_dir: Seq<char>,
    pub status: ChildStatus,
    pub result: Option<Seq<char>>,
    pub inbox: Seq<MessageRecord>,
}

/// The view of an optional string.
pub open spec fn opt_view(o: Option<String>) -> Option<Seq<char>> {
    match o {
        Some(s) => Some(s@),
        None => None,
    }
}

/// The record of one message.
pub open spec fn message_record(m: AgentMessage) -> MessageRecord {
    MessageRecord { to: m.to.0@, from: m.from@, content: m.content@ }
}

/// The record of one handle.
pub open spec fn handle_record(h: ChildHandle) -> ChildRecord {
    ChildRecord {
        name: opt_view(h.name),
        session_dir: h.session_dir@,
        status: h.status,
        result: opt_view(h.result),
        inbox: h.inbox@.map_values(|m: AgentMessage| message_record(m)),
    }
}

/// A child's record once its status has changed.
pub open spec fn with_status(c: ChildRecord, status: ChildStatus) -> ChildRecord {
    ChildRecord { status, ..c }
}

/// A child's record once it has finished with a result.
pub open spec fn with_result(c: ChildRecord, result: Seq<char>) -> ChildRecord {
    ChildRecord { status: ChildStatus::Completed, result: Some(result), ..c }
}

/// A child's record once a message has been delivered to it.
pub open spec fn with_message(c: ChildRecord, m: MessageRecord) -> ChildRecord {
    ChildRecord { inbox: c.inbox.push(m), ..c }
}

/// A child's record with an empty inbox (what a copy of its handle holds).
pub open spec fn without_inbox(c: ChildRecord) -> ChildRecord {
    ChildRecord { inbox: Seq::empty(), ..c }
}

/// The record of a child just registered.
pub open spec fn fresh_record(
    name: Option<Seq<char>>,
    session_dir: Seq<char>,
    status: ChildStatus,
) -> ChildRecord {
    ChildRecord { name, session_dir, status, result: None, inbox: Seq::empty() }
}

/// The registry of child agents, by id.
pub struct ChildRegistry {
    children: Vec<ChildHandle>,
}

fn copy_opt(o: &Option<String>) -> (r: Option<String>)
    ensures
        opt_view(r) == opt_view(*o),
{
    match o {
        Some(s) => Some(s.clone()),
        None => None,
    }
}

fn copy_id(id: &ChildId) -> (r: ChildId)
    ensures
        r.0@ == id.0@,
{
    ChildId(id.0.clone())
}

/// A copy of a handle with an empty inbox.
fn clone_handle(h: &ChildHandle) -> (r: ChildHandle)
    ensures
        r.child_id.0@ == h.child_id.0@,
        handle_record(r) == without_inbox(handle_record(*h)),
{
    let r = ChildHandle {
        child_id: copy_id(&h.child_id),
        name: copy_opt(&h.name),
        session_dir: h.session_dir.clone(),
        status: h.status,
        result: copy_opt(&h.result),
        inbox: Vec::new(),
    };
    assert(r.inbox@.map_values(|m: AgentMessage| message_record(m)) =~= Seq::<MessageRecord>::empty());
    r
}

impl ChildRegistry {
    /// No id occurs twice.
    pub closed spec fn wf(self) -> bool {
        forall|i: int, j: int|
            0 <= i < j < self.children@.len() ==> #[trigger] self.children@[i].child_id.0@
                != #[trigger] self.children@[j].child_id.0@
    }

    closed spec fn index_of(self, k: Seq<char>) -> int {
        choose|i: int| 0 <= i < self.children@.len() && self.children@[i].child_id.0@ == k
    }

    /// The registered children, by id.
    pub closed spec fn view(self) -> Map<Seq<char>, ChildRecord> {
        Map::new(
            |k: Seq<char>|
                exists|i: int| 0 <= i < self.children@.len() && self.children@[i].child_id.0@ == k,
            |k: Seq<char>| handle_record(self.children@[self.index_of(k)]),
        )
    }

    proof fn lemma_view_at(self, i: int)
        requires
            self.wf(),
            0 <= i < self.children@.len(),
        ensures
            self.view().dom().contains(self.children@[i].child_id.0@),
            self.view()[self.children@[i].child_id.0@] == handle_record(self.children@[i]),
    {
        let k = self.children@[i].child_id.0@;
        assert(self.view().dom().contains(k));
        let j = self.index_of(k);
        if j != i {
            if j < i {
                assert(self.children@[j].child_id.0@ != self.children@[i].child_id.0@);
            } else {
                assert(self.children@[i].child_id.0@ != self.children@[j].child_id.0@);
            }
        }
    }

    proof fn lemma_len(self)
        requires
            self.wf(),
        ensures
            self.view().dom().finite(),
            self.view().dom().len() == self.children@.len(),
    {
        let ids = self.children@.map_values(|h: ChildHandle| h.child_id.0@);
        assert forall|a: int, b: int| 0 <= a < b < ids.len() implies ids[a] != ids[b] by {
            assert(self.children@[a].child_id.0@ != self.children@[b].child_id.0@);
        }
        ids.unique_seq_to_set();
        assert(self.view().dom() =~= ids.to_set()) by {
            assert forall|k: Seq<char>| self.view().dom().contains(k) implies ids.to_set().contains(k) by {
                let j = choose|j: int| 0 <= j < self.children@.len() && self.children@[j].child_id.0@ == k;
                assert(ids[j] == k);
            }
            assert forall|k: Seq<char>| ids.to_set().contains(k) implies self.view().dom().contains(k) by {
                let j = choose|j: int| 0 <= j < ids.len() && ids[j] == k;
                assert(self.children@[j].child_id.0@ == k);
            }
        }
    }

    /// An empty registry.
    pub fn new() -> (r: Self)
        ensures
            r.wf(),
            r.view() == Map::<Seq<char>, ChildRecord>::empty(),
    {
        let r = ChildRegistry { children: Vec::new() };
        assert(r.view() =~= Map::<Seq<char>, ChildRecord>::empty());
        r
    }

    /// The position of a child, if registered.
    fn locate(&self, id: &ChildId) -> (r: Option<usize>)
        requires
            self.wf(),
        ensures
            match r {
                Some(i) => i < self.children@.len() && self.children@[i as int].child_id.0@
                    == id.0@,
                None => !self.view().dom().contains(id.0@),
            },
    {
        let mut i: usize = 0;
        while i < self.children.len()
            invariant
                i <= self.children@.len(),
                forall|j: int| 0 <= j < i ==> self.children@[j].child_id.0@ != id.0@,
            decreases self.children@.len() - i,
        {
            if str_eq(self.children[i].child_id.0.as_str(), id.0.as_str()) {
                return Some(i);
            }
            i = i + 1;
        }
        None
    }

    /// Puts a handle under its own id, replacing a child of the same id.
    fn put(&mut self, handle: ChildHandle)
        requires
            old(self).wf(),
        ensures
            final(self).wf(),
            final(self).view() == old(self).view().insert(
                handle.child_id.0@,
                handle_record(handle),
            ),
    {
        let ghost k = handle.child_id.0@;
        let ghost rec = handle_record(handle);
        match self.locate(&handle.child_id) {
            Some(i) => {
                let ghost before = *self;
                self.children.set(i, handle);
                proof {
                    assert(self.wf()) by {
                        assert forall|a: int, b: int| 0 <= a < b < self.children@.len() implies
                            #[trigger] self.children@[a].child_id.0@ != #[trigger] self.children@[b].child_id.0@ by {
                            assert(before.children@[a].child_id.0@ == self.children@[a].child_id.0@);
                            assert(before.children@[b].child_id.0@ == self.children@[b].child_id.0@);
                        }
                    }
                    assert(self.view() =~= before.view().insert(k, rec)) by {
                        assert forall|x: Seq<char>| #![auto]
                            self.view().dom().contains(x) == before.view().insert(k, rec).dom().contains(x) by {
                            if before.view().dom().contains(x) {
                                let j = choose|j: int| 0 <= j < before.children@.len() && before.children@[j].child_id.0@ == x;
                                assert(self.children@[j].child_id.0@ == x || j == i);
                            }
                            if self.view().dom().contains(x) {
                                let j = choose|j: int| 0 <= j < self.children@.len() && self.children@[j].child_id.0@ == x;
                                assert(before.children@[j].child_id.0@ == x || j == i);
                            }
                        }
                        assert forall|x: Seq<char>| #[trigger] self.view().dom().contains(x) implies self.view()[x]
                            == before.view().insert(k, rec)[x] by {
                            let j = choose|j: int| 0 <= j < self.children@.len() && self.children@[j].child_id.0@ == x;
                            self.lemma_view_at(j);
                            if j != i {
                                before.lemma_view_at(j);
                            }
                        }
                    }
                }
            },
            None => {
                let ghost before = *self;
                self.children.push(handle);
                proof {
                    let n = before.children@.len() as int;
                    assert(self.wf()) by {
                        assert forall|a: int, b: int| 0 <= a < b < self.children@.len() implies
                            #[trigger] self.children@[a].child_id.0@ != #[trigger] self.children@[b].child_id.0@ by {
                            if b == n {
                                assert(before.children@[a].child_id.0@ != k);
                            } else {
                                assert(before.children@[a].child_id.0@ != before.children@[b].child_id.0@);
                            }
                        }
                    }
                    assert(self.view() =~= before.view().insert(k, rec)) by {
                        assert forall|x: Seq<char>| #![auto]
                            self.view().dom().contains(x) == before.view().insert(k, rec).dom().contains(x) by {
                            if before.view().dom().contains(x) {
                                let j = choose|j: int| 0 <= j < before.children@.len() && before.children@[j].child_id.0@ == x;
                                assert(self.children@[j].child_id.0@ == x);
                            }
                            if x == k {
                                assert(self.children@[n].child_id.0@ == x);
                            }
                            if self.view().dom().contains(x) {
                                let j = choose|j: int| 0 <= j < self.children@.len() && self.children@[j].child_id.0@ == x;
                                assert(j == n || before.children@[j].child_id.0@ == x);
                            }
                        }
                        assert forall|x: Seq<char>| #[trigger] self.view().dom().contains(x) implies self.view()[x]
                            == before.view().insert(k, rec)[x] by {
                            let j = choose|j: int| 0 <= j < self.children@.len() && self.children@[j].child_id.0@ == x;
                            self.lemma_view_at(j);
                            if j != n {
                                before.lemma_view_at(j);
                            }
                        }
                    }
                }
            },
        }
    }

    /// An id that no registered child has: `candidate` itself when it is
    /// free, else `candidate` followed by as many `_` as make it longer than
    /// every registered id.
    fn fresh_id(&self, candidate: ChildId) -> (id: ChildId)
        requires
            self.wf(),
        ensures
            !self.view().dom().contains(id.0@),
            !self.view().dom().contains(candidate.0@) ==> id.0@ == candidate.0@,
            candidate.0@.is_prefix_of(id.0@),
    {
        if self.locate(&candidate).is_none() {
            return candidate;
        }
        let mut longest: usize = 0;
        let mut i: usize = 0;
        while i < self.children.len()
            invariant
                i <= self.children@.len(),
                forall|j: int| 0 <= j < i ==> #[trigger] self.children@[j].child_id.0@.len() <= longest,
            decreases self.children@.len() - i,
        {
            let l = self.children[i].child_id.0.as_str().unicode_len();
            if l > longest {
                longest = l;
            }
            i = i + 1;
        }
        let mut s = candidate.0;
        let ghost c = s@;
        while s.as_str().unicode_len() <= longest
            invariant
                forall|j: int| 0 <= j < self.children@.len() ==> #[trigger] self.children@[j].child_id.0@.len() <= longest,
                c.is_prefix_of(s@),
            decreases longest + 1 - s@.len(),
        {
            push_char(&mut s, '_');
        }
        proof {
            if self.view().dom().contains(s@) {
                let j = choose|j: int| 0 <= j < self.children@.len() && self.children@[j].child_id.0@ == s@;
                assert(self.children@[j].child_id.0@.len() <= longest);
            }
        }
        ChildId(s)
    }

    /// Registers a new child under a generated id that no registered child
    /// has, and returns the id: the clock's `child_<nanoseconds>`, or, when a
    /// child holds that already, the same text followed by `_`s.
    pub fn register(&mut self, name: Option<String>, session_dir: String, status: ChildStatus) -> (id:
        ChildId)
        requires
            old(self).wf(),
        ensures
            final(self).wf(),
            !old(self).view().dom().contains(id.0@),
            final(self).view() == old(self).view().insert(
                id.0@,
                fresh_record(opt_view(name), session_dir@, status),
            ),
            final(self).view().dom().len() == old(self).view().dom().len() + 1,
            exists|n: nat| ("child_"@ + decimal(n)).is_prefix_of(id.0@),
    {
        let generated = ChildId::generate();
        let child_id = self.fresh_id(generated);
        let id = copy_id(&child_id);
        let handle = ChildHandle {
            child_id,
            name,
            session_dir,
            status,
            result: None,
            inbox: Vec::new(),
        };
        assert(handle.inbox@.map_values(|m: AgentMessage| message_record(m)) =~= Seq::<MessageRecord>::empty());
        proof {
            self.lemma_len();
        }
        self.put(handle);
        proof {
            self.lemma_len();
        }
        id
    }

    /// A copy of a child's handle, with an empty inbox.
    pub fn get(&self, child_id: &ChildId) -> (r: Option<ChildHandle>)
        requires
            self.wf(),
        ensures
            match r {
                Some(h) => self.view().dom().contains(child_id.0@) && h.child_id.0@ == child_id.0@
                    && handle_record(h) == without_inbox(self.view()[child_id.0@]),
                None => !self.view().dom().contains(child_id.0@),
            },
    {
        match self.locate(child_id) {
            Some(i) => {
                proof {
                    self.lemma_view_at(i as int);
                }
                Some(clone_handle(&self.children[i]))
            },
            None => None,
        }
    }

    /// Takes child `i` out of the registry.
    fn take(&mut self, i: usize) -> (h: ChildHandle)
        requires
            old(self).wf(),
            i < old(self).children@.len(),
        ensures
            final(self).wf(),
            h.child_id.0@ == old(self).children@[i as int].child_id.0@,
            old(self).view().dom().contains(h.child_id.0@),
            handle_record(h) == old(self).view()[h.child_id.0@],
            final(self).view() == old(self).view().remove(h.child_id.0@),
    {
        proof {
            self.lemma_view_at(i as int);
        }
        let ghost o = *self;
        let h = self.children.remove(i);
        proof {
            let k = h.child_id.0@;
            let n = self.children@.len();
            assert forall|j: int| 0 <= j < n implies #[trigger] self.children@[j] == if j < i {
                o.children@[j]
            } else {
                o.children@[j + 1]
            } by {}
            assert(self.wf()) by {
                assert forall|a: int, b: int| 0 <= a < b < self.children@.len() implies
                    #[trigger] self.children@[a].child_id.0@ != #[trigger] self.children@[b].child_id.0@ by {
                    let a2 = if a < i { a } else { a + 1 };
                    let b2 = if b < i { b } else { b + 1 };
                    assert(self.children@[a] == o.children@[a2]);
                    assert(self.children@[b] == o.children@[b2]);
                    assert(o.children@[a2].child_id.0@ != o.children@[b2].child_id.0@);
                }
            }
            assert(self.view() =~= o.view().remove(k)) by {
                assert forall|x: Seq<char>| #![auto]
                    self.view().dom().contains(x) == o.view().remove(k).dom().contains(x) by {
                    if o.view().dom().contains(x) && x != k {
                        let j = choose|j: int| 0 <= j < o.children@.len() && o.children@[j].child_id.0@ == x;
                        assert(j != i);
                        let j2 = if j < i { j } else { j - 1 };
                        assert(self.children@[j2].child_id.0@ == x);
                    }
                    if self.view().dom().contains(x) {
                        let j = choose|j: int| 0 <= j < self.children@.len() && self.children@[j].child_id.0@ == x;
                        let j2 = if j < i { j } else { j + 1 };
                        assert(o.children@[j2].child_id.0@ == x);
                        assert(j2 != i);
                        if j2 < i {
                            assert(o.children@[j2].child_id.0@ != o.children@[i as int].child_id.0@);
                        } else {
                            assert(o.children@[i as int].child_id.0@ != o.children@[j2].child_id.0@);
                        }
                    }
                }
                assert forall|x: Seq<char>| #[trigger] self.view().dom().contains(x) implies self.view()[x]
                    == o.view().remove(k)[x] by {
                    let j = choose|j: int| 0 <= j < self.children@.len() && self.children@[j].child_id.0@ == x;
                    let j2 = if j < i { j } else { j + 1 };
                    self.lemma_view_at(j);
                    o.lemma_view_at(j2);
                }
            }
        }
        h
    }

    /// Sets the status of a registered child; an unknown id changes nothing.
    pub fn set_status(&mut self, child_id: &ChildId, status: ChildStatus)
        requires
            old(self).wf(),
        ensures
            final(self).wf(),
            final(self).view() == if old(self).view().dom().contains(child_id.0@) {
                old(self).view().insert(
                    child_id.0@,
                    with_status(old(self).view()[child_id.0@], status),
                )
            } else {
                old(self).view()
            },
    {
        if let Some(i) = self.locate(child_id) {
            let ghost o = self.view();
            let h = self.take(i);
            let handle = ChildHandle { status, ..h };
            self.put(handle);
            proof {
                assert(self.view() =~= o.insert(child_id.0@, with_status(o[child_id.0@], status)));
            }
        }
    }

    /// Records the result of a registered child, which is then `Completed`;
    /// an unknown id changes nothing.
    pub fn set_result(&mut self, child_id: &ChildId, result: String)
        requires
            old(self).wf(),
        ensures
            final(self).wf(),
            final(self).view() == if old(self).view().dom().contains(child_id.0@) {
                old(self).view().insert(
                    child_id.0@,
                    with_result(old(self).view()[child_id.0@], result@),
                )
            } else {
                old(self).view()
            },
    {
        if let Some(i) = self.locate(child_id) {
            let ghost o = self.view();
            let h = self.take(i);
            let handle = ChildHandle { status: ChildStatus::Completed, result: Some(result), ..h };
            self.put(handle);
            proof {
                assert(self.view() =~= o.insert(child_id.0@, with_result(o[child_id.0@], result@)));
            }
        }
    }

    /// Delivers a message to a registered child's inbox; `false` for an unknown id,
    /// which changes nothing.
    pub fn send_message(&mut self, child_id: &ChildId, msg: AgentMessage) -> (sent: bool)
        requires
            old(self).wf(),
        ensures
            final(self).wf(),
            sent == old(self).view().dom().contains(child_id.0@),
            final(self).view() == if sent {
                old(self).view().insert(
                    child_id.0@,
                    with_message(old(self).view()[child_id.0@], message_record(msg)),
                )
            } else {
                old(self).view()
            },
    {
        match self.locate(child_id) {
            Some(i) => {
                let ghost o = self.view();
                let ghost m = message_record(msg);
                let h = self.take(i);
                let mut inbox = h.inbox;
                let ghost before = inbox@;
                inbox.push(msg);
                let handle = ChildHandle { inbox, ..h };
                proof {
                    assert(handle.inbox@.map_values(|x: AgentMessage| message_record(x)) =~= before.map_values(
                        |x: AgentMessage| message_record(x),
                    ).push(m));
                }
                self.put(handle);
                proof {
                    assert(self.view() =~= o.insert(child_id.0@, with_message(o[child_id.0@], m)));
                }
                true
            },
            None => false,
        }
    }

    /// Removes a child; `true` when it was registered.
    pub fn delete(&mut self, child_id: &ChildId) -> (removed: bool)
        requires
            old(self).wf(),
        ensures
            final(self).wf(),
            removed == old(self).view().dom().contains(child_id.0@),
            final(self).view() == old(self).view().remove(child_id.0@),
    {
        match self.locate(child_id) {
            Some(i) => {
                let _ = self.take(i);
                true
            },
            None => {
                proof {
                    assert(self.view() =~= self.view().remove(child_id.0@));
                }
                false
            },
        }
    }

    /// Every child's id, status and name; each registered child once.
    pub fn list(&self) -> (r: Vec<(ChildId, ChildStatus, Option<String>)>)
        requires
            self.wf(),
        ensures
            r@.len() == self.view().dom().len(),
            forall|i: int| #![trigger r@[i]]
                0 <= i < r@.len() ==> self.view().dom().contains(r@[i].0.0@) && r@[i].1
                    == self.view()[r@[i].0.0@].status && opt_view(r@[i].2)
                    == self.view()[r@[i].0.0@].name,
            forall|i: int, j: int| 0 <= i < j < r@.len() ==> #[trigger] r@[i].0.0@ != #[trigger] r@[j].0.0@,
    {
        let mut r: Vec<(ChildId, ChildStatus, Option<String>)> = Vec::new();
        let mut i: usize = 0;
        while i < self.children.len()
            invariant
                self.wf(),
                i <= self.children@.len(),
                r@.len() == i,
                forall|j: int| #![trigger r@[j]]
                    0 <= j < i ==> r@[j].0.0@ == self.children@[j].child_id.0@ && r@[j].1
                        == self.children@[j].status && opt_view(r@[j].2) == opt_view(
                        self.children@[j].name,
                    ),
            decreases self.children@.len() - i,
        {
            let h = &self.children[i];
            r.push((copy_id(&h.child_id), h.status, copy_opt(&h.name)));
            i = i + 1;
        }
        proof {
            assert forall|k: int| #![trigger r@[k]] 0 <= k < r@.len() implies self.view().dom().contains(
                r@[k].0.0@,
            ) && r@[k].1 == self.view()[r@[k].0.0@].status && opt_view(r@[k].2)
                == self.view()[r@[k].0.0@].name by {
                self.lemma_view_at(k);
            }
            assert forall|a: int, b: int| 0 <= a < b < r@.len() implies #[trigger] r@[a].0.0@
                != #[trigger] r@[b].0.0@ by {
                assert(self.children@[a].child_id.0@ != self.children@[b].child_id.0@);
            }
            let ids = self.children@.map_values(|h: ChildHandle| h.child_id.0@);
            assert forall|a: int, b: int| 0 <= a < b < ids.len() implies ids[a] != ids[b] by {
                assert(self.children@[a].child_id.0@ != self.children@[b].child_id.0@);
            }
            ids.unique_seq_to_set();
            assert(self.view().dom() =~= ids.to_set()) by {
                assert forall|k: Seq<char>| self.view().dom().contains(k) implies ids.to_set().contains(k) by {
                    let j = choose|j: int| 0 <= j < self.children@.len() && self.children@[j].child_id.0@ == k;
                    assert(ids[j] == k);
                }
                assert forall|k: Seq<char>| ids.to_set().contains(k) implies self.view().dom().contains(k) by {
                    let j = choose|j: int| 0 <= j < ids.len() && ids[j] == k;
                    assert(self.children@[j].child_id.0@ == k);
                }
            }
        }
        r
    }

    /// The result of a registered child, if it has one.
    pub fn fetch_result(&self, child_id: &ChildId) -> (r: Option<String>)
        requires
            self.wf(),
        ensures
            opt_view(r) == if self.view().dom().contains(child_id.0@) {
                self.view()[child_id.0@].result
            } else {
                None
            },
    {
        match self.locate(child_id) {
            Some(i) => {
                proof {
                    self.lemma_view_at(i as int);
                }
                copy_opt(&self.children[i].result)
            },
            None => None,
        }
    }

    /// The number of registered children.
    pub fn len(&self) -> (n: usize)
        requires
            self.wf(),
        ensures
            n == self.view().dom().len(),
    {
        proof {
            self.lemma_len();
        }
        self.children.len()
    }

    /// Whether no child is registered.
    pub fn is_empty(&self) -> (b: bool)
        requires
            self.wf(),
        ensures
            b == (self.view().dom().len() == 0),
    {
        self.len() == 0
    }
}

/// A child found after registration carries what it was registered with, no
/// result and an empty inbox.
pub proof fn law_registered_child_is_found(
    m: Map<Seq<char>, ChildRecord>,
    id: Seq<char>,
    name: Option<Seq<char>>,
    session_dir: Seq<char>,
    status: ChildStatus,
)
    ensures
        ({
            let after = m.insert(id, fresh_record(name, session_dir, status));
            &&& after.dom().contains(id)
            &&& without_inbox(after[id]) == fresh_record(name, session_dir, status)
            &&& after[id].result is None
        }),
{
}

/// Once a registered child's result is recorded, fetching it gives that result
/// and the child is `Completed`.
pub proof fn law_recorded_result_is_fetched(m: Map<Seq<char>, ChildRecord>, id: Seq<char>, result: Seq<char>)
    requires
        m.dom().contains(id),
    ensures
        ({
            let after = m.insert(id, with_result(m[id], result));
            &&& after[id].result == Some(result)
            &&& after[id].status == ChildStatus::Completed
        }),
{
}

/// A delivered message is the last one in the child's inbox, and the other
/// messages stay as they were.
pub proof fn law_message_lands_last(m: Map<Seq<char>, ChildRecord>, id: Seq<char>, msg: MessageRecord)
    requires
        m.dom().contains(id),
    ensures
        ({
            let inbox = m.insert(id, with_message(m[id], msg))[id].inbox;
            &&& inbox.len() == m[id].inbox.len() + 1
            &&& inbox.last() == msg
            &&& inbox.drop_last() == m[id].inbox
        }),
{
    assert(m[id].inbox.push(msg).drop_last() =~= m[id].inbox);
}

/// A deleted child is gone: deleting it again finds nothing and changes nothing.
pub proof fn law_delete_is_final(m: Map<Seq<char>, ChildRecord>, id: Seq<char>)
    ensures
        !m.remove(id).dom().contains(id),
        m.remove(id).remove(id) == m.remove(id),
{
    assert(m.remove(id).remove(id) =~= m.remove(id));
}

} // verus!
