//! Secret injection for plugin configurations.
//!
//! Replaces `${SECRET}` templates in MCP headers and env vars with values from
//! a secret store, so that secrets are never stored in manifests.

use vstd::prelude::*;

use crate::error::AgentError;
use crate::text::{chars_of, find_char, lemma_find_char, lemma_find_char_range, push_char, str_eq};

verus! {

/// Why a template could not be resolved.
pub enum TemplateError {
    /// `${` opened a template that no `}` closes; holds the key read so far.
    Unclosed(Seq<char>),
    /// The template names a secret that the store does not hold.
    Missing(Seq<char>),
}

/// The error text of a template error.
pub open spec fn template_error_text(e: TemplateError) -> Seq<char> {
    match e {
        TemplateError::Unclosed(k) => "unclosed secret template: ${"@ + k,
        TemplateError::Missing(k) => "secret `"@ + k + "` not found"@,
    }
}

/// `prefix` put in front of a successful resolution.
pub open spec fn prepend(prefix: Seq<char>, r: Result<Seq<char>, TemplateError>) -> Result<
    Seq<char>,
    TemplateError,
> {
    match r {
        Ok(s) => Ok(prefix + s),
        Err(e) => Err(e),
    }
}

/// The resolution of template `t` against secrets `m`, read left to right:
/// `${KEY}` becomes the value of `KEY`; every other character stays.
pub open spec fn resolve_template(m: Map<Seq<char>, Seq<char>>, t: Seq<char>) -> Result<
    Seq<char>,
    TemplateError,
>
    decreases t.len(),
{
    if t.len() == 0 {
        Ok(Seq::empty())
    } else if t.len() >= 2 && t[0] == '$' && t[1] == '{' {
        let rest = t.skip(2);
        match find_char(rest, '}') {
            None => Err(TemplateError::Unclosed(rest)),
            Some(k) => {
                proof {
                    lemma_find_char_range(rest, '}');
                }
                let key = rest.take(k);
                if m.dom().contains(key) {
                    prepend(m[key], resolve_template(m, rest.skip(k + 1)))
                } else {
                    Err(TemplateError::Missing(key))
                }
            },
        }
    } else {
        prepend(seq![t[0]], resolve_template(m, t.skip(1)))
    }
}

/// The resolution of every template in turn; the first failure stops it.
pub open spec fn resolve_templates(m: Map<Seq<char>, Seq<char>>, ts: Seq<Seq<char>>) -> Result<
    Seq<Seq<char>>,
    TemplateError,
>
    decreases ts.len(),
{
    if ts.len() == 0 {
        Ok(Seq::empty())
    } else {
        match resolve_template(m, ts[0]) {
            Err(e) => Err(e),
            Ok(first) => match resolve_templates(m, ts.skip(1)) {
                Err(e) => Err(e),
                Ok(rest) => Ok(seq![first] + rest),
            },
        }
    }
}

/// What `resolve` returns for a template.
pub open spec fn resolve_result(m: Map<Seq<char>, Seq<char>>, t: Seq<char>) -> Result<
    Seq<char>,
    Seq<char>,
> {
    match resolve_template(m, t) {
        Ok(s) => Ok(s),
        Err(e) => Err(template_error_text(e)),
    }
}

/// In-memory store of secrets, keyed by name.
#[derive(Debug)]
pub struct SecretStore {
    secrets: Vec<(String, String)>,
}

impl SecretStore {
    /// Keys are unique in the store.
    pub closed spec fn wf(self) -> bool {
        forall|i: int, j: int|
            0 <= i < j < self.secrets@.len() ==> self.secrets@[i].0@ != self.secrets@[j].0@
    }

    /// The secrets as a map from name to value.
    pub closed spec fn view(self) -> Map<Seq<char>, Seq<char>> {
        Map::new(
            |k: Seq<char>| exists|i: int| 0 <= i < self.secrets@.len() && self.secrets@[i].0@ == k,
            |k: Seq<char>|
                self.secrets@[choose|i: int|
                    0 <= i < self.secrets@.len() && self.secrets@[i].0@ == k].1@,
        )
    }

    proof fn lemma_view_at(self, i: int)
        requires
            self.wf(),
            0 <= i < self.secrets@.len(),
        ensures
            self.view().dom().contains(self.secrets@[i].0@),
            self.view()[self.secrets@[i].0@] == self.secrets@[i].1@,
    {
        let k = self.secrets@[i].0@;
        assert(self.view().dom().contains(k));
        let j = choose|j: int| 0 <= j < self.secrets@.len() && self.secrets@[j].0@ == k;
        assert(i == j);
    }

    /// An empty store.
    pub fn new() -> (s: Self)
        ensures
            s.wf(),
            s.view() == Map::<Seq<char>, Seq<char>>::empty(),
    {
        let s = SecretStore { secrets: Vec::new() };
        assert(s.view() =~= Map::<Seq<char>, Seq<char>>::empty());
        s
    }

    fn find(&self, key: &str) -> (r: Option<usize>)
        requires
            self.wf(),
        ensures
            match r {
                Some(i) => i < self.secrets@.len() && self.secrets@[i as int].0@ == key@,
                None => !self.view().dom().contains(key@),
            },
    {
        let mut i: usize = 0;
        while i < self.secrets.len()
            invariant
                i <= self.secrets@.len(),
                forall|j: int| 0 <= j < i ==> self.secrets@[j].0@ != key@,
            decreases self.secrets.len() - i,
        {
            if str_eq(self.secrets[i].0.as_str(), key) {
                return Some(i);
            }
            i = i + 1;
        }
        None
    }

    /// Stores `value` under `key`, replacing any earlier value.
    pub fn insert(&mut self, key: String, value: String)
        requires
            old(self).wf(),
        ensures
            final(self).wf(),
            final(self).view() == old(self).view().insert(key@, value@),
    {
        match self.find(key.as_str()) {
            Some(i) => {
                let ghost before = self.secrets@;
                self.secrets.set(i, (key, value));
                proof {
                    assert forall|k: Seq<char>|
                        #[trigger] self.view().dom().contains(k) == old(self).view().insert(
                            key@,
                            value@,
                        ).dom().contains(k) by {
                        if k == key@ {
                            assert(self.secrets@[i as int].0@ == k);
                        } else if old(self).view().dom().contains(k) {
                            let j = choose|j: int|
                                0 <= j < before.len() && before[j].0@ == k;
                            assert(self.secrets@[j].0@ == k);
                        }
                    }
                    assert forall|k: Seq<char>| #[trigger]
                        self.view().dom().contains(k) implies self.view()[k] == old(
                            self,
                        ).view().insert(key@, value@)[k] by {
                        let j = choose|j: int|
                            0 <= j < self.secrets@.len() && self.secrets@[j].0@ == k;
                        self.lemma_view_at(j);
                        if j != i {
                            old(self).lemma_view_at(j);
                        }
                    }
                    assert(self.view() =~= old(self).view().insert(key@, value@));
                }
            },
            None => {
                self.secrets.push((key, value));
                proof {
                    let n = self.secrets@.len() - 1;
                    assert forall|k: Seq<char>|
                        #[trigger] self.view().dom().contains(k) == old(self).view().insert(
                            key@,
                            value@,
                        ).dom().contains(k) by {
                        if k == key@ {
                            assert(self.secrets@[n].0@ == k);
                        } else if old(self).view().dom().contains(k) {
                            let j = choose|j: int|
                                0 <= j < old(self).secrets@.len() && old(self).secrets@[j].0@ == k;
                            assert(self.secrets@[j].0@ == k);
                        }
                    }
                    assert forall|k: Seq<char>| #[trigger]
                        self.view().dom().contains(k) implies self.view()[k] == old(
                            self,
                        ).view().insert(key@, value@)[k] by {
                        let j = choose|j: int|
                            0 <= j < self.secrets@.len() && self.secrets@[j].0@ == k;
                        self.lemma_view_at(j);
                        if j != n {
                            old(self).lemma_view_at(j);
                        }
                    }
                    assert(self.view() =~= old(self).view().insert(key@, value@));
                }
            },
        }
    }

    /// The value stored under `key`, if any.
    pub fn get(&self, key: &str) -> (r: Option<&str>)
        requires
            self.wf(),
        ensures
            match r {
                Some(v) => self.view().dom().contains(key@) && v@ == self.view()[key@],
                None => !self.view().dom().contains(key@),
            },
    {
        match self.find(key) {
            Some(i) => {
                proof {
                    self.lemma_view_at(i as int);
                }
                Some(self.secrets[i].1.as_str())
            },
            None => None,
        }
    }

    /// Replaces every `${KEY}` in `template` with the secret `KEY`.
    ///
    /// Fails with `InvalidArguments` when a `${` is never closed, or when a
    /// referenced secret is not in the store; the text of the error names the key.
    pub fn resolve(&self, template: &str) -> (r: Result<String, AgentError>)
        requires
            self.wf(),
        ensures
            match resolve_result(self.view(), template@) {
                Ok(s) => r is Ok && r->Ok_0@ == s,
                Err(msg) => (r matches Err(AgentError::InvalidArguments(m)) && m@ == msg),
            },
    {
        let t = chars_of(template);
        let ghost m = self.view();
        let mut out = String::new();
        let mut i: usize = 0;
        proof {
            assert(t@.skip(0) =~= t@);
            match resolve_template(m, t@) {
                Ok(x) => {
                    assert(out@ + x =~= x);
                },
                Err(_) => {},
            }
        }
        while i < t.len()
            invariant
                self.wf(),
                m == self.view(),
                t@ == template@,
                i <= t.len(),
                resolve_template(m, t@) == prepend(out@, resolve_template(m, t@.skip(i as int))),
            decreases t.len() - i,
        {
            let ghost rest_i = t@.skip(i as int);
            if t[i] == '$' && i + 1 < t.len() && t[i + 1] == '{' {
                assert(rest_i[0] == '$' && rest_i[1] == '{');
                let ghost rest = rest_i.skip(2);
                assert(rest =~= t@.skip(i + 2));
                let mut key = String::new();
                let mut j: usize = i + 2;
                while j < t.len() && t[j] != '}'
                    invariant
                        i + 2 <= j <= t.len(),
                        rest == t@.skip(i + 2),
                        key@ == rest.take(j - (i + 2)),
                        forall|k: int| 0 <= k < j - (i + 2) ==> rest[k] != '}',
                    decreases t.len() - j,
                {
                    push_char(&mut key, t[j]);
                    j = j + 1;
                    assert(key@ =~= rest.take(j - (i + 2)));
                }
                proof {
                    lemma_find_char(rest, '}', j - (i + 2));
                }
                if j >= t.len() {
                    assert(key@ =~= rest);
                    let mut msg = String::from_str("unclosed secret template: ${");
                    msg.append(key.as_str());
                    return Err(AgentError::InvalidArguments(msg));
                }
                match self.get(key.as_str()) {
                    Some(value) => {
                        let ghost out_before = out@;
                        let ghost k = j - (i + 2);
                        assert(rest.take(k) =~= key@);
                        assert(rest.skip(k + 1) =~= t@.skip(j + 1));
                        assert(resolve_template(m, rest_i) == prepend(
                            m[key@],
                            resolve_template(m, t@.skip(j + 1)),
                        ));
                        out.append(value);
                        i = j + 1;
                        proof {
                            let tail = resolve_template(m, t@.skip(i as int));
                            match tail {
                                Ok(x) => {
                                    assert(out_before + (m[key@] + x) =~= out@ + x);
                                },
                                Err(_) => {},
                            }
                        }
                    },
                    None => {
                        let mut msg = String::from_str("secret `");
                        msg.append(key.as_str());
                        msg.append("` not found");
                        return Err(AgentError::InvalidArguments(msg));
                    },
                }
            } else {
                let ghost out_before = out@;
                push_char(&mut out, t[i]);
                i = i + 1;
                assert(rest_i.skip(1) =~= t@.skip(i as int));
                assert(resolve_template(m, rest_i) == prepend(
                    seq![rest_i[0]],
                    resolve_template(m, t@.skip(i as int)),
                ));
                proof {
                    let tail = resolve_template(m, t@.skip(i as int));
                    match tail {
                        Ok(x) => {
                            assert(out_before + (seq![rest_i[0]] + x) =~= out@ + x);
                        },
                        Err(_) => {},
                    }
                }
            }
        }
        assert(t@.skip(i as int) =~= Seq::<char>::empty());
        assert(out@ + Seq::<char>::empty() =~= out@);
        Ok(out)
    }
}


impl SecretStore {
    /// Resolves every template in order; the first failure is returned.
    pub fn resolve_all(&self, templates: &[String]) -> (r: Result<Vec<String>, AgentError>)
        requires
            self.wf(),
        ensures
            match resolve_templates(self.view(), templates@.map_values(|t: String| t@)) {
                Ok(v) => r is Ok && r->Ok_0@.map_values(|t: String| t@) == v,
                Err(e) => (r matches Err(AgentError::InvalidArguments(m)) && m@
                    == template_error_text(e)),
            },
    {
        let ghost m = self.view();
        let ghost ts = templates@.map_values(|t: String| t@);
        let mut out: Vec<String> = Vec::new();
        let mut i: usize = 0;
        proof {
            assert(ts.skip(0) =~= ts);
        }
        while i < templates.len()
            invariant
                self.wf(),
                m == self.view(),
                ts == templates@.map_values(|t: String| t@),
                i <= templates.len(),
                out@.len() == i,
                forall|k: int| 0 <= k < i ==> resolve_template(m, ts[k]) == Ok::<Seq<char>, TemplateError>(#[trigger] out@[k]@),
                resolve_templates(m, ts) == match resolve_templates(m, ts.skip(i as int)) {
                    Ok(rest) => Ok(out@.map_values(|t: String| t@) + rest),
                    Err(e) => Err(e),
                },
            decreases templates.len() - i,
        {
            let ghost rest_i = ts.skip(i as int);
            assert(rest_i[0] == templates@[i as int]@);
            assert(rest_i.skip(1) =~= ts.skip(i + 1));
            match self.resolve(templates[i].as_str()) {
                Ok(s) => {
                    let ghost before = out@;
                    out.push(s);
                    i = i + 1;
                    proof {
                        match resolve_templates(m, ts.skip(i as int)) {
                            Ok(rest) => {
                                assert(before.map_values(|t: String| t@) + (seq![out@[i - 1]@] + rest)
                                    =~= out@.map_values(|t: String| t@) + rest);
                            },
                            Err(_) => {},
                        }
                    }
                },
                Err(e) => {
                    return Err(e);
                },
            }
        }
        assert(ts.skip(i as int) =~= Seq::<Seq<char>>::empty());
        assert(out@.map_values(|t: String| t@) + Seq::<Seq<char>>::empty() =~= out@.map_values(
            |t: String| t@,
        ));
        Ok(out)
    }
}

/// Whether `t` holds no `${` opening a template.
pub open spec fn has_no_template(t: Seq<char>) -> bool {
    forall|i: int| 0 <= i < t.len() - 1 && #[trigger] t[i] == '$' ==> t[i + 1] != '{'
}

/// Text that holds no `${` comes back unchanged, whatever the store holds.
pub proof fn law_plain_text_resolves_to_itself(m: Map<Seq<char>, Seq<char>>, t: Seq<char>)
    requires
        has_no_template(t),
    ensures
        resolve_template(m, t) == Ok::<Seq<char>, TemplateError>(t),
    decreases t.len(),
{
    if t.len() > 0 {
        if t.len() >= 2 {
            assert(t[0] == '$' ==> t[1] != '{');
        }
        let r = t.skip(1);
        assert forall|i: int| 0 <= i < r.len() - 1 && #[trigger] r[i] == '$' implies r[i + 1] != '{' by {
            assert(r[i] == t[i + 1] && r[i + 1] == t[i + 2]);
        }
        law_plain_text_resolves_to_itself(m, r);
        assert(seq![t[0]] + r =~= t);
    } else {
        assert(t =~= Seq::<char>::empty());
    }
}

/// A template `${K}`, with `K` stored and free of `}`, resolves to the value of `K`.
pub proof fn law_single_template_resolves_to_value(m: Map<Seq<char>, Seq<char>>, k: Seq<char>)
    requires
        m.dom().contains(k),
        forall|i: int| 0 <= i < k.len() ==> k[i] != '}',
    ensures
        resolve_template(m, seq!['$', '{'] + k + seq!['}']) == Ok::<Seq<char>, TemplateError>(m[k]),
{
    let t = seq!['$', '{'] + k + seq!['}'];
    assert(t[0] == '$' && t[1] == '{' && t.len() >= 2);
    let rest = t.skip(2);
    assert(rest =~= k + seq!['}']);
    lemma_find_char(rest, '}', k.len() as int);
    assert(rest.take(k.len() as int) =~= k);
    assert(rest.skip(k.len() as int + 1) =~= Seq::<char>::empty());
    assert(resolve_template(m, Seq::<char>::empty()) == Ok::<Seq<char>, TemplateError>(Seq::empty()));
    assert(m[k] + Seq::<char>::empty() =~= m[k]);
}

/// A template whose key is missing from the store fails with `Missing(key)`;
/// a `${` without a closing `}` fails with `Unclosed`, whatever the store holds.
pub proof fn law_unclosed_template_fails(m: Map<Seq<char>, Seq<char>>, k: Seq<char>)
    requires
        forall|i: int| 0 <= i < k.len() ==> k[i] != '}',
    ensures
        resolve_template(m, seq!['$', '{'] + k) == Err::<Seq<char>, TemplateError>(
            TemplateError::Unclosed(k),
        ),
{
    let t = seq!['$', '{'] + k;
    assert(t[0] == '$' && t[1] == '{' && t.len() >= 2);
    assert(t.skip(2) =~= k);
    lemma_find_char(k, '}', k.len() as int);
}

/// After `insert(k, v)`, the store holds `v` under `k` and every other key is unchanged.
pub proof fn law_insert_then_get(m: Map<Seq<char>, Seq<char>>, k: Seq<char>, v: Seq<char>, other: Seq<char>)
    requires
        other != k,
    ensures
        m.insert(k, v).dom().contains(k),
        m.insert(k, v)[k] == v,
        m.insert(k, v).dom().contains(other) == m.dom().contains(other),
        m.dom().contains(other) ==> m.insert(k, v)[other] == m[other],
{
}

/// `resolve_all` is `resolve` applied to each template in turn: when every
/// template resolves, the results are those of `resolve`, in order; otherwise
/// the error is the one `resolve` gives for the first template that fails.
pub proof fn law_resolve_all_is_resolve_each(m: Map<Seq<char>, Seq<char>>, ts: Seq<Seq<char>>)
    ensures
        (forall|i: int| 0 <= i < ts.len() ==> #[trigger] resolve_result(m, ts[i]) is Ok) ==> {
            &&& resolve_templates(m, ts) is Ok
            &&& resolve_templates(m, ts)->Ok_0.len() == ts.len()
            &&& forall|i: int|
                0 <= i < ts.len() ==> resolve_result(m, ts[i]) == Ok::<Seq<char>, Seq<char>>(
                    #[trigger] resolve_templates(m, ts)->Ok_0[i],
                )
        },
        forall|j: int|
            0 <= j < ts.len() && #[trigger] resolve_result(m, ts[j]) is Err && (forall|i: int|
                0 <= i < j ==> resolve_result(m, ts[i]) is Ok) ==> resolve_templates(m, ts) is Err
                && resolve_result(m, ts[j]) == Err::<Seq<char>, Seq<char>>(
                template_error_text(resolve_templates(m, ts)->Err_0),
            ),
    decreases ts.len(),
{
    if ts.len() > 0 {
        let rest = ts.skip(1);
        law_resolve_all_is_resolve_each(m, rest);
        assert forall|i: int| 0 <= i < rest.len() implies rest[i] == ts[i + 1] by {}
        match resolve_template(m, ts[0]) {
            Err(e) => {
                assert forall|j: int|
                    0 <= j < ts.len() && #[trigger] resolve_result(m, ts[j]) is Err && (forall|i: int|
                        0 <= i < j ==> resolve_result(m, ts[i]) is Ok) implies j == 0 by {
                    if j > 0 {
                        assert(resolve_result(m, ts[0]) is Ok);
                    }
                }
            },
            Ok(first) => {
                if forall|i: int| 0 <= i < ts.len() ==> #[trigger] resolve_result(m, ts[i]) is Ok {
                    assert forall|i: int| 0 <= i < rest.len() implies #[trigger] resolve_result(m, rest[i]) is Ok by {
                        assert(resolve_result(m, ts[i + 1]) is Ok);
                    }
                    let v = resolve_templates(m, ts)->Ok_0;
                    assert forall|i: int| 0 <= i < ts.len() implies resolve_result(m, ts[i]) == Ok::<Seq<char>, Seq<char>>(
                        #[trigger] v[i],
                    ) by {
                        if i > 0 {
                            assert(rest[i - 1] == ts[i]);
                        }
                    }
                }
                assert forall|j: int|
                    0 <= j < ts.len() && #[trigger] resolve_result(m, ts[j]) is Err && (forall|i: int|
                        0 <= i < j ==> resolve_result(m, ts[i]) is Ok) implies resolve_templates(m, ts) is Err
                        && resolve_result(m, ts[j]) == Err::<Seq<char>, Seq<char>>(
                        template_error_text(resolve_templates(m, ts)->Err_0),
                    ) by {
                    assert(j > 0);
                    assert(rest[j - 1] == ts[j]);
                    assert forall|i: int| 0 <= i < j - 1 implies #[trigger] resolve_result(m, rest[i]) is Ok by {
                        assert(rest[i] == ts[i + 1]);
                        assert(resolve_result(m, ts[i + 1]) is Ok);
                    }
                    assert(resolve_result(m, rest[j - 1]) is Err);
                }
            },
        }
    }
}

} // verus!
