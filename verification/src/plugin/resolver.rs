//! Skill discovery: the frontmatter of `SKILL.md` files and the order in
//! which skills and plugins are listed.
//!
//! The application walks the directories and reads the files; this module
//! reads the frontmatter and orders what was found.

use vstd::prelude::*;

use crate::text::{
    chars_of, find_char, is_whitespace, lemma_find_char, lemma_find_char_range,
    lemma_lex_lt_transitive, lemma_trim_end_index, lemma_trim_start_index, lex_compare, lex_lt,
    str_eq, string_of_range, trim, trim_start, is_ws,
};

verus! {

/// A discovered skill from a plugin.
#[derive(Debug, Clone, PartialEq, Eq)]
pub struct DiscoveredSkill {
    /// Skill name (from the frontmatter).
    pub name: String,
    /// Skill description (from the frontmatter).
    pub description: String,
    /// Path to the `SKILL.md` file.
    pub path: String,
}

/// Plugin resolver: orders the skills and plugins that were found.
#[derive(Debug, Default)]
pub struct PluginResolver {}

/// The name given to a skill whose frontmatter names none.
pub open spec fn unnamed() -> Seq<char> {
    "unnamed-skill"@
}

/// What one frontmatter line does to the `(name, description)` read so far:
/// a trimmed line `key: value` with key `name` or `description` sets it.
pub open spec fn apply_line(acc: (Seq<char>, Seq<char>), line: Seq<char>) -> (Seq<char>, Seq<char>) {
    let t = trim(line);
    match find_char(t, ':') {
        None => acc,
        Some(k) => {
            let key = trim(t.take(k));
            let value = trim(t.skip(k + 1));
            if key == "name"@ {
                (value, acc.1)
            } else if key == "description"@ {
                (acc.0, value)
            } else {
                acc
            }
        },
    }
}

/// The `(name, description)` after reading the lines of `f` from left to right.
pub open spec fn scan_lines(f: Seq<char>, acc: (Seq<char>, Seq<char>)) -> (Seq<char>, Seq<char>)
    decreases f.len(),
{
    match find_char(f, '\n') {
        None => apply_line(acc, f),
        Some(k) => {
            proof {
                lemma_find_char_range(f, '\n');
            }
            scan_lines(f.skip(k + 1), apply_line(acc, f.take(k)))
        },
    }
}

/// Whether `---` starts at `i`.
pub open spec fn dashes_at(s: Seq<char>, i: int) -> bool {
    0 <= i && i + 3 <= s.len() && s[i] == '-' && s[i + 1] == '-' && s[i + 2] == '-'
}

/// The first `i' >= i` at which `---` starts.
pub open spec fn dashes_from(s: Seq<char>, i: int) -> Option<int>
    decreases s.len() - i,
{
    if i < 0 || i + 3 > s.len() {
        None
    } else if dashes_at(s, i) {
        Some(i)
    } else {
        dashes_from(s, i + 1)
    }
}

/// The `(name, description)` of a `SKILL.md`: after leading white space it must
/// open with `---`, and the frontmatter runs to the next `---`; without both,
/// or without a name, the name is `unnamed-skill` (and the description empty
/// when there is no frontmatter).
pub open spec fn skill_frontmatter(content: Seq<char>) -> (Seq<char>, Seq<char>) {
    let t = trim_start(content);
    if t.len() < 3 || !dashes_at(t, 0) {
        (unnamed(), Seq::empty())
    } else {
        let after = t.skip(3);
        match dashes_from(after, 0) {
            None => (unnamed(), Seq::empty()),
            Some(i) => {
                let r = scan_lines(after.take(i), (Seq::empty(), Seq::empty()));
                (if r.0.len() == 0 {
                    unnamed()
                } else {
                    r.0
                }, r.1)
            },
        }
    }
}

/// The first index in `lo..hi` that holds `c`, or `hi`.
fn find_in(v: &Vec<char>, lo: usize, hi: usize, c: char) -> (r: usize)
    requires
        lo <= hi <= v@.len(),
    ensures
        lo <= r <= hi,
        r < hi ==> find_char(v@.subrange(lo as int, hi as int), c) == Some(r - lo),
        r == hi ==> find_char(v@.subrange(lo as int, hi as int), c) is None,
{
    let ghost s = v@.subrange(lo as int, hi as int);
    let mut i: usize = lo;
    while i < hi
        invariant
            s == v@.subrange(lo as int, hi as int),
            lo <= i <= hi <= v@.len(),
            forall|k: int| 0 <= k < i - lo ==> s[k] != c,
        decreases hi - i,
    {
        if v[i] == c {
            proof {
                lemma_find_char(s, c, i - lo);
            }
            return i;
        }
        i = i + 1;
    }
    proof {
        lemma_find_char(s, c, i - lo);
    }
    i
}

/// The bounds of `trim(v[lo..hi])` within `v`.
fn trim_bounds(v: &Vec<char>, lo: usize, hi: usize) -> (r: (usize, usize))
    requires
        lo <= hi <= v@.len(),
    ensures
        lo <= r.0 <= r.1 <= hi,
        v@.subrange(r.0 as int, r.1 as int) == trim(v@.subrange(lo as int, hi as int)),
{
    let ghost s = v@.subrange(lo as int, hi as int);
    let mut a: usize = lo;
    while a < hi && is_whitespace(v[a])
        invariant
            lo <= a <= hi <= v@.len(),
            forall|i: int| lo <= i < a ==> is_ws(#[trigger] v@[i]),
        decreases hi - a,
    {
        a = a + 1;
    }
    proof {
        assert forall|i: int| 0 <= i < a - lo implies is_ws(#[trigger] s[i]) by {
            assert(s[i] == v@[i + lo]);
        }
        if a < hi {
            assert(s[a - lo] == v@[a as int]);
        }
        lemma_trim_start_index(s, a - lo);
    }
    let mut b: usize = hi;
    while b > a && is_whitespace(v[b - 1])
        invariant
            lo <= a <= b <= hi <= v@.len(),
            forall|i: int| b <= i < hi ==> is_ws(#[trigger] v@[i]),
        decreases b - a,
    {
        b = b - 1;
    }
    proof {
        let t = s.skip(a - lo);
        assert forall|i: int| b - a <= i < t.len() implies is_ws(#[trigger] t[i]) by {
            assert(t[i] == v@[i + a]);
        }
        if b > a {
            assert(t[b - a - 1] == v@[b - 1]);
        }
        lemma_trim_end_index(t, b - a);
        assert(t.take(b - a) =~= v@.subrange(a as int, b as int));
    }
    (a, b)
}

/// Whether `v[lo..hi]` spells `lit`.
fn range_is(v: &Vec<char>, lo: usize, hi: usize, lit: &str) -> (r: bool)
    requires
        lo <= hi <= v@.len(),
    ensures
        r == (v@.subrange(lo as int, hi as int) == lit@),
{
    let s = string_of_range(v.as_slice(), lo, hi);
    str_eq(s.as_str(), lit)
}

/// Applies the line `v[lo..hi]` to `(name, description)`.
fn read_line(v: &Vec<char>, lo: usize, hi: usize, name: &mut String, description: &mut String)
    requires
        lo <= hi <= v@.len(),
    ensures
        (final(name)@, final(description)@) == apply_line(
            (old(name)@, old(description)@),
            v@.subrange(lo as int, hi as int),
        ),
{
    let (a, b) = trim_bounds(v, lo, hi);
    let ghost t = v@.subrange(a as int, b as int);
    let c = find_in(v, a, b, ':');
    if c == b {
        return;
    }
    let (ka, kb) = trim_bounds(v, a, c);
    let (va, vb) = trim_bounds(v, c + 1, b);
    proof {
        assert(t.take(c - a) =~= v@.subrange(a as int, c as int));
        assert(t.skip(c - a + 1) =~= v@.subrange(c + 1, b as int));
    }
    if range_is(v, ka, kb, "name") {
        *name = string_of_range(v.as_slice(), va, vb);
    } else if range_is(v, ka, kb, "description") {
        *description = string_of_range(v.as_slice(), va, vb);
    }
}

/// Reads the `name` and `description` of a `SKILL.md` from its frontmatter.
pub fn parse_skill_frontmatter(content: &str) -> (r: (String, String))
    ensures
        (r.0@, r.1@) == skill_frontmatter(content@),
{
    let v = chars_of(content);
    let n = v.len();
    let mut a: usize = 0;
    while a < n && is_whitespace(v[a])
        invariant
            v@ == content@,
            n == v@.len(),
            a <= n,
            forall|i: int| 0 <= i < a ==> is_ws(#[trigger] v@[i]),
        decreases n - a,
    {
        a = a + 1;
    }
    proof {
        lemma_trim_start_index(content@, a as int);
    }
    let ghost t = content@.skip(a as int);
    if n - a < 3 || !(v[a] == '-' && v[a + 1] == '-' && v[a + 2] == '-') {
        return (String::from_str("unnamed-skill"), String::new());
    }
    let start = a + 3;
    let ghost after = t.skip(3);
    assert(after =~= v@.subrange(start as int, n as int));
    let mut i: usize = start;
    while n - i >= 3 && !(v[i] == '-' && v[i + 1] == '-' && v[i + 2] == '-')
        invariant
            v@ == content@,
            n == v@.len(),
            start <= i <= n,
            after == v@.subrange(start as int, n as int),
            dashes_from(after, 0) == dashes_from(after, i - start),
        decreases n - i,
    {
        i = i + 1;
    }
    if n - i < 3 {
        return (String::from_str("unnamed-skill"), String::new());
    }
    assert(dashes_from(after, 0) == Some(i - start));
    let ghost f = after.take(i - start);
    assert(f =~= v@.subrange(start as int, i as int));
    let mut name = String::new();
    let mut description = String::new();
    let mut p: usize = start;
    assert(f.skip(0) =~= f);
    loop
        invariant
            v@ == content@,
            n == v@.len(),
            start <= p <= i <= n,
            f == v@.subrange(start as int, i as int),
            scan_lines(f, (Seq::empty(), Seq::empty())) == scan_lines(
                v@.subrange(p as int, i as int),
                (name@, description@),
            ),
        ensures
            scan_lines(f, (Seq::empty(), Seq::empty())) == (name@, description@),
        decreases i - p,
    {
        let ghost rest = v@.subrange(p as int, i as int);
        let k = find_in(&v, p, i, '\n');
        if k == i {
            read_line(&v, p, i, &mut name, &mut description);
            break;
        }
        proof {
            assert(rest.take(k - p) =~= v@.subrange(p as int, k as int));
            assert(rest.skip(k - p + 1) =~= v@.subrange(k + 1, i as int));
        }
        read_line(&v, p, k, &mut name, &mut description);
        p = k + 1;
    }
    if name.unicode_len() == 0 {
        name = String::from_str("unnamed-skill");
    }
    (name, description)
}

/// Whether the keys of `s` are in order (each key no greater than the next).
pub open spec fn sorted_by_key<T>(s: Seq<(String, T)>) -> bool {
    forall|i: int, j: int| 0 <= i < j < s.len() ==> !lex_lt(#[trigger] s[j].0@, #[trigger] s[i].0@)
}

/// Lists with the same items, mapped alike, have the same mapped items.
pub proof fn lemma_map_values_multiset<A, B>(a: Seq<A>, b: Seq<A>, f: spec_fn(A) -> B)
    requires
        a.to_multiset() == b.to_multiset(),
    ensures
        a.map_values(f).to_multiset() == b.map_values(f).to_multiset(),
    decreases a.len(),
{
    vstd::seq_lib::to_multiset_len(a);
    vstd::seq_lib::to_multiset_len(b);
    if a.len() == 0 {
        assert(a.map_values(f) =~= b.map_values(f));
    } else {
        let x = a.last();
        let a2 = a.drop_last();
        assert(a =~= a2.push(x));
        vstd::seq_lib::to_multiset_build(a2, x);
        vstd::seq_lib::to_multiset_contains(a, x);
        vstd::seq_lib::to_multiset_contains(b, x);
        let k = choose|k: int| 0 <= k < b.len() && b[k] == x;
        let b2 = b.remove(k);
        vstd::seq_lib::to_multiset_remove(b, k);
        assert(a2.to_multiset() =~= b2.to_multiset());
        lemma_map_values_multiset(a2, b2, f);
        assert(a.map_values(f) =~= a2.map_values(f).push(f(x)));
        vstd::seq_lib::to_multiset_build(a2.map_values(f), f(x));
        assert(b.map_values(f) =~= b2.map_values(f).insert(k, f(x)));
        vstd::seq_lib::to_multiset_insert(b2.map_values(f), k, f(x));
    }
}

/// The keys of the items, in order.
pub open spec fn key_views<T>(s: Seq<(String, T)>) -> Seq<Seq<char>> {
    s.map_values(|p: (String, T)| p.0@)
}

/// Sorts by key, stably: items with equal keys keep their order.
pub(crate) fn sort_by_key<T>(items: Vec<(String, T)>) -> (r: Vec<(String, T)>)
    ensures
        sorted_by_key(r@),
        r@.to_multiset() == items@.to_multiset(),
        key_views(r@).to_multiset() == key_views(items@).to_multiset(),
{
    let mut rest = items;
    let ghost all = rest@;
    let mut out: Vec<(String, T)> = Vec::new();
    let mut k: usize = 0;
    let n = rest.len();
    let mut queue: Vec<(String, T)> = Vec::new();
    // Move the items into `queue` in reverse, so that popping yields them in order.
    while rest.len() > 0
        invariant
            all == items@,
            rest@ + queue@.reverse() == all,
        decreases rest@.len(),
    {
        let ghost before_rest = rest@;
        let ghost before_queue = queue@;
        let x = rest.pop().unwrap();
        queue.push(x);
        proof {
            assert(queue@.reverse() =~= seq![x] + before_queue.reverse());
            assert(before_rest =~= rest@.push(x));
            assert(rest@ + queue@.reverse() =~= before_rest + before_queue.reverse());
        }
    }
    assert(rest@ =~= Seq::<(String, T)>::empty());
    assert(queue@.reverse() =~= all);
    assert(out@ =~= all.take(0));
    while queue.len() > 0
        invariant
            all == items@,
            queue@.len() + out@.len() == all.len(),
            queue@.reverse() == all.skip(out@.len() as int),
            sorted_by_key(out@),
            out@.to_multiset() == all.take(out@.len() as int).to_multiset(),
            key_views(out@).to_multiset() == key_views(all.take(out@.len() as int)).to_multiset(),
        decreases queue@.len(),
    {
        let ghost q = queue@;
        let ghost m: int = out@.len() as int;
        let x = queue.pop().unwrap();
        proof {
            assert(q.reverse()[0] == x);
            assert(all[m] == x);
            assert(queue@.reverse() =~= q.reverse().drop_first());
            assert(all.skip(m + 1) =~= all.skip(m).drop_first());
            assert(all.take(m + 1) =~= all.take(m).push(x));
            vstd::seq_lib::to_multiset_build(all.take(m), x);
            assert(key_views(all.take(m + 1)) =~= key_views(all.take(m)).push(x.0@));
            vstd::seq_lib::to_multiset_build(key_views(all.take(m)), x.0@);
        }
        let mut p: usize = 0;
        while p < out.len() && lex_compare(out[p].0.as_str(), x.0.as_str()) != 1
            invariant
                p <= out@.len(),
                forall|q: int| 0 <= q < p ==> !lex_lt(x.0@, #[trigger] out@[q].0@),
            decreases out@.len() - p,
        {
            p = p + 1;
        }
        let ghost o = out@;
        proof {
            vstd::seq_lib::to_multiset_insert(o, p as int, x);
            vstd::seq_lib::to_multiset_insert(key_views(o), p as int, x.0@);
        }
        out.insert(p, x);
        proof {
            assert(out@ == o.insert(p as int, x));
            assert(key_views(out@) =~= key_views(o).insert(p as int, x.0@));
            assert forall|a: int, b: int| 0 <= a < b < out@.len() implies !lex_lt(
                #[trigger] out@[b].0@,
                #[trigger] out@[a].0@,
            ) by {
                if b < p {
                    assert(out@[a] == o[a] && out@[b] == o[b]);
                } else if b == p {
                    assert(out@[a] == o[a]);
                } else if a == p {
                    assert(out@[b] == o[b - 1]);
                    if p < o.len() {
                        assert(lex_lt(x.0@, o[p as int].0@));
                        if lex_lt(o[b - 1].0@, x.0@) {
                            lemma_lex_lt_transitive(o[b - 1].0@, x.0@, o[p as int].0@);
                            if b - 1 > p {
                                assert(!lex_lt(o[b - 1].0@, o[p as int].0@));
                            }
                        }
                    }
                } else if a < p {
                    assert(out@[a] == o[a] && out@[b] == o[b - 1]);
                } else {
                    assert(out@[a] == o[a - 1] && out@[b] == o[b - 1]);
                }
            }
        }
    }
    assert(all.take(all.len() as int) =~= all);
    out
}

impl PluginResolver {
    /// A new resolver.
    pub fn new() -> (r: Self) {
        PluginResolver {  }
    }

    /// The skills of the `SKILL.md` files found, given as `(path, content)`,
    /// sorted by name.
    pub fn collect_skills(&self, found: Vec<(String, String)>) -> (r: Vec<DiscoveredSkill>)
        ensures
            r@.len() == found@.len(),
            forall|i: int, j: int| 0 <= i < j < r@.len() ==> !lex_lt(#[trigger] r@[j].name@, #[trigger] r@[i].name@),
            forall|i: int| 0 <= i < r@.len() ==> read_from_one_of(#[trigger] r@[i], found@),
            forall|j: int| 0 <= j < found@.len() ==> listed(r@, #[trigger] found@[j]),
            r@.map_values(|s: DiscoveredSkill| skill_view(s)).to_multiset() == found@.map_values(
                |f: (String, String)| file_skill(f),
            ).to_multiset(),
    {
        let mut keyed: Vec<(String, (String, String))> = Vec::new();
        let mut i: usize = 0;
        while i < found.len()
            invariant
                i <= found@.len(),
                keyed@.len() == i,
                forall|k: int| 0 <= k < i ==> skill_of(#[trigger] keyed@[k], found@[k]),
            decreases found@.len() - i,
        {
            let (name, description) = parse_skill_frontmatter(found[i].1.as_str());
            keyed.push((name, (description, found[i].0.clone())));
            i = i + 1;
        }
        let ghost before = keyed@;
        let mut sorted = sort_by_key(keyed);
        let ghost ss = sorted@;
        proof {
            assert forall|k: int| 0 <= k < ss.len() implies exists|j: int| 0 <= j < before.len() && before[j] == #[trigger] ss[k] by {
                vstd::seq_lib::to_multiset_contains(ss, ss[k]);
                vstd::seq_lib::to_multiset_contains(before, ss[k]);
            }
            vstd::seq_lib::to_multiset_len(ss);
            vstd::seq_lib::to_multiset_len(before);
        }
        let mut r: Vec<DiscoveredSkill> = Vec::new();
        while sorted.len() > 0
            invariant
                r@.len() + sorted@.len() == ss.len(),
                sorted@ == ss.skip(r@.len() as int),
                forall|k: int| 0 <= k < r@.len() ==> skill_is(#[trigger] r@[k], ss[k]),
            decreases sorted@.len(),
        {
            let ghost m: int = r@.len() as int;
            let ghost before_sorted = sorted@;
            let (name, (description, path)) = sorted.remove(0);
            proof {
                assert(sorted@ =~= ss.skip(m + 1));
            }
            r.push(DiscoveredSkill { name, description, path });
        }
        proof {
            assert forall|a: int, b: int| 0 <= a < b < r@.len() implies !lex_lt(#[trigger] r@[b].name@, #[trigger] r@[a].name@) by {
                assert(skill_is(r@[a], ss[a]) && skill_is(r@[b], ss[b]));
            }
            assert forall|j: int| 0 <= j < found@.len() implies listed(r@, #[trigger] found@[j]) by {
                vstd::seq_lib::to_multiset_contains(ss, before[j]);
                vstd::seq_lib::to_multiset_contains(before, before[j]);
                assert(before.contains(before[j]));
                let k = choose|k: int| 0 <= k < ss.len() && ss[k] == before[j];
                assert(skill_is(r@[k], ss[k]));
                assert(skill_of(before[j], found@[j]));
                assert(skill_read(r@[k], found@[j]));
            }
            assert forall|k: int| 0 <= k < r@.len() implies read_from_one_of(#[trigger] r@[k], found@) by {
                let j = choose|j: int| 0 <= j < before.len() && before[j] == ss[k];
                assert(skill_of(before[j], found@[j]));
                assert(skill_is(r@[k], ss[k]));
                assert(skill_read(r@[k], found@[j]));
            }
            let kv = |item: (String, (String, String))| (item.0@, item.1.0@, item.1.1@);
            lemma_map_values_multiset(ss, before, kv);
            assert(r@.map_values(|s: DiscoveredSkill| skill_view(s)) =~= ss.map_values(kv)) by {
                assert forall|k: int| 0 <= k < r@.len() implies skill_view(#[trigger] r@[k]) == kv(ss[k]) by {
                    assert(skill_is(r@[k], ss[k]));
                }
            }
            assert(before.map_values(kv) =~= found@.map_values(|f: (String, String)| file_skill(f))) by {
                assert forall|j: int| 0 <= j < before.len() implies kv(#[trigger] before[j]) == file_skill(found@[j]) by {
                    assert(skill_of(before[j], found@[j]));
                }
            }
        }
        r
    }

    /// The plugin directories found (those holding a `plugin.json`), in order.
    pub fn order_plugins(&self, dirs: Vec<String>) -> (r: Vec<String>)
        ensures
            r@.len() == dirs@.len(),
            forall|i: int, j: int| 0 <= i < j < r@.len() ==> !lex_lt(#[trigger] r@[j]@, #[trigger] r@[i]@),
            forall|i: int| 0 <= i < r@.len() ==> one_of((#[trigger] r@[i])@, dirs@),
            forall|j: int| 0 <= j < dirs@.len() ==> one_of((#[trigger] dirs@[j])@, r@),
            r@.map_values(|d: String| d@).to_multiset() == dirs@.map_values(|d: String| d@).to_multiset(),
    {
        let mut keyed: Vec<(String, ())> = Vec::new();
        let mut i: usize = 0;
        while i < dirs.len()
            invariant
                i <= dirs@.len(),
                keyed@.len() == i,
                forall|k: int| 0 <= k < i ==> (#[trigger] keyed@[k]).0@ == dirs@[k]@,
            decreases dirs@.len() - i,
        {
            keyed.push((dirs[i].clone(), ()));
            i = i + 1;
        }
        let ghost before = keyed@;
        let mut sorted = sort_by_key(keyed);
        let ghost ss = sorted@;
        proof {
            vstd::seq_lib::to_multiset_len(ss);
            vstd::seq_lib::to_multiset_len(before);
        }
        let mut r: Vec<String> = Vec::new();
        while sorted.len() > 0
            invariant
                r@.len() + sorted@.len() == ss.len(),
                sorted@ == ss.skip(r@.len() as int),
                forall|k: int| 0 <= k < r@.len() ==> (#[trigger] r@[k])@ == ss[k].0@,
            decreases sorted@.len(),
        {
            let ghost m: int = r@.len() as int;
            let (d, _) = sorted.remove(0);
            proof {
                assert(sorted@ =~= ss.skip(m + 1));
            }
            r.push(d);
        }
        proof {
            assert forall|a: int, b: int| 0 <= a < b < r@.len() implies !lex_lt(#[trigger] r@[b]@, #[trigger] r@[a]@) by {
                assert(r@[a]@ == ss[a].0@ && r@[b]@ == ss[b].0@);
            }
            assert forall|k: int| 0 <= k < r@.len() implies one_of((#[trigger] r@[k])@, dirs@) by {
                vstd::seq_lib::to_multiset_contains(ss, ss[k]);
                vstd::seq_lib::to_multiset_contains(before, ss[k]);
                assert(before.contains(ss[k]));
                let j = choose|j: int| 0 <= j < before.len() && before[j] == ss[k];
                assert(r@[k]@ == dirs@[j]@);
            }
            assert forall|j: int| 0 <= j < dirs@.len() implies one_of((#[trigger] dirs@[j])@, r@) by {
                vstd::seq_lib::to_multiset_contains(ss, before[j]);
                vstd::seq_lib::to_multiset_contains(before, before[j]);
                assert(before.contains(before[j]));
                let k = choose|k: int| 0 <= k < ss.len() && ss[k] == before[j];
                assert(r@[k]@ == dirs@[j]@);
            }
            assert(r@.map_values(|d: String| d@) =~= key_views(ss)) by {
                assert forall|k: int| 0 <= k < r@.len() implies (#[trigger] r@[k])@ == key_views(ss)[k] by {}
            }
            assert(key_views(before) =~= dirs@.map_values(|d: String| d@)) by {
                assert forall|j: int| 0 <= j < before.len() implies #[trigger] key_views(before)[j] == dirs@[j]@ by {}
            }
        }
        r
    }
}

/// What a skill says: its name, description and path.
pub open spec fn skill_view(s: DiscoveredSkill) -> (Seq<char>, Seq<char>, Seq<char>) {
    (s.name@, s.description@, s.path@)
}

/// The skill the file `(path, content)` gives: the name and description of
/// its frontmatter, and its path.
pub open spec fn file_skill(f: (String, String)) -> (Seq<char>, Seq<char>, Seq<char>) {
    (skill_frontmatter(f.1@).0, skill_frontmatter(f.1@).1, f.0@)
}

/// The keyed record `(name, (description, path))` read from `(path, content)`.
pub open spec fn skill_of(item: (String, (String, String)), file: (String, String)) -> bool {
    &&& item.1.1@ == file.0@
    &&& (item.0@, item.1.0@) == skill_frontmatter(file.1@)
}

/// A skill read from the file `(path, content)`.
pub open spec fn skill_read(s: DiscoveredSkill, file: (String, String)) -> bool {
    s.path@ == file.0@ && (s.name@, s.description@) == skill_frontmatter(file.1@)
}

/// A skill read from one of the files.
pub open spec fn read_from_one_of(s: DiscoveredSkill, files: Seq<(String, String)>) -> bool {
    exists|j: int| 0 <= j < files.len() && skill_read(s, #[trigger] files[j])
}

/// The skill of a file is among the skills.
pub open spec fn listed(skills: Seq<DiscoveredSkill>, file: (String, String)) -> bool {
    exists|k: int| 0 <= k < skills.len() && skill_read(#[trigger] skills[k], file)
}

/// Whether one of the strings spells `x`.
pub open spec fn one_of(x: Seq<char>, v: Seq<String>) -> bool {
    exists|j: int| 0 <= j < v.len() && (#[trigger] v[j])@ == x
}

/// A skill built from a keyed record.
pub open spec fn skill_is(s: DiscoveredSkill, item: (String, (String, String))) -> bool {
    s.name@ == item.0@ && s.description@ == item.1.0@ && s.path@ == item.1.1@
}

/// Every skill gets a non-empty name: its own, or `unnamed-skill`.
pub proof fn law_skill_always_named(content: Seq<char>)
    ensures
        skill_frontmatter(content).0.len() > 0,
{
    reveal_strlit("unnamed-skill");
}

/// Text that does not open with `---` (after white space) has no frontmatter.
pub proof fn law_no_frontmatter_is_unnamed(content: Seq<char>)
    requires
        !dashes_at(trim_start(content), 0),
    ensures
        skill_frontmatter(content) == (unnamed(), Seq::<char>::empty()),
{
}

} // verus!
