//! Unix paths as text: components, prefix tests, joining and normalizing.
//!
//! A path is a string. Its components follow `std::path::Path::components` on
//! Unix: a leading `/` is the root; empty pieces and `.` pieces are dropped,
//! except a `.` that starts a relative path; `..` is the parent.

use vstd::prelude::*;

use crate::text::{chars_of, lemma_split_on_len, push_char, split_on, str_eq, string_of_range};

verus! {

/// One path component.
#[derive(Debug, Clone, PartialEq, Eq)]
pub enum Component {
    /// The root `/`.
    RootDir,
    /// A leading `.`.
    CurDir,
    /// `..`.
    ParentDir,
    /// Any other name.
    Normal(String),
}

/// The mathematical value of a component.
pub enum Comp {
    Root,
    Cur,
    Parent,
    Normal(Seq<char>),
}

impl Component {
    /// The mathematical value of the component.
    pub open spec fn view(self) -> Comp {
        match self {
            Component::RootDir => Comp::Root,
            Component::CurDir => Comp::Cur,
            Component::ParentDir => Comp::Parent,
            Component::Normal(s) => Comp::Normal(s@),
        }
    }
}

/// The components that one piece between separators contributes.
pub open spec fn seg_comps(s: Seq<char>) -> Seq<Comp> {
    if s.len() == 0 || s == seq!['.'] {
        Seq::empty()
    } else if s == seq!['.', '.'] {
        seq![Comp::Parent]
    } else {
        seq![Comp::Normal(s)]
    }
}

/// The components of the pieces, in order.
pub open spec fn norm_segs(segs: Seq<Seq<char>>) -> Seq<Comp>
    decreases segs.len(),
{
    if segs.len() == 0 {
        Seq::empty()
    } else {
        norm_segs(segs.drop_last()) + seg_comps(segs.last())
    }
}

/// The components that the first piece contributes; `more` tells whether
/// other pieces follow it (so an empty first piece means a leading `/`).
pub open spec fn head_comps(first: Seq<char>, more: bool) -> Seq<Comp> {
    if first.len() == 0 && more {
        seq![Comp::Root]
    } else if first == seq!['.'] {
        seq![Comp::Cur]
    } else {
        seg_comps(first)
    }
}

/// The components of a path.
pub open spec fn components(p: Seq<char>) -> Seq<Comp> {
    let segs = split_on(p, '/');
    head_comps(segs[0], segs.len() > 1) + norm_segs(segs.drop_first())
}

/// Whether a path starts with `/`.
pub open spec fn is_absolute(p: Seq<char>) -> bool {
    p.len() > 0 && p[0] == '/'
}

/// Whether `base`'s components are a prefix of `p`'s (`Path::starts_with`).
pub open spec fn starts_with(p: Seq<char>, base: Seq<char>) -> bool {
    let a = components(p);
    let b = components(base);
    b.len() <= a.len() && a.take(b.len() as int) == b
}

/// `a` joined with `b` (`Path::join`): an absolute `b` replaces `a`;
/// otherwise a `/` is put between them unless `a` is empty or ends with one.
pub open spec fn join(a: Seq<char>, b: Seq<char>) -> Seq<char> {
    if is_absolute(b) {
        b
    } else if a.len() == 0 || a.last() == '/' {
        a + b
    } else {
        a + seq!['/'] + b
    }
}

/// The text of a component.
pub open spec fn comp_text(c: Comp) -> Seq<char> {
    match c {
        Comp::Root => seq!['/'],
        Comp::Cur => seq!['.'],
        Comp::Parent => seq!['.', '.'],
        Comp::Normal(s) => s,
    }
}

/// The path built by pushing each component in turn (`collect::<PathBuf>()`).
pub open spec fn from_comps(cs: Seq<Comp>) -> Seq<char>
    decreases cs.len(),
{
    if cs.len() == 0 {
        Seq::empty()
    } else {
        join(from_comps(cs.drop_last()), comp_text(cs.last()))
    }
}

proof fn lemma_norm_segs_push(segs: Seq<Seq<char>>, s: Seq<char>)
    ensures
        norm_segs(segs.push(s)) == norm_segs(segs) + seg_comps(s),
{
    assert(segs.push(s).drop_last() =~= segs);
}

fn eq_lit(v: &Vec<char>, lit: &str) -> (r: bool)
    ensures
        r == (v@ == lit@),
{
    let s = string_of_range(v.as_slice(), 0, v.len());
    assert(v@.subrange(0, v@.len() as int) =~= v@);
    str_eq(s.as_str(), lit)
}

fn seg_components(seg: &Vec<char>, out: &mut Vec<Component>)
    ensures
        final(out)@.map_values(|c: Component| c.view()) == old(out)@.map_values(
            |c: Component| c.view(),
        ) + seg_comps(seg@),
{
    proof {
        reveal_strlit(".");
        reveal_strlit("..");
        assert("."@ =~= seq!['.']);
        assert(".."@ =~= seq!['.', '.']);
    }
    if seg.len() == 0 || eq_lit(seg, ".") {
    } else if eq_lit(seg, "..") {
        out.push(Component::ParentDir);
    } else {
        let s = string_of_range(seg.as_slice(), 0, seg.len());
        assert(seg@.subrange(0, seg@.len() as int) =~= seg@);
        out.push(Component::Normal(s));
    }
    assert(out@.map_values(|c: Component| c.view()) =~= old(out)@.map_values(
        |c: Component| c.view(),
    ) + seg_comps(seg@));
}

fn head_components(seg: &Vec<char>, more: bool, out: &mut Vec<Component>)
    ensures
        final(out)@.map_values(|c: Component| c.view()) == old(out)@.map_values(
            |c: Component| c.view(),
        ) + head_comps(seg@, more),
{
    proof {
        reveal_strlit(".");
        assert("."@ =~= seq!['.']);
    }
    if seg.len() == 0 && more {
        out.push(Component::RootDir);
        assert(out@.map_values(|c: Component| c.view()) =~= old(out)@.map_values(
            |c: Component| c.view(),
        ) + head_comps(seg@, more));
    } else if eq_lit(seg, ".") {
        out.push(Component::CurDir);
        assert(out@.map_values(|c: Component| c.view()) =~= old(out)@.map_values(
            |c: Component| c.view(),
        ) + head_comps(seg@, more));
    } else {
        seg_components(seg, out);
    }
}

/// The components of a path (`Path::components`).
pub fn path_components(p: &str) -> (r: Vec<Component>)
    ensures
        r@.map_values(|c: Component| c.view()) == components(p@),
{
    let chars = chars_of(p);
    let mut out: Vec<Component> = Vec::new();
    let mut cur: Vec<char> = Vec::new();
    let mut first = true;
    let mut i: usize = 0;
    while i < chars.len()
        invariant
            chars@ == p@,
            i <= chars@.len(),
            ({
                let pieces = split_on(chars@.take(i as int), '/');
                &&& pieces.last() == cur@
                &&& first == (pieces.len() == 1)
                &&& !first ==> out@.map_values(|c: Component| c.view()) == head_comps(
                    pieces[0],
                    true,
                ) + norm_segs(pieces.drop_last().drop_first())
                &&& first ==> out@.len() == 0
            }),
        decreases chars.len() - i,
    {
        let ghost prefix = chars@.take(i as int);
        let ghost pieces = split_on(prefix, '/');
        proof {
            lemma_split_on_len(prefix, '/');
            assert(chars@.take(i + 1).drop_last() =~= prefix);
        }
        if chars[i] == '/' {
            if first {
                head_components(&cur, true, &mut out);
                first = false;
            } else {
                seg_components(&cur, &mut out);
            }
            cur = Vec::new();
            i = i + 1;
            proof {
                let np = split_on(chars@.take(i as int), '/');
                assert(np =~= pieces.push(Seq::empty()));
                assert(np.drop_last() =~= pieces);
                if pieces.len() > 1 {
                    assert(pieces.drop_first() =~= pieces.drop_last().drop_first().push(
                        pieces.last(),
                    ));
                    lemma_norm_segs_push(pieces.drop_last().drop_first(), pieces.last());
                } else {
                    assert(pieces.drop_first() =~= Seq::<Seq<char>>::empty());
                    assert(out@.map_values(|c: Component| c.view()) =~= head_comps(pieces[0], true)
                        + norm_segs(np.drop_last().drop_first()));
                }
                assert(np[0] == pieces[0]);
                assert(cur@ =~= Seq::<char>::empty());
            }
        } else {
            cur.push(chars[i]);
            i = i + 1;
            proof {
                let np = split_on(chars@.take(i as int), '/');
                assert(np =~= pieces.update(pieces.len() - 1, pieces.last().push(chars@[i - 1])));
                assert(np.drop_last() =~= pieces.drop_last());
                if pieces.len() > 1 {
                    assert(np[0] == pieces[0]);
                }
            }
        }
    }
    proof {
        assert(chars@.take(i as int) =~= chars@);
        lemma_split_on_len(chars@, '/');
    }
    let ghost pieces = split_on(chars@, '/');
    if first {
        head_components(&cur, false, &mut out);
        proof {
            assert(pieces.drop_first() =~= Seq::<Seq<char>>::empty());
            assert(out@.map_values(|c: Component| c.view()) =~= head_comps(pieces[0], false)
                + norm_segs(pieces.drop_first()));
        }
    } else {
        seg_components(&cur, &mut out);
        proof {
            assert(pieces.drop_first() =~= pieces.drop_last().drop_first().push(pieces.last()));
            lemma_norm_segs_push(pieces.drop_last().drop_first(), pieces.last());
            assert(out@.map_values(|c: Component| c.view()) =~= head_comps(pieces[0], true)
                + norm_segs(pieces.drop_first()));
        }
    }
    out
}

/// Whether a path is absolute (starts with `/`).
pub fn path_is_absolute(p: &str) -> (r: bool)
    ensures
        r == is_absolute(p@),
{
    let n = p.unicode_len();
    n > 0 && p.get_char(0) == '/'
}

fn comp_eq(a: &Component, b: &Component) -> (r: bool)
    ensures
        r == (a.view() == b.view()),
{
    match (a, b) {
        (Component::RootDir, Component::RootDir) => true,
        (Component::CurDir, Component::CurDir) => true,
        (Component::ParentDir, Component::ParentDir) => true,
        (Component::Normal(x), Component::Normal(y)) => str_eq(x.as_str(), y.as_str()),
        _ => false,
    }
}

/// Whether `base` is a component-wise prefix of `p` (`Path::starts_with`).
pub fn path_starts_with(p: &str, base: &str) -> (r: bool)
    ensures
        r == starts_with(p@, base@),
{
    let a = path_components(p);
    let b = path_components(base);
    let ghost av = a@.map_values(|c: Component| c.view());
    let ghost bv = b@.map_values(|c: Component| c.view());
    if b.len() > a.len() {
        return false;
    }
    let mut i: usize = 0;
    while i < b.len()
        invariant
            av == a@.map_values(|c: Component| c.view()),
            bv == b@.map_values(|c: Component| c.view()),
            av == components(p@),
            bv == components(base@),
            b.len() <= a.len(),
            i <= b.len(),
            forall|k: int| 0 <= k < i ==> av[k] == bv[k],
        decreases b.len() - i,
    {
        if !comp_eq(&a[i], &b[i]) {
            assert(av.take(bv.len() as int)[i as int] != bv[i as int]);
            return false;
        }
        i = i + 1;
    }
    assert(av.take(bv.len() as int) =~= bv);
    true
}

/// `a` joined with `b` (`Path::join`).
pub fn path_join(a: &str, b: &str) -> (r: String)
    ensures
        r@ == join(a@, b@),
{
    if path_is_absolute(b) {
        return String::from_str(b);
    }
    let n = a.unicode_len();
    let mut s = String::from_str(a);
    if n == 0 || a.get_char(n - 1) == '/' {
        s.append(b);
    } else {
        push_char(&mut s, '/');
        s.append(b);
    }
    s
}

/// The text of a component.
pub fn component_text(c: &Component) -> (r: String)
    ensures
        r@ == comp_text(c.view()),
{
    match c {
        Component::RootDir => {
            let mut s = String::new();
            push_char(&mut s, '/');
            s
        },
        Component::CurDir => {
            let mut s = String::new();
            push_char(&mut s, '.');
            s
        },
        Component::ParentDir => {
            let mut s = String::new();
            push_char(&mut s, '.');
            push_char(&mut s, '.');
            s
        },
        Component::Normal(x) => x.clone(),
    }
}

/// The path built from components (`collect::<PathBuf>()`).
pub fn path_from_components(cs: &[Component]) -> (r: String)
    ensures
        r@ == from_comps(cs@.map_values(|c: Component| c.view())),
{
    let ghost cv = cs@.map_values(|c: Component| c.view());
    let mut s = String::new();
    let mut i: usize = 0;
    while i < cs.len()
        invariant
            cv == cs@.map_values(|c: Component| c.view()),
            i <= cs.len(),
            s@ == from_comps(cv.take(i as int)),
        decreases cs.len() - i,
    {
        let t = component_text(&cs[i]);
        s = path_join(s.as_str(), t.as_str());
        i = i + 1;
        assert(cv.take(i as int).drop_last() =~= cv.take(i - 1));
    }
    assert(cv.take(i as int) =~= cv);
    s
}

/// The components with `.` dropped and each `..` cancelling the name before
/// it; a `..` with no name before it stays.
pub open spec fn normalize(cs: Seq<Comp>) -> Seq<Comp>
    decreases cs.len(),
{
    if cs.len() == 0 {
        Seq::empty()
    } else {
        let acc = normalize(cs.drop_last());
        match cs.last() {
            Comp::Cur => acc,
            Comp::Parent => if acc.len() > 0 && acc.last() is Normal {
                acc.drop_last()
            } else {
                acc.push(Comp::Parent)
            },
            c => acc.push(c),
        }
    }
}

fn copy_component(c: &Component) -> (r: Component)
    ensures
        r.view() == c.view(),
{
    match c {
        Component::RootDir => Component::RootDir,
        Component::CurDir => Component::CurDir,
        Component::ParentDir => Component::ParentDir,
        Component::Normal(s) => Component::Normal(s.clone()),
    }
}

/// The path with `.` and `..` resolved by text alone, without asking the
/// file system.
pub fn normalize_path(p: &str) -> (r: String)
    ensures
        r@ == from_comps(normalize(components(p@))),
{
    let cs = path_components(p);
    let ghost cv = cs@.map_values(|c: Component| c.view());
    let mut out: Vec<Component> = Vec::new();
    let mut i: usize = 0;
    while i < cs.len()
        invariant
            cv == cs@.map_values(|c: Component| c.view()),
            i <= cs.len(),
            out@.map_values(|c: Component| c.view()) == normalize(cv.take(i as int)),
        decreases cs.len() - i,
    {
        let ghost before = out@.map_values(|c: Component| c.view());
        assert(cv.take(i + 1).drop_last() =~= cv.take(i as int));
        assert(cv.take(i + 1).last() == cs@[i as int].view());
        match &cs[i] {
            Component::CurDir => {},
            Component::ParentDir => {
                let n = out.len();
                let pop = n > 0 && match &out[n - 1] {
                    Component::Normal(_) => true,
                    _ => false,
                };
                if pop {
                    out.pop();
                    assert(out@.map_values(|c: Component| c.view()) =~= before.drop_last());
                } else {
                    out.push(Component::ParentDir);
                    assert(out@.map_values(|c: Component| c.view()) =~= before.push(Comp::Parent));
                }
            },
            c => {
                let d = copy_component(c);
                out.push(d);
                assert(out@.map_values(|c: Component| c.view()) =~= before.push(cs@[i as int].view()));
            },
        }
        i = i + 1;
    }
    assert(cv.take(i as int) =~= cv);
    path_from_components(out.as_slice())
}

} // verus!
