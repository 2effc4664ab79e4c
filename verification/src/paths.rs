//! Resolving model- or user-given paths into canonical paths inside the workspace.
//!
//! Symbolic links are resolved by canonicalizing the deepest existing
//! ancestor and putting back the missing tail; the workspace is canonicalized
//! too, and the result must lie inside it. The filesystem queries are made by
//! the caller; this module holds the path arithmetic and the containment rule.

use vstd::prelude::*;

use crate::error::AgentError;
use crate::path::{
    comp_text, components, from_comps, is_absolute, join, path_components, path_from_components,
    path_is_absolute, path_join, path_starts_with, starts_with, Comp, Component,
};

verus! {

/// The absolute form of `path`: itself if absolute, else joined onto the workspace.
pub open spec fn spec_absolute_in(path: Seq<char>, workspace: Seq<char>) -> Seq<char> {
    if is_absolute(path) {
        path
    } else {
        join(workspace, path)
    }
}

/// The absolute form of `path`: itself if absolute, else joined onto `workspace`.
pub fn absolute_in(path: &str, workspace: &str) -> (r: String)
    ensures
        r@ == spec_absolute_in(path@, workspace@),
{
    if path_is_absolute(path) {
        String::from_str(path)
    } else {
        path_join(workspace, path)
    }
}

/// The path without its last component, and that component's name, when the
/// last component is a plain name (`Path::parent` and `Path::file_name`).
pub fn split_file_name(p: &str) -> (r: Option<(String, String)>)
    ensures
        match r {
            Some((parent, name)) => {
                let cs = components(p@);
                &&& cs.len() > 0
                &&& cs.last() == Comp::Normal(name@)
                &&& parent@ == from_comps(cs.drop_last())
            },
            None => components(p@).len() == 0 || !(components(p@).last() is Normal),
        },
{
    let mut cs = path_components(p);
    let ghost all = cs@.map_values(|c: Component| c.view());
    if cs.len() == 0 {
        return None;
    }
    let last = cs.pop().unwrap();
    assert(cs@.map_values(|c: Component| c.view()) =~= all.drop_last());
    match last {
        Component::Normal(name) => {
            let parent = path_from_components(cs.as_slice());
            Some((parent, name))
        },
        _ => None,
    }
}

/// `base` with the names pushed back in reverse order: the names were
/// collected while walking up from the leaf, so the last one is pushed first.
pub open spec fn reattach(base: Seq<char>, names: Seq<Seq<char>>) -> Seq<char>
    decreases names.len(),
{
    if names.len() == 0 {
        base
    } else {
        join(reattach(base, names.skip(1)), names[0])
    }
}

/// `base` with the missing names pushed back, deepest last.
pub fn reattach_names(base: String, names: &[String]) -> (r: String)
    ensures
        r@ == reattach(base@, names@.map_values(|s: String| s@)),
{
    let ghost ns = names@.map_values(|s: String| s@);
    let mut out = base;
    let mut i: usize = names.len();
    while i > 0
        invariant
            ns == names@.map_values(|s: String| s@),
            i <= names.len(),
            out@ == reattach(base@, ns.skip(i as int)),
        decreases i,
    {
        i = i - 1;
        out = path_join(out.as_str(), names[i].as_str());
        assert(ns.skip(i as int).skip(1) =~= ns.skip(i + 1));
    }
    assert(ns.skip(0) =~= ns);
    out
}

/// The text of the refusal of a path outside the workspace.
pub open spec fn escape_message(path: Seq<char>, workspace: Seq<char>) -> Seq<char> {
    "path "@ + path + " escapes workspace "@ + workspace
}

/// Accepts `resolved` when it lies inside the canonical workspace `ws_canonical`
/// (component-wise prefix); otherwise a `PathPolicy` error naming the path as
/// given and the workspace as given.
pub fn check_within(resolved: String, ws_canonical: &str, path: &str, workspace: &str) -> (r: Result<
    String,
    AgentError,
>)
    ensures
        starts_with(resolved@, ws_canonical@) ==> r == Ok::<String, AgentError>(resolved),
        !starts_with(resolved@, ws_canonical@) ==> (r matches Err(AgentError::PathPolicy(m)) && m@
            == escape_message(path@, workspace@)),
{
    if !path_starts_with(resolved.as_str(), ws_canonical) {
        let mut m = String::from_str("path ");
        m.append(path);
        m.append(" escapes workspace ");
        m.append(workspace);
        return Err(AgentError::PathPolicy(m));
    }
    Ok(resolved)
}

/// Whatever `check_within` accepts lies inside the canonical workspace.
pub proof fn law_accepted_paths_stay_inside(resolved: Seq<char>, ws: Seq<char>)
    requires
        starts_with(resolved, ws),
    ensures
        components(ws).len() <= components(resolved).len(),
        forall|i: int| 0 <= i < components(ws).len() ==> components(resolved)[i] == components(ws)[i],
{
    assert forall|i: int| 0 <= i < components(ws).len() implies components(resolved)[i] == components(ws)[i] by {
        assert(components(resolved).take(components(ws).len() as int)[i] == components(resolved)[i]);
    }
}

} // verus!
