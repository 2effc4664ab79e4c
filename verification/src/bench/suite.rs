//! A bench suite: the tasks found, filtered by id.

use vstd::prelude::*;

use crate::bench::spec::TaskSpec;
use crate::text::{contains_text, lowercase, text_contains, to_lowercase};

verus! {

/// Whether a task's id matches a lower-cased pattern: its lower case holds the pattern.
pub open spec fn id_matches(id: Seq<char>, pattern: Seq<char>) -> bool {
    contains_text(lowercase(id), pattern)
}

/// The tasks among the first `k` whose id matches the pattern, in order.
pub open spec fn matching(tasks: Seq<TaskSpec>, pattern: Seq<char>, k: int) -> Seq<TaskSpec>
    decreases k,
{
    if k <= 0 {
        Seq::empty()
    } else if id_matches(tasks[k - 1].id@, pattern) {
        matching(tasks, pattern, k - 1).push(tasks[k - 1])
    } else {
        matching(tasks, pattern, k - 1)
    }
}

/// The tasks a suite keeps: all of them without a pattern (or with an empty
/// one), else those whose lower-cased id holds the lower-cased pattern.
pub open spec fn selected(tasks: Seq<TaskSpec>, glob: Option<Seq<char>>) -> Seq<TaskSpec> {
    match glob {
        Some(g) => if g.len() == 0 {
            tasks
        } else {
            matching(tasks, lowercase(g), tasks.len() as int)
        },
        None => tasks,
    }
}

/// A collection of bench tasks.
#[derive(Debug)]
pub struct BenchSuite {
    /// The tasks.
    pub tasks: Vec<TaskSpec>,
}

impl BenchSuite {
    /// A suite of the tasks found (or the error from looking for them),
    /// filtered by a substring of the id; no task left is an error.
    pub fn load(found: Result<Vec<TaskSpec>, String>, tasks_glob: Option<&str>) -> (r: Result<
        Self,
        String,
    >)
        ensures
            match found {
                Err(e) => r == Err::<Self, String>(e),
                Ok(ts) => {
                    let kept = selected(ts@, match tasks_glob {
                        Some(g) => Some(g@),
                        None => None,
                    });
                    &&& kept.len() == 0 ==> (r matches Err(m) && m@
                        == "no matching tasks found in bench/tasks/"@)
                    &&& kept.len() > 0 ==> (r matches Ok(s) && s.tasks@ == kept)
                },
            },
    {
        let tasks = match found {
            Err(e) => {
                return Err(e);
            },
            Ok(ts) => ts,
        };
        let ghost all = tasks@;
        let tasks = match tasks_glob {
            Some(glob) => if glob.unicode_len() > 0 {
                let pattern = to_lowercase(glob);
                let mut kept: Vec<TaskSpec> = Vec::new();
                let mut rest = tasks;
                let mut i: usize = 0;
                let n = rest.len();
                assert(rest@.skip(0) =~= all);
                while i < n
                    invariant
                        n == all.len(),
                        i <= n,
                        rest@ == all.skip(i as int),
                        kept@ == matching(all, pattern@, i as int),
                    decreases n - i,
                {
                    let t = rest.remove(0);
                    assert(rest@ =~= all.skip(i + 1));
                    let id = to_lowercase(t.id.as_str());
                    if text_contains(id.as_str(), pattern.as_str()) {
                        kept.push(t);
                    }
                    i = i + 1;
                }
                kept
            } else {
                tasks
            },
            None => tasks,
        };
        if tasks.len() == 0 {
            return Err(String::from_str("no matching tasks found in bench/tasks/"));
        }
        Ok(BenchSuite { tasks })
    }
}

} // verus!
