//! Report helpers: calendar dates, timestamps and run ids, status labels.

use vstd::prelude::*;

use crate::bench::runner::TaskStatus;
use crate::clock::now_unix_secs;
use crate::text::{
    chars_of, decimal, decimal_padded, lemma_lex_lt_total, lemma_lex_lt_transitive, lex_compare, lex_lt,
    push_decimal, push_decimal_padded, string_of_range,
};

verus! {

/// The era of a day count shifted to 0000-03-01 (400-year cycles, rounded down).
pub open spec fn era_of(zz: int) -> int {
    if zz >= 0 {
        zz / 146097
    } else {
        -((146096 - zz) / 146097)
    }
}

/// The proleptic Gregorian `(year, month, day)` of the day `z` days after
/// 1970-01-01 (the days-to-civil conversion over 400-year eras).
pub open spec fn civil(z: int) -> (int, int, int) {
    let zz = z + 719468;
    let era = era_of(zz);
    let doe = zz - era * 146097;
    let yoe = (doe - doe / 1460 + doe / 36524 - doe / 146096) / 365;
    let y = yoe + era * 400;
    let doy = doe - (365 * yoe + yoe / 4 - yoe / 100);
    let mp = (5 * doy + 2) / 153;
    let d = doy - (153 * mp + 2) / 5 + 1;
    let m = if mp < 10 {
        mp + 3
    } else {
        mp - 9
    };
    (if m <= 2 {
        y + 1
    } else {
        y
    }, m, d)
}

/// The `(year, month, day)` of the day `z` days after 1970-01-01.
pub fn civil_from_days(z: i64) -> (r: (i64, u32, u32))
    requires
        z <= i64::MAX - 719468,
    ensures
        (r.0 as int, r.1 as int, r.2 as int) == civil(z as int),
        1 <= r.1 <= 12,
        1 <= r.2 <= 31,
{
    let zz = z + 719468;
    let era: i64 = if zz >= 0 {
        zz / 146097
    } else {
        -((146096 - zz) / 146097)
    };
    assert(era == era_of(zz as int));
    assert(0 <= zz - era * 146097 < 146097) by (nonlinear_arith)
        requires
            era == era_of(zz as int),
    ;
    let doe = zz - era * 146097;
    assert(0 <= (doe - doe / 1460 + doe / 36524 - doe / 146096) / 365 <= 399) by (nonlinear_arith)
        requires
            0 <= doe < 146097,
    ;
    let yoe = (doe - doe / 1460 + doe / 36524 - doe / 146096) / 365;
    let y = yoe + era * 400;
    assert(0 <= doe - (365 * yoe + yoe / 4 - yoe / 100) <= 365) by (nonlinear_arith)
        requires
            0 <= doe < 146097,
            yoe == (doe - doe / 1460 + doe / 36524 - doe / 146096) / 365,
    ;
    let doy = doe - (365 * yoe + yoe / 4 - yoe / 100);
    let mp = (5 * doy + 2) / 153;
    assert(1 <= doy - (153 * mp + 2) / 5 + 1 <= 31) by (nonlinear_arith)
        requires
            0 <= doy <= 365,
            mp == (5 * doy + 2) / 153,
    ;
    let d = (doy - (153 * mp + 2) / 5 + 1) as u32;
    let m = (if mp < 10 {
        mp + 3
    } else {
        mp - 9
    }) as u32;
    (if m <= 2 {
        y + 1
    } else {
        y
    }, m, d)
}

/// The UTC date and time of `secs` seconds after the epoch as
/// `(year, month, day, hour, minute, second)`.
pub open spec fn utc_parts(secs: nat) -> (int, int, int, int, int, int) {
    let (y, m, d) = civil(secs as int / 86400);
    let rem = secs as int % 86400;
    (y, m, d, rem / 3600, (rem % 3600) / 60, rem % 60)
}

/// `YYYY-MM-DDTHH:MM:SSZ` for `secs` seconds after the epoch.
pub open spec fn iso_text(secs: nat) -> Seq<char> {
    let p = utc_parts(secs);
    decimal_padded(p.0 as nat, 4) + "-"@ + decimal_padded(p.1 as nat, 2) + "-"@ + decimal_padded(
        p.2 as nat,
        2,
    ) + "T"@ + decimal_padded(p.3 as nat, 2) + ":"@ + decimal_padded(p.4 as nat, 2) + ":"@
        + decimal_padded(p.5 as nat, 2) + "Z"@
}

/// `run-YYYYMMDDTHHMMSSZ` for `secs` seconds after the epoch.
pub open spec fn run_id_text(secs: nat) -> Seq<char> {
    let p = utc_parts(secs);
    "run-"@ + decimal_padded(p.0 as nat, 4) + decimal_padded(p.1 as nat, 2) + decimal_padded(
        p.2 as nat,
        2,
    ) + "T"@ + decimal_padded(p.3 as nat, 2) + decimal_padded(p.4 as nat, 2) + decimal_padded(
        p.5 as nat,
        2,
    ) + "Z"@
}

fn parts(secs: u64) -> (r: (u128, u128, u128, u128, u128, u128))
    ensures
        ({
            let p = utc_parts(secs as nat);
            &&& p.0 >= 0
            &&& r.0 as int == p.0
            &&& r.1 as int == p.1
            &&& r.2 as int == p.2
            &&& r.3 as int == p.3
            &&& r.4 as int == p.4
            &&& r.5 as int == p.5
        }),
{
    let days = (secs / 86400) as i64;
    let (y, m, d) = civil_from_days(days);
    let ghost c = civil(days as int);
    assert(c.0 >= 1970) by (nonlinear_arith)
        requires
            days >= 0,
            c == civil(days as int),
    ;
    let rem = secs % 86400;
    (y as u128, m as u128, d as u128, (rem / 3600) as u128, ((rem % 3600) / 60) as u128, (rem % 60) as u128)
}

/// `YYYY-MM-DDTHH:MM:SSZ` for a time given in seconds after the epoch.
pub fn iso_timestamp_at(secs: u64) -> (s: String)
    ensures
        s@ == iso_text(secs as nat),
{
    let (y, mo, d, h, mi, se) = parts(secs);
    let mut s = String::new();
    push_decimal_padded(&mut s, y, 4);
    s.append("-");
    push_decimal_padded(&mut s, mo, 2);
    s.append("-");
    push_decimal_padded(&mut s, d, 2);
    s.append("T");
    push_decimal_padded(&mut s, h, 2);
    s.append(":");
    push_decimal_padded(&mut s, mi, 2);
    s.append(":");
    push_decimal_padded(&mut s, se, 2);
    s.append("Z");
    s
}

/// `run-YYYYMMDDTHHMMSSZ` for a time given in seconds after the epoch.
pub fn run_id_at(secs: u64) -> (s: String)
    ensures
        s@ == run_id_text(secs as nat),
{
    let (y, mo, d, h, mi, se) = parts(secs);
    let mut s = String::from_str("run-");
    push_decimal_padded(&mut s, y, 4);
    push_decimal_padded(&mut s, mo, 2);
    push_decimal_padded(&mut s, d, 2);
    s.append("T");
    push_decimal_padded(&mut s, h, 2);
    push_decimal_padded(&mut s, mi, 2);
    push_decimal_padded(&mut s, se, 2);
    s.append("Z");
    s
}

/// The current UTC time as `YYYY-MM-DDTHH:MM:SSZ`.
pub fn iso_timestamp() -> (s: String)
    ensures
        exists|secs: nat| s@ == iso_text(secs),
{
    iso_timestamp_at(now_unix_secs())
}

/// A run id from the current UTC time, `run-YYYYMMDDTHHMMSSZ`.
pub fn run_id_now() -> (s: String)
    ensures
        exists|secs: nat| s@ == run_id_text(secs),
{
    run_id_at(now_unix_secs())
}

/// The label of a task status in reports.
pub open spec fn label_of(status: TaskStatus) -> Seq<char> {
    match status {
        TaskStatus::Passed => "passed"@,
        TaskStatus::Failed => "failed (verify)"@,
        TaskStatus::Timeout => "timeout"@,
        TaskStatus::Error => "error"@,
    }
}

/// The label of a task status in reports.
pub fn status_label(status: &TaskStatus) -> (s: &'static str)
    ensures
        s@ == label_of(*status),
{
    match status {
        TaskStatus::Passed => "passed",
        TaskStatus::Failed => "failed (verify)",
        TaskStatus::Timeout => "timeout",
        TaskStatus::Error => "error",
    }
}

} // verus!

verus! {

/// The counts of one group of results (a category or a difficulty).
#[derive(Debug, Clone)]
pub struct GroupStats {
    /// The group's name.
    pub key: String,
    /// Results in the group.
    pub total: usize,
    /// Passed results in the group.
    pub passed: usize,
}

/// The counts of a run: overall and by group, the groups sorted by name.
#[derive(Debug, Clone)]
pub struct Tally {
    pub total: usize,
    pub passed: usize,
    pub failed: usize,
    pub by_category: Vec<GroupStats>,
    pub by_difficulty: Vec<GroupStats>,
}

/// One result as the tally reads it: category, difficulty and status.
pub type ResultRow = (String, String, TaskStatus);

/// The passed results among the first `k`.
pub open spec fn passed_upto(rows: Seq<ResultRow>, k: int) -> nat
    decreases k,
{
    if k <= 0 {
        0
    } else {
        passed_upto(rows, k - 1) + if rows[k - 1].2 == TaskStatus::Passed {
            1nat
        } else {
            0nat
        }
    }
}

/// The key of a row: its category (`by_difficulty` false) or difficulty.
pub open spec fn row_key(r: ResultRow, by_difficulty: bool) -> Seq<char> {
    if by_difficulty {
        r.1@
    } else {
        r.0@
    }
}

/// The results among the first `k` whose key is `key`, and how many of them passed.
pub open spec fn group_counts(rows: Seq<ResultRow>, by_difficulty: bool, key: Seq<char>, k: int) -> (nat, nat)
    decreases k,
{
    if k <= 0 {
        (0, 0)
    } else {
        let c = group_counts(rows, by_difficulty, key, k - 1);
        if row_key(rows[k - 1], by_difficulty) == key {
            (c.0 + 1, c.1 + if rows[k - 1].2 == TaskStatus::Passed {
                1nat
            } else {
                0nat
            })
        } else {
            c
        }
    }
}

/// Whether `groups` are the groups of the first `k` rows: sorted by key
/// without repeats, one for each key that occurs, with its counts.
pub open spec fn groups_of(groups: Seq<GroupStats>, rows: Seq<ResultRow>, by_difficulty: bool, k: int) -> bool {
    &&& forall|a: int, b: int| 0 <= a < b < groups.len() ==> lex_lt(#[trigger] groups[a].key@, #[trigger] groups[b].key@)
    &&& forall|a: int| 0 <= a < groups.len() ==> group_counts(rows, by_difficulty, (#[trigger] groups[a]).key@, k)
        == (groups[a].total as nat, groups[a].passed as nat) && groups[a].total > 0
    &&& forall|j: int| 0 <= j < k ==> has_group(groups, row_key(#[trigger] rows[j], by_difficulty))
}

/// Whether some group has the key.
pub open spec fn has_group(groups: Seq<GroupStats>, key: Seq<char>) -> bool {
    exists|a: int| 0 <= a < groups.len() && #[trigger] groups[a].key@ == key
}

proof fn lemma_counts_bounded(rows: Seq<ResultRow>, by_difficulty: bool, key: Seq<char>, k: int)
    requires
        0 <= k,
    ensures
        group_counts(rows, by_difficulty, key, k).1 <= group_counts(rows, by_difficulty, key, k).0,
        group_counts(rows, by_difficulty, key, k).0 <= k,
        passed_upto(rows, k) <= k,
    decreases k,
{
    if k > 0 {
        lemma_counts_bounded(rows, by_difficulty, key, k - 1);
    }
}

proof fn lemma_absent_key_zero(rows: Seq<ResultRow>, by_difficulty: bool, key: Seq<char>, k: int)
    requires
        0 <= k <= rows.len(),
        forall|j: int| 0 <= j < k ==> row_key(rows[j], by_difficulty) != key,
    ensures
        group_counts(rows, by_difficulty, key, k) == (0nat, 0nat),
    decreases k,
{
    if k > 0 {
        lemma_absent_key_zero(rows, by_difficulty, key, k - 1);
    }
}

fn row_key_text(r: &ResultRow, by_difficulty: bool) -> (s: &String)
    ensures
        s@ == row_key(*r, by_difficulty),
{
    if by_difficulty {
        &r.1
    } else {
        &r.0
    }
}

fn group(rows: &[ResultRow], by_difficulty: bool) -> (g: Vec<GroupStats>)
    ensures
        groups_of(g@, rows@, by_difficulty, rows@.len() as int),
{
    let mut g: Vec<GroupStats> = Vec::new();
    let mut i: usize = 0;
    while i < rows.len()
        invariant
            i <= rows@.len(),
            groups_of(g@, rows@, by_difficulty, i as int),
        decreases rows@.len() - i,
    {
        let key = row_key_text(&rows[i], by_difficulty);
        let passed = rows[i].2 == TaskStatus::Passed;
        let ghost k = key@;
        let ghost old_g = g@;
        // Find the first group whose key is not below `key`.
        let mut p: usize = 0;
        while p < g.len() && lex_compare(g[p].key.as_str(), key.as_str()) == -1
            invariant
                g@ == old_g,
                k == key@,
                p <= g@.len(),
                forall|q: int| 0 <= q < p ==> lex_lt(#[trigger] g@[q].key@, k),
            decreases g@.len() - p,
        {
            p = p + 1;
        }
        proof {
            lemma_counts_bounded(rows@, by_difficulty, k, i as int);
        }
        if p < g.len() && crate::text::str_eq(g[p].key.as_str(), key.as_str()) {
            let old_entry = g[p].clone_counts();
            assert(group_counts(rows@, by_difficulty, k, i as int) == (old_entry.total as nat, old_entry.passed as nat));
            let updated = GroupStats {
                key: old_entry.key,
                total: old_entry.total + 1,
                passed: if passed {
                    old_entry.passed + 1
                } else {
                    old_entry.passed
                },
            };
            g.set(p, updated);
            proof {
                assert forall|a: int, b: int| 0 <= a < b < g@.len() implies lex_lt(#[trigger] g@[a].key@, #[trigger] g@[b].key@) by {
                    assert(g@[a].key@ == old_g[a].key@ && g@[b].key@ == old_g[b].key@);
                }
                assert forall|a: int| 0 <= a < g@.len() implies group_counts(rows@, by_difficulty, (#[trigger] g@[a]).key@, i + 1)
                    == (g@[a].total as nat, g@[a].passed as nat) && g@[a].total > 0 by {
                    if a != p {
                        assert(g@[a] == old_g[a]);
                        if g@[a].key@ == k {
                            if a < p {
                                lemma_lex_lt_total(k, k);
                            } else {
                                lemma_lex_lt_transitive(old_g[p as int].key@, old_g[p as int].key@, old_g[p as int].key@);
                                lemma_lex_lt_total(k, k);
                            }
                        }
                    }
                }
                assert forall|j: int| 0 <= j < i + 1 implies has_group(g@, row_key(#[trigger] rows@[j], by_difficulty)) by {
                    if j < i {
                        let a = choose|a: int| 0 <= a < old_g.len() && #[trigger] old_g[a].key@ == row_key(rows@[j], by_difficulty);
                        assert(g@[a].key@ == old_g[a].key@);
                    } else {
                        assert(g@[p as int].key@ == k);
                    }
                }
            }
        } else {
            proof {
                assert forall|j: int| 0 <= j < i implies row_key(rows@[j], by_difficulty) != k by {
                    if row_key(rows@[j], by_difficulty) == k {
                        let a = choose|a: int| 0 <= a < old_g.len() && #[trigger] old_g[a].key@ == row_key(rows@[j], by_difficulty);
                        if a < p {
                            lemma_lex_lt_total(k, k);
                        } else if a == p {
                        } else {
                            lemma_lex_compare_ge(old_g, p as int, a, k);
                        }
                    }
                }
                lemma_absent_key_zero(rows@, by_difficulty, k, i as int);
            }
            let fresh = GroupStats {
                key: key.clone(),
                total: 1,
                passed: if passed {
                    1
                } else {
                    0
                },
            };
            g.insert(p, fresh);
            proof {
                assert forall|a: int, b: int| 0 <= a < b < g@.len() implies lex_lt(#[trigger] g@[a].key@, #[trigger] g@[b].key@) by {
                    let ka = if a < p { old_g[a].key@ } else if a == p { k } else { old_g[a - 1].key@ };
                    let kb = if b < p { old_g[b].key@ } else if b == p { k } else { old_g[b - 1].key@ };
                    assert(g@[a].key@ == ka && g@[b].key@ == kb);
                    if b > p && a < p {
                        lemma_lex_lt_transitive(ka, k, old_g[p as int].key@);
                        if b - 1 > p {
                            lemma_lex_lt_transitive(ka, old_g[p as int].key@, kb);
                        }
                    } else if a == p && b > p {
                        if b - 1 > p {
                            lemma_lex_lt_transitive(k, old_g[p as int].key@, kb);
                        }
                    }
                }
                assert forall|a: int| 0 <= a < g@.len() implies group_counts(rows@, by_difficulty, (#[trigger] g@[a]).key@, i + 1)
                    == (g@[a].total as nat, g@[a].passed as nat) && g@[a].total > 0 by {
                    if a != p {
                        let o = if a < p { a } else { a - 1 };
                        assert(g@[a] == old_g[o]);
                        if old_g[o].key@ == k {
                            lemma_counts_bounded(rows@, by_difficulty, k, i as int);
                        }
                    }
                }
                assert forall|j: int| 0 <= j < i + 1 implies has_group(g@, row_key(#[trigger] rows@[j], by_difficulty)) by {
                    if j < i {
                        let a = choose|a: int| 0 <= a < old_g.len() && #[trigger] old_g[a].key@ == row_key(rows@[j], by_difficulty);
                        let a2 = if a < p { a } else { a + 1 };
                        assert(g@[a2].key@ == old_g[a].key@);
                    } else {
                        assert(g@[p as int].key@ == k);
                    }
                }
            }
        }
        i = i + 1;
    }
    g
}

proof fn lemma_lex_compare_ge(gs: Seq<GroupStats>, p: int, a: int, k: Seq<char>)
    requires
        0 <= p < a < gs.len(),
        forall|x: int, y: int| 0 <= x < y < gs.len() ==> lex_lt(#[trigger] gs[x].key@, #[trigger] gs[y].key@),
        !lex_lt(gs[p].key@, k),
        gs[p].key@ != k,
    ensures
        gs[a].key@ != k,
{
    lemma_lex_lt_total(gs[p].key@, k);
    lemma_lex_lt_transitive(k, gs[p].key@, gs[a].key@);
    lemma_lex_lt_total(k, k);
}

impl GroupStats {
    fn clone_counts(&self) -> (r: Self)
        ensures
            r.key@ == self.key@,
            r.total == self.total,
            r.passed == self.passed,
    {
        GroupStats { key: self.key.clone(), total: self.total, passed: self.passed }
    }
}

/// Counts a run's results: how many passed and failed, overall and by
/// category and difficulty (the groups sorted by name).
pub fn tally(rows: &[ResultRow]) -> (t: Tally)
    ensures
        t.total == rows@.len(),
        t.passed == passed_upto(rows@, rows@.len() as int),
        t.failed == t.total - t.passed,
        groups_of(t.by_category@, rows@, false, rows@.len() as int),
        groups_of(t.by_difficulty@, rows@, true, rows@.len() as int),
{
    let mut passed: usize = 0;
    let mut i: usize = 0;
    while i < rows.len()
        invariant
            i <= rows@.len(),
            passed == passed_upto(rows@, i as int),
        decreases rows@.len() - i,
    {
        proof {
            lemma_counts_bounded(rows@, false, Seq::empty(), i + 1);
        }
        if rows[i].2 == TaskStatus::Passed {
            passed = passed + 1;
        }
        i = i + 1;
    }
    proof {
        lemma_counts_bounded(rows@, false, Seq::empty(), rows@.len() as int);
    }
    Tally {
        total: rows.len(),
        passed,
        failed: rows.len() - passed,
        by_category: group(rows, false),
        by_difficulty: group(rows, true),
    }
}

} // verus!

verus! {

/// The opening lines of the text report: title, run id, agent and counts.
pub open spec fn report_header(run_id: Seq<char>, agent: Seq<char>, total: nat, passed: nat, failed: nat) -> Seq<char> {
    "Aura Bench Report\n================\nRun:       "@ + run_id + "\nAgent:     "@ + agent
        + "\nTasks:     "@ + decimal(total) + " total, "@ + decimal(passed) + " passed, "@ + decimal(failed)
        + " failed\n"@
}

/// The opening lines of the text report (the pass rate and wall times,
/// which are floating point, follow them in the application).
pub fn report_header_text(run_id: &str, agent: &str, total: usize, passed: usize, failed: usize) -> (s: String)
    ensures
        s@ == report_header(run_id@, agent@, total as nat, passed as nat, failed as nat),
{
    let mut s = String::from_str("Aura Bench Report\n================\nRun:       ");
    s.append(run_id);
    s.append("\nAgent:     ");
    s.append(agent);
    s.append("\nTasks:     ");
    push_decimal(&mut s, total as u128);
    s.append(" total, ");
    push_decimal(&mut s, passed as u128);
    s.append(" passed, ");
    push_decimal(&mut s, failed as u128);
    s.append(" failed\n");
    s
}

/// One task in the failed-task list: its id, status and error, if any.
pub type ReportRow = (String, TaskStatus, Option<String>);

/// The reason shown for a failed task: its error (or `unknown`), cut to 60 characters.
pub open spec fn shown_reason(error: Option<String>) -> Seq<char> {
    let r = match error {
        Some(e) => e@,
        None => "unknown"@,
    };
    if r.len() <= 60 {
        r
    } else {
        r.take(60)
    }
}

/// The two lines of one failed task.
pub open spec fn failed_line(row: ReportRow) -> Seq<char> {
    "  [X] "@ + row.0@ + " ("@ + label_of(row.1) + ")\n      "@ + shown_reason(row.2) + "\n"@
}

/// The lines of the tasks that did not pass among the first `k`, in order.
pub open spec fn failed_lines(rows: Seq<ReportRow>, k: int) -> Seq<char>
    decreases k,
{
    if k <= 0 {
        Seq::empty()
    } else {
        failed_lines(rows, k - 1) + if rows[k - 1].1 != TaskStatus::Passed {
            failed_line(rows[k - 1])
        } else {
            Seq::empty()
        }
    }
}

/// The failed-task section of the text report: empty when every task
/// passed, else the heading `Failed Tasks` and the lines of each task that
/// did not pass.
pub open spec fn failed_section(rows: Seq<ReportRow>) -> Seq<char> {
    if forall|i: int| 0 <= i < rows.len() ==> #[trigger] rows[i].1 == TaskStatus::Passed {
        Seq::empty()
    } else {
        "Failed Tasks\n"@ + failed_lines(rows, rows.len() as int)
    }
}

/// The failed-task section of the text report.
pub fn failed_tasks_section(rows: &[ReportRow]) -> (s: String)
    ensures
        s@ == failed_section(rows@),
{
    let mut body = String::new();
    let mut any = false;
    let mut i: usize = 0;
    while i < rows.len()
        invariant
            i <= rows.len(),
            body@ == failed_lines(rows@, i as int),
            any == exists|j: int| 0 <= j < i && #[trigger] rows@[j].1 != TaskStatus::Passed,
        decreases rows.len() - i,
    {
        let row = &rows[i];
        if row.1 != TaskStatus::Passed {
            any = true;
            body.append("  [X] ");
            body.append(row.0.as_str());
            body.append(" (");
            body.append(status_label(&row.1));
            body.append(")\n      ");
            let reason: &str = match &row.2 {
                Some(e) => e.as_str(),
                None => "unknown",
            };
            let v = chars_of(reason);
            let n = if v.len() <= 60 {
                v.len()
            } else {
                60
            };
            let cut = string_of_range(v.as_slice(), 0, n);
            proof {
                reveal_strlit("unknown");
                if v@.len() <= 60 {
                    assert(v@.subrange(0, n as int) =~= v@);
                } else {
                    assert(v@.subrange(0, 60) =~= v@.take(60));
                }
            }
            body.append(cut.as_str());
            body.append("\n");
        }
        i = i + 1;
    }
    if !any {
        return String::new();
    }
    let mut s = String::from_str("Failed Tasks\n");
    s.append(body.as_str());
    s
}

} // verus!
