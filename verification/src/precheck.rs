//! Command pre-check: five families of high-risk command shapes, found with
//! regular expressions.
//!
//! 1. Recursive removal: `rm -rf`, `rm -fr`, `rm -Rf` and the like.
//! 2. Writes to block devices: `/dev/sd*`, `/dev/nvme*`, `/dev/disk*`, `/dev/hd*`.
//! 3. Reverse shells: `bash -i`, `/dev/tcp/`, `mkfifo` + `nc`, scripted sockets.
//! 4. Download and execute: `curl ... | sh`, `wget ... | sh`, `base64 -d ... | sh`.
//! 5. System directory changes: `/etc/`, `/boot/`, `/usr/`, `/var/`.
//!
//! Any hit raises the command to `RiskTier::High`.

use vstd::prelude::*;

use crate::error::AgentError;
use crate::path::{components, path_components};
use crate::text::{join, join_strings, trim, trim_string};

verus! {

/// Whether the regular expression `pattern` matches somewhere in `haystack`
/// (`regex::Regex::new(pattern)?.is_match(haystack)`; false when the pattern
/// does not compile).
pub uninterp spec fn regex_match(pattern: Seq<char>, haystack: Seq<char>) -> bool;

/// The texts of the successive non-overlapping matches of `pattern` in
/// `haystack` (`regex::Regex::find_iter`; empty when the pattern does not compile).
pub uninterp spec fn regex_find_all(pattern: Seq<char>, haystack: Seq<char>) -> Seq<Seq<char>>;

/// Compiles `pattern` with `regex::Regex::new` and tests it with
/// `Regex::is_match`. The contract claims only that the answer is fixed by
/// the pattern and the text.
#[verifier::external_body]
fn regex_is_match(pattern: &str, haystack: &str) -> (r: bool)
    ensures
        r == regex_match(pattern@, haystack@),
{
    regex::Regex::new(pattern).map(|re| re.is_match(haystack)).unwrap_or(false)
}

/// Compiles `pattern` with `regex::Regex::new` and lists the texts of
/// `Regex::find_iter`. The contract claims only that the list is fixed by the
/// pattern and the text.
#[verifier::external_body]
fn regex_find_iter(pattern: &str, haystack: &str) -> (r: Vec<String>)
    ensures
        r@.map_values(|s: String| s@) == regex_find_all(pattern@, haystack@),
{
    match regex::Regex::new(pattern) {
        Ok(re) => re.find_iter(haystack).map(|m| m.as_str().to_string()).collect(),
        Err(_) => Vec::new(),
    }
}

/// Recursive removal.
pub const RE_RM_RF: &'static str = r"\brm\s+(-\s*[rR]\s*[fF]\b|-[rRfF]{2,}\b|--recursive\b)";

/// Writes to a block device.
pub const RE_DEVICE_WRITE: &'static str = r"(?:\bsudo\b|\bdd\b|\bcat\b|\becho\b)[^|;&]*/dev/(?:sd[a-z]+|nvme[0-9]+[a-z0-9]*|disk[0-9]+[a-z0-9]*|hd[a-z]+)|(?:>|>>|tee|\bof=|\bto=)\s*/dev/(?:sd[a-z]+|nvme[0-9]+[a-z0-9]*|disk[0-9]+[a-z0-9]*|hd[a-z]+)";

/// Reverse shells.
pub const RE_REVERSE_SHELL: &'static str = r"\bbash\s+-i\b|bash\s+-c\s+.*/dev/tcp/|mkfifo.*\|\s*nc\b|\bnc\b.*-e\s*/?bin/(?:ba)?sh\b|python[23]?\s+-c\s+.*socket.*subprocess|perl\s+-e\s+.*socket";

/// Download piped into a shell.
pub const RE_DOWNLOAD_EXEC: &'static str = r"(?:curl|wget)\b[^|]*\|\s*(?:ba)?sh\b|\bbase64\b[^|]*-d[^|]*\|\s*(?:ba)?sh\b|\beval\s+\$\(.*(?:curl|wget).*\)";

/// Changes under system directories.
pub const RE_SYSTEM_DIR: &'static str = r"\b(?:rm|mv|cp|chmod|chown|install|tee|dd)\s+[^|;&]*(?:/etc|/boot|/usr|/var)/[^\s|;&]*";

/// Absolute path tokens.
pub const RE_PATH_TOKEN: &'static str = r"(?:^|[\s=&])(/[^\s|;&']+)";

/// Risk tier. `High` is refused by default.
#[derive(Debug, Clone, Copy, PartialEq, Eq, Structural)]
pub enum RiskTier {
    /// Harmless.
    Low,
    /// Has side effects.
    Medium,
    /// Dangerous; needs explicit permission.
    High,
}

/// The numeric rank of a tier: Low 0, Medium 1, High 2.
pub open spec fn spec_rank(t: RiskTier) -> u8 {
    match t {
        RiskTier::Low => 0,
        RiskTier::Medium => 1,
        RiskTier::High => 2,
    }
}

impl RiskTier {
    /// The numeric rank of the tier, for `max` comparisons.
    pub fn rank(self) -> (r: u8)
        ensures
            r == spec_rank(self),
    {
        match self {
            RiskTier::Low => 0,
            RiskTier::Medium => 1,
            RiskTier::High => 2,
        }
    }
}

/// The result of a pre-check.
#[derive(Debug, Clone, PartialEq, Eq)]
pub struct PrecheckResult {
    /// Risk tier.
    pub tier: RiskTier,
    /// The high-risk families that matched, in check order.
    pub categories: Vec<String>,
    /// Absolute paths found in the command (recorded, never used to refuse).
    pub paths: Vec<String>,
}

/// The family name when its pattern matches, else nothing.
pub open spec fn hit(name: Seq<char>, pattern: Seq<char>, joined: Seq<char>) -> Seq<Seq<char>> {
    if regex_match(pattern, joined) {
        seq![name]
    } else {
        Seq::empty()
    }
}

/// The families that match the joined command, in check order.
pub open spec fn spec_categories(joined: Seq<char>) -> Seq<Seq<char>> {
    hit("recursive-remove"@, RE_RM_RF@, joined) + hit("device-write"@, RE_DEVICE_WRITE@, joined)
        + hit("reverse-shell"@, RE_REVERSE_SHELL@, joined) + hit(
        "download-and-exec"@,
        RE_DOWNLOAD_EXEC@,
        joined,
    ) + hit("system-dir"@, RE_SYSTEM_DIR@, joined)
}

/// The path tokens kept: each match trimmed, kept when it has more than one component.
pub open spec fn spec_paths(matches: Seq<Seq<char>>) -> Seq<Seq<char>>
    decreases matches.len(),
{
    if matches.len() == 0 {
        Seq::empty()
    } else {
        let t = trim(matches.last());
        spec_paths(matches.drop_last()) + if components(t).len() > 1 {
            seq![t]
        } else {
            Seq::empty()
        }
    }
}

/// The argv joined with single spaces.
pub open spec fn spec_joined(argv: Seq<String>) -> Seq<char> {
    join(argv.map_values(|a: String| a@), seq![' '])
}

fn check_family(
    name: &str,
    pattern: &str,
    joined: &str,
    categories: &mut Vec<String>,
    tier: &mut RiskTier,
)
    ensures
        final(categories)@.map_values(|s: String| s@) == old(categories)@.map_values(
            |s: String| s@,
        ) + hit(name@, pattern@, joined@),
        regex_match(pattern@, joined@) ==> *final(tier) == RiskTier::High,
        !regex_match(pattern@, joined@) ==> *final(tier) == *old(tier),
{
    if regex_is_match(pattern, joined) {
        categories.push(String::from_str(name));
        if RiskTier::High.rank() > tier.rank() {
            *tier = RiskTier::High;
        }
    }
    assert(categories@.map_values(|s: String| s@) =~= old(categories)@.map_values(|s: String| s@)
        + hit(name@, pattern@, joined@));
}

/// Pre-checks a command (program and arguments, already split).
///
/// The argv is joined with spaces; each high-risk family whose pattern
/// matches is listed, and the tier is `High` when any matched, else `Low`.
/// Absolute path tokens are collected for the record. Never fails.
pub fn analyze(argv: &[String]) -> (r: Result<PrecheckResult, AgentError>)
    ensures
        r is Ok,
        r->Ok_0.categories@.map_values(|s: String| s@) == spec_categories(spec_joined(argv@)),
        r->Ok_0.tier == if spec_categories(spec_joined(argv@)).len() > 0 {
            RiskTier::High
        } else {
            RiskTier::Low
        },
        r->Ok_0.paths@.map_values(|s: String| s@) == spec_paths(
            regex_find_all(RE_PATH_TOKEN@, spec_joined(argv@)),
        ),
{
    let joined = join_strings(argv, " ");
    proof {
        reveal_strlit(" ");
        assert(" "@ =~= seq![' ']);
    }
    let j = joined.as_str();
    let mut categories: Vec<String> = Vec::new();
    let mut tier = RiskTier::Low;
    check_family("recursive-remove", RE_RM_RF, j, &mut categories, &mut tier);
    check_family("device-write", RE_DEVICE_WRITE, j, &mut categories, &mut tier);
    check_family("reverse-shell", RE_REVERSE_SHELL, j, &mut categories, &mut tier);
    check_family("download-and-exec", RE_DOWNLOAD_EXEC, j, &mut categories, &mut tier);
    check_family("system-dir", RE_SYSTEM_DIR, j, &mut categories, &mut tier);
    assert(categories@.map_values(|s: String| s@) =~= spec_categories(spec_joined(argv@)));
    let matches = regex_find_iter(RE_PATH_TOKEN, j);
    let ghost ms = matches@.map_values(|s: String| s@);
    let mut paths: Vec<String> = Vec::new();
    let mut i: usize = 0;
    while i < matches.len()
        invariant
            ms == matches@.map_values(|s: String| s@),
            i <= matches.len(),
            paths@.map_values(|s: String| s@) == spec_paths(ms.take(i as int)),
        decreases matches.len() - i,
    {
        let t = trim_string(matches[i].as_str());
        let cs = path_components(t.as_str());
        let ghost before = paths@.map_values(|s: String| s@);
        if cs.len() > 1 {
            paths.push(t);
        }
        i = i + 1;
        assert(ms.take(i as int).drop_last() =~= ms.take(i - 1));
        assert(paths@.map_values(|s: String| s@) =~= spec_paths(ms.take(i as int)));
    }
    assert(ms.take(i as int) =~= ms);
    Ok(PrecheckResult { tier, categories, paths })
}

} // verus!
