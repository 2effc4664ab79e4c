//! Plugin manifest (`plugin.json`) validation.
//!
//! Reading and parsing the JSON is done by the application; this module
//! holds the manifest type and its validation rules.

use vstd::prelude::*;

use crate::error::AgentError;
use crate::text::chars_of;

verus! {

/// Author information in a plugin manifest.
#[derive(Debug, Clone, PartialEq, Eq)]
pub struct Author {
    /// Author name.
    pub name: String,
    /// Author email.
    pub email: Option<String>,
    /// Author URL.
    pub url: Option<String>,
}

/// A plugin manifest.
#[derive(Debug, Clone, PartialEq, Eq)]
pub struct PluginManifest {
    /// Plugin name: lowercase letters and digits, with `.` or `-` inside,
    /// never `--` or `..`.
    pub name: String,
    /// Semantic version.
    pub version: String,
    /// Human-readable description.
    pub description: String,
    /// Author information.
    pub author: Option<Author>,
    /// Homepage URL.
    pub homepage: Option<String>,
    /// Repository URL.
    pub repository: Option<String>,
    /// SPDX license identifier.
    pub license: Option<String>,
    /// Search keywords.
    pub keywords: Vec<String>,
}

/// A lowercase ASCII letter or a digit.
pub open spec fn is_lower_or_digit(c: char) -> bool {
    ('a' <= c && c <= 'z') || ('0' <= c && c <= '9')
}

/// Whether `s` holds the character `c` twice in a row.
pub open spec fn has_double(s: Seq<char>, c: char) -> bool {
    exists|i: int| 0 <= i < s.len() - 1 && #[trigger] s[i] == c && s[i + 1] == c
}

/// The name rule: `^[a-z0-9](?:[a-z0-9.-]*[a-z0-9])?$` and no `--` or `..`.
pub open spec fn valid_plugin_name(s: Seq<char>) -> bool {
    &&& s.len() > 0
    &&& !has_double(s, '-')
    &&& !has_double(s, '.')
    &&& is_lower_or_digit(s[0])
    &&& is_lower_or_digit(s.last())
    &&& forall|i: int| 0 < i < s.len() - 1 ==> is_lower_or_digit(#[trigger] s[i]) || s[i] == '.' || s[i] == '-'
}

fn lower_or_digit(c: char) -> (r: bool)
    ensures
        r == is_lower_or_digit(c),
{
    ('a' <= c && c <= 'z') || ('0' <= c && c <= '9')
}

/// Whether `name` is a valid plugin name.
pub fn is_valid_plugin_name(name: &str) -> (r: bool)
    ensures
        r == valid_plugin_name(name@),
{
    let v = chars_of(name);
    let n = v.len();
    if n == 0 {
        return false;
    }
    let mut i: usize = 0;
    while i + 1 < n
        invariant
            v@ == name@,
            n == v@.len(),
            n > 0,
            i <= n - 1,
            forall|k: int| 0 <= k < i && #[trigger] v@[k] == '-' ==> v@[k + 1] != '-',
            forall|k: int| 0 <= k < i && #[trigger] v@[k] == '.' ==> v@[k + 1] != '.',
        decreases n - i,
    {
        if (v[i] == '-' && v[i + 1] == '-') || (v[i] == '.' && v[i + 1] == '.') {
            proof {
                if v@[i as int] == '-' {
                    assert(has_double(name@, '-'));
                } else {
                    assert(has_double(name@, '.'));
                }
            }
            return false;
        }
        i = i + 1;
    }
    assert(!has_double(name@, '-'));
    assert(!has_double(name@, '.'));
    if !lower_or_digit(v[0]) {
        return false;
    }
    if !lower_or_digit(v[n - 1]) {
        return false;
    }
    let mut j: usize = 1;
    while j < n - 1
        invariant
            v@ == name@,
            n == v@.len(),
            n > 0,
            1 <= j,
            j <= n,
            forall|k: int| 0 < k < j && k < n - 1 ==> is_lower_or_digit(#[trigger] v@[k]) || v@[k] == '.' || v@[k] == '-',
        decreases n - j,
    {
        let c = v[j];
        if !lower_or_digit(c) && c != '.' && c != '-' {
            return false;
        }
        j = j + 1;
    }
    true
}

/// The text of the refusal of an invalid name.
pub open spec fn bad_name_message(name: Seq<char>) -> Seq<char> {
    "plugin name `"@ + name
        + "` does not match required pattern:                  must be lowercase alphanumeric with optional . or - separators,                  cannot contain -- or .."@
}

/// Why a manifest is refused, if it is.
pub open spec fn manifest_refusal(m: PluginManifest) -> Option<Seq<char>> {
    if !valid_plugin_name(m.name@) {
        Some(bad_name_message(m.name@))
    } else if m.version@.len() == 0 {
        Some("plugin version must not be empty"@)
    } else {
        None
    }
}

impl PluginManifest {
    /// Checks the name rule, then that the version is not empty; failures are
    /// `InvalidArguments`.
    pub fn validate(&self) -> (r: Result<(), AgentError>)
        ensures
            match manifest_refusal(*self) {
                None => r is Ok,
                Some(msg) => r matches Err(AgentError::InvalidArguments(m)) && m@ == msg,
            },
    {
        if !is_valid_plugin_name(self.name.as_str()) {
            let mut m = String::from_str("plugin name `");
            m.append(self.name.as_str());
            m.append(
                "` does not match required pattern:                  must be lowercase alphanumeric with optional . or - separators,                  cannot contain -- or ..",
            );
            return Err(AgentError::InvalidArguments(m));
        }
        if self.version.unicode_len() == 0 {
            return Err(AgentError::InvalidArguments(String::from_str("plugin version must not be empty")));
        }
        Ok(())
    }
}

} // verus!
