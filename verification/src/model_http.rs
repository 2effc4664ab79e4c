//! The OpenAI-compatible HTTP model adapter's configuration and the reading
//! of a reply into a decision. Sending the request is done by the application.

use vstd::prelude::*;

use crate::domain::{call_refusal, Decision, ToolArgument, ToolCall};
use crate::error::AgentError;

verus! {

/// The adapter's configuration.
#[derive(Debug, Clone)]
pub struct HttpConfig {
    /// The endpoint without a path, such as `https://api.openai.com`.
    pub endpoint: String,
    /// The request path, by default `/v1/chat/completions`.
    pub path: String,
    /// The model name.
    pub model: String,
    /// The API key.
    pub api_key: String,
}

/// `s` without its trailing `c`s (`str::trim_end_matches`).
pub open spec fn trim_end_char(s: Seq<char>, c: char) -> Seq<char>
    decreases s.len(),
{
    if s.len() > 0 && s.last() == c {
        trim_end_char(s.drop_last(), c)
    } else {
        s
    }
}

/// `s` without its leading `c`s (`str::trim_start_matches`).
pub open spec fn trim_start_char(s: Seq<char>, c: char) -> Seq<char>
    decreases s.len(),
{
    if s.len() > 0 && s[0] == c {
        trim_start_char(s.drop_first(), c)
    } else {
        s
    }
}

proof fn lemma_trim_end_char(s: Seq<char>, c: char, k: int)
    requires
        0 <= k <= s.len(),
        forall|i: int| k <= i < s.len() ==> s[i] == c,
        k == 0 || s[k - 1] != c,
    ensures
        trim_end_char(s, c) == s.take(k),
    decreases s.len() - k,
{
    if k < s.len() {
        lemma_trim_end_char(s.drop_last(), c, k);
        assert(s.drop_last().take(k) =~= s.take(k));
    } else {
        assert(s.take(k) =~= s);
    }
}

proof fn lemma_trim_start_char(s: Seq<char>, c: char, k: int)
    requires
        0 <= k <= s.len(),
        forall|i: int| 0 <= i < k ==> s[i] == c,
        k == s.len() || s[k] != c,
    ensures
        trim_start_char(s, c) == s.skip(k),
    decreases k,
{
    if k > 0 {
        lemma_trim_start_char(s.drop_first(), c, k - 1);
        assert(s.drop_first().skip(k - 1) =~= s.skip(k));
    } else {
        assert(s.skip(0) =~= s);
    }
}

fn strip_slashes(s: &str, trailing: bool) -> (r: String)
    ensures
        r@ == if trailing {
            trim_end_char(s@, '/')
        } else {
            trim_start_char(s@, '/')
        },
{
    let v = crate::text::chars_of(s);
    let n = v.len();
    if trailing {
        let mut b: usize = n;
        while b > 0 && v[b - 1] == '/'
            invariant
                v@ == s@,
                n == v@.len(),
                b <= n,
                forall|i: int| b <= i < n ==> v@[i] == '/',
            decreases b,
        {
            b = b - 1;
        }
        proof {
            lemma_trim_end_char(s@, '/', b as int);
        }
        assert(v@.subrange(0, b as int) =~= s@.take(b as int));
        crate::text::string_of_range(v.as_slice(), 0, b)
    } else {
        let mut a: usize = 0;
        while a < n && v[a] == '/'
            invariant
                v@ == s@,
                n == v@.len(),
                a <= n,
                forall|i: int| 0 <= i < a ==> v@[i] == '/',
            decreases n - a,
        {
            a = a + 1;
        }
        proof {
            lemma_trim_start_char(s@, '/', a as int);
        }
        assert(v@.subrange(a as int, n as int) =~= s@.skip(a as int));
        crate::text::string_of_range(v.as_slice(), a, n)
    }
}

impl HttpConfig {
    /// A configuration with the default path `/v1/chat/completions`.
    pub fn new(endpoint: String, model: String, api_key: String) -> (c: Self)
        ensures
            c.endpoint == endpoint,
            c.path@ == "/v1/chat/completions"@,
            c.model == model,
            c.api_key == api_key,
    {
        HttpConfig { endpoint, path: String::from_str("/v1/chat/completions"), model, api_key }
    }

    /// The same configuration with another path.
    pub fn with_path(self, path: String) -> (c: Self)
        ensures
            c.endpoint == self.endpoint,
            c.path == path,
            c.model == self.model,
            c.api_key == self.api_key,
    {
        HttpConfig { path, ..self }
    }

    /// The request URL: the endpoint without trailing `/`, one `/`, the path
    /// without leading `/`.
    pub fn url(&self) -> (u: String)
        ensures
            u@ == trim_end_char(self.endpoint@, '/') + "/"@ + trim_start_char(self.path@, '/'),
    {
        let mut u = strip_slashes(self.endpoint.as_str(), true);
        u.append("/");
        let p = strip_slashes(self.path.as_str(), false);
        u.append(p.as_str());
        u
    }
}

/// Whether a text is valid JSON (what `serde_json::from_str::<Value>` accepts).
pub uninterp spec fn json_valid(text: Seq<char>) -> bool;

/// The value that `serde_json::from_str::<Value>` parses from a text.
pub uninterp spec fn parsed_json(text: Seq<char>) -> serde_json::Value;

/// Parses JSON text into a value (`serde_json::from_str::<serde_json::Value>`);
/// it succeeds exactly when the name `json_valid` holds of the text, and the
/// value is the one named `parsed_json` of the text. The error is the
/// parser's message.
#[verifier::external_body]
fn parse_json(text: &str) -> (r: Result<serde_json::Value, String>)
    ensures
        r is Ok <==> json_valid(text@),
        r matches Ok(v) ==> v == parsed_json(text@),
{
    serde_json::from_str::<serde_json::Value>(text).map_err(|e| e.to_string())
}

/// The decision a reply gives: its first tool call, `(id, name, arguments
/// as JSON text)`, if it has one, with the arguments parsed from that text;
/// else `Done` with the reply's text (empty when it has none).
pub fn parse_decision(first_call: Option<(String, String, String)>, content: Option<String>) -> (r: Result<
    Decision,
    AgentError,
>)
    ensures
        match first_call {
            None => r matches Ok(Decision::Done { summary }) && summary@ == match content {
                Some(c) => c@,
                None => Seq::<char>::empty(),
            },
            Some((id, name, args)) => if !json_valid(args@) {
                r matches Err(AgentError::UnparseableDecision(m)) && m@.len() >= 20
                    && m@.take(20) == "tool args not JSON: "@
            } else {
                match call_refusal(id@, name@) {
                    None => r matches Ok(Decision::Call(c)) && c.id == id && c.name == name
                        && c.arguments.value() == parsed_json(args@),
                    Some(m) => r matches Err(AgentError::UnparseableDecision(x)) && x@ == m,
                }
            },
        },
{
    match first_call {
        Some((id, name, args)) => {
            let value = match parse_json(args.as_str()) {
                Ok(v) => v,
                Err(e) => {
                    let mut m = String::from_str("tool args not JSON: ");
                    proof {
                        reveal_strlit("tool args not JSON: ");
                    }
                    let ghost head = m@;
                    m.append(e.as_str());
                    assert(m@.take(20) =~= head);
                    return Err(AgentError::UnparseableDecision(m));
                },
            };
            match ToolCall::new(id, name, ToolArgument::new(value)) {
                Ok(call) => Ok(Decision::Call(call)),
                Err(e) => Err(e),
            }
        },
        None => {
            let summary = match content {
                Some(c) => c,
                None => String::new(),
            };
            Ok(Decision::Done { summary })
        },
    }
}

} // verus!
