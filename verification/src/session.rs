//! Session metadata and the location of a session's transcript. Keeping the
//! messages and writing the transcript is done by the application.

use vstd::prelude::*;

use crate::clock::{now_unix_nanos, now_unix_secs};
use crate::text::{decimal, push_decimal};

verus! {

/// Session metadata (no secrets).
#[derive(Debug, Clone)]
pub struct SessionMeta {
    /// The session id, `session_<nanoseconds since the epoch>`.
    pub session_id: String,
    /// The workspace directory.
    pub workspace: String,
    /// When the session was created (Unix seconds).
    pub created_at: u64,
    /// The model used, if known.
    pub model: Option<String>,
}

impl SessionMeta {
    /// The metadata of a session created now.
    pub fn new(workspace: String, model: Option<String>) -> (m: Self)
        ensures
            exists|n: nat| m.session_id@ == "session_"@ + decimal(n),
            m.workspace == workspace,
            m.model == model,
    {
        let nanos = now_unix_nanos();
        let secs = now_unix_secs();
        let mut id = String::from_str("session_");
        push_decimal(&mut id, nanos);
        SessionMeta { session_id: id, workspace, created_at: secs, model }
    }
}

/// A transcript kept as one JSON line per message in a file.
#[derive(Debug, Clone)]
pub struct JsonlTranscript {
    /// The transcript file.
    pub path: String,
}

impl JsonlTranscript {
    /// A transcript in the file at `path`.
    pub fn new(path: String) -> (t: Self)
        ensures
            t.path == path,
    {
        JsonlTranscript { path }
    }
}

} // verus!
