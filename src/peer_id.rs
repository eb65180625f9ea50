//! Extraction of the bootstrap node's peer identifier from its logs, with a
//! bounded number of attempts.

use vstd::prelude::*;
use crate::error::HarnessError;

verus! {

/// How many times the logs are read before giving up.
pub const MAX_ATTEMPTS: u32 = 20;

/// Seconds to wait before each attempt.
pub const RETRY_DELAY_SECS: u64 = 1;

/// A progress notice is due after every this many failed attempts.
pub const PROGRESS_EVERY: u32 = 5;

/// The log key that announces a node's own identifier.
pub const PEER_ID_KEY: &'static str = "local_peer_id=";

/// The prefix every peer identifier starts with.
pub const PEER_ID_PREFIX: &'static str = "12D3";

/// The search pattern: the key, then the identifier as capture group 1.
pub const PEER_ID_PATTERN: &'static str = "local_peer_id=(12D3[A-Za-z0-9]{44,})";

/// An ASCII letter or digit.
pub open spec fn is_id_char(c: char) -> bool {
    ('A' <= c && c <= 'Z') || ('a' <= c && c <= 'z') || ('0' <= c && c <= '9')
}

/// `t` has the shape of a peer identifier: the prefix, then at least 44
/// letters or digits and nothing else.
pub open spec fn is_peer_id(t: Seq<char>) -> bool {
    &&& t.len() >= 48
    &&& t.subrange(0, 4) == PEER_ID_PREFIX@
    &&& forall|k: int| 4 <= k < t.len() ==> is_id_char(#[trigger] t[k])
}

/// At position `i` of `s` the key stands, followed by a peer identifier of
/// the least length.
pub open spec fn announced_at(s: Seq<char>, i: int) -> bool {
    let start = i + PEER_ID_KEY@.len();
    &&& 0 <= i
    &&& start + 48 <= s.len()
    &&& s.subrange(i, start) == PEER_ID_KEY@
    &&& is_peer_id(s.subrange(start, start + 48))
}

/// Some position of `s` announces a peer identifier.
pub open spec fn announces_peer_id(s: Seq<char>) -> bool {
    exists|i: int| announced_at(s, i)
}

/// `t` is the identifier of the first announcement in `s`, taken with every
/// letter and digit that follows the prefix.
pub open spec fn first_announced_peer_id(s: Seq<char>, t: Seq<char>) -> bool {
    exists|i: int|
        {
            let start = i + PEER_ID_KEY@.len();
            let end = start + t.len();
            &&& #[trigger] announced_at(s, i)
            &&& forall|j: int| 0 <= j < i ==> !announced_at(s, j)
            &&& end <= s.len()
            &&& t == s.subrange(start, end)
            &&& is_peer_id(t)
            &&& (end == s.len() || !is_id_char(s[end]))
        }
}

/// Relies on `regex::Regex::new`, `regex::Regex::captures` and
/// `regex::Captures::get`: the fixed pattern compiles, the search finds the
/// leftmost match, and the repetition in group 1 is greedy, so the group
/// holds the identifier of the first announcement with all the letters and
/// digits that follow it.
#[verifier::external_body]
fn find_peer_id(text: &str) -> (r: Option<String>)
    ensures
        r is None <==> !announces_peer_id(text@),
        r matches Some(t) ==> first_announced_peer_id(text@, t@),
{
    let re = regex::Regex::new(PEER_ID_PATTERN).ok()?;
    let caps = re.captures(text)?;
    caps.get(1).map(|m| m.as_str().to_string())
}

/// What one attempt decided.
#[derive(Debug)]
pub enum PollStep {
    /// The identifier was found on attempt `attempt`; no attempt follows.
    Found { peer_id: String, attempt: u32 },
    /// Attempt `attempt` found nothing and another one is due;
    /// `report_progress` says whether a progress notice is due first.
    Retry { attempt: u32, report_progress: bool },
    /// The last allowed attempt found nothing.
    Exhausted { attempts: u32 },
}

/// Decides one attempt, given how many attempts were made before it and the
/// log text that this attempt read.
pub fn poll_step(attempts_made: u32, capture: &str) -> (r: PollStep)
    requires
        attempts_made < MAX_ATTEMPTS,
    ensures
        match r {
            PollStep::Found { peer_id, attempt } => {
                &&& attempt == attempts_made + 1
                &&& first_announced_peer_id(capture@, peer_id@)
            },
            PollStep::Retry { attempt, report_progress } => {
                &&& !announces_peer_id(capture@)
                &&& attempt == attempts_made + 1
                &&& attempt < MAX_ATTEMPTS
                &&& report_progress == (attempt % PROGRESS_EVERY == 0)
            },
            PollStep::Exhausted { attempts } => {
                &&& !announces_peer_id(capture@)
                &&& attempts_made + 1 == MAX_ATTEMPTS
                &&& attempts == MAX_ATTEMPTS
            },
        },
{
    let attempt = attempts_made + 1;
    match find_peer_id(capture) {
        Some(peer_id) => PollStep::Found { peer_id, attempt },
        None => {
            if attempt < MAX_ATTEMPTS {
                PollStep::Retry { attempt, report_progress: attempt % PROGRESS_EVERY == 0 }
            } else {
                PollStep::Exhausted { attempts: attempt }
            }
        },
    }
}

/// The identifier and the attempt on which it was found.
#[derive(Debug)]
pub struct PeerIdFound {
    pub peer_id: String,
    pub attempt: u32,
}

/// The log text read on attempt `k + 1`: the `k`-th capture, or nothing
/// when the list has run out.
pub open spec fn attempt_text(captures: Seq<String>, k: int) -> Seq<char> {
    if 0 <= k < captures.len() {
        captures[k]@
    } else {
        Seq::empty()
    }
}

/// Runs the attempts over a list of log captures, one per attempt, and
/// stops at the first that announces an identifier.
pub fn extract_peer_id(captures: &Vec<String>) -> (r: Result<PeerIdFound, HarnessError>)
    ensures
        match r {
            Ok(found) => {
                &&& 1 <= found.attempt <= MAX_ATTEMPTS
                &&& first_announced_peer_id(
                    attempt_text(captures@, found.attempt - 1),
                    found.peer_id@,
                )
                &&& forall|k: int|
                    0 <= k < found.attempt - 1 ==> !announces_peer_id(
                        #[trigger] attempt_text(captures@, k),
                    )
            },
            Err(e) => {
                &&& e == HarnessError::ExtractionTimeout { attempts: MAX_ATTEMPTS }
                &&& forall|k: int|
                    0 <= k < MAX_ATTEMPTS ==> !announces_peer_id(
                        #[trigger] attempt_text(captures@, k),
                    )
            },
        },
{
    let mut made: u32 = 0;
    loop
        invariant
            made < MAX_ATTEMPTS,
            forall|k: int|
                0 <= k < made ==> !announces_peer_id(#[trigger] attempt_text(captures@, k)),
        decreases MAX_ATTEMPTS - made,
    {
        let capture: &str = if (made as usize) < captures.len() {
            captures[made as usize].as_str()
        } else {
            proof {
                reveal_strlit("");
            }
            ""
        };
        assert(capture@ == attempt_text(captures@, made as int));
        match poll_step(made, capture) {
            PollStep::Found { peer_id, attempt } => {
                return Ok(PeerIdFound { peer_id, attempt });
            },
            PollStep::Retry { attempt, .. } => {
                made = attempt;
            },
            PollStep::Exhausted { attempts } => {
                return Err(HarnessError::ExtractionTimeout { attempts });
            },
        }
    }
}

} // verus!
