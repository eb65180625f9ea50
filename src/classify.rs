//! Best-effort reading of a node's logs: whether it reports a connection,
//! and how often NAT-traversal protocols are mentioned.

use vstd::prelude::*;
use crate::text::{
    contains, contains_text, count_matches, lemma_count_is_occurrences,
    lemma_count_zero_iff_absent, match_count, occurrence_count, unbordered,
};

verus! {

/// Log line fragment written when a connection is made.
pub const CONNECTED_MARKER: &'static str = "Connected to";

/// Log line fragment written with the current peer count.
pub const PEER_COUNT_MARKER: &'static str = "Total connected peers";

/// Mention of direct connection upgrade through relay.
pub const DCUTR_MARKER: &'static str = "DCUtR";

/// Mention of automatic NAT detection.
pub const AUTONAT_MARKER: &'static str = "AutoNAT";

/// Mention of a reachability verdict.
pub const REACHABILITY_MARKER: &'static str = "Reachability";

/// The log reports a connection.
pub open spec fn reports_connection(log: Seq<char>) -> bool {
    contains(log, CONNECTED_MARKER@) || contains(log, PEER_COUNT_MARKER@)
}

/// Whether the log reports a connection. Absence of both fragments is a
/// negative answer, not a failure.
pub fn is_connected(log: &str) -> (r: bool)
    ensures
        r == reports_connection(log@),
{
    contains_text(log, CONNECTED_MARKER) || contains_text(log, PEER_COUNT_MARKER)
}

/// How often each traversal marker appears in a log.
#[derive(Debug, Clone, Copy, PartialEq, Eq, Structural)]
pub struct TraversalCounts {
    pub dcutr: usize,
    pub autonat: usize,
    pub reachability: usize,
}

/// The three traversal markers have no border, so their occurrences never
/// overlap.
proof fn lemma_markers_unbordered()
    ensures
        DCUTR_MARKER@.len() > 0,
        AUTONAT_MARKER@.len() > 0,
        REACHABILITY_MARKER@.len() > 0,
        unbordered(DCUTR_MARKER@),
        unbordered(AUTONAT_MARKER@),
        unbordered(REACHABILITY_MARKER@),
{
    reveal_strlit("DCUtR");
    reveal_strlit("AutoNAT");
    reveal_strlit("Reachability");
    let d = DCUTR_MARKER@;
    assert forall|k: int| 0 < k < d.len() implies #[trigger] d.subrange(0, k) != d.subrange(
        d.len() - k,
        d.len() as int,
    ) by {
        assert(d.subrange(0, k)[0] != d.subrange(d.len() - k, d.len() as int)[0]);
    }
    let a = AUTONAT_MARKER@;
    assert forall|k: int| 0 < k < a.len() implies #[trigger] a.subrange(0, k) != a.subrange(
        a.len() - k,
        a.len() as int,
    ) by {
        if k == 2 {
            assert(a.subrange(0, k)[1] != a.subrange(a.len() - k, a.len() as int)[1]);
        } else {
            assert(a.subrange(0, k)[0] != a.subrange(a.len() - k, a.len() as int)[0]);
        }
    }
    let r = REACHABILITY_MARKER@;
    assert forall|k: int| 0 < k < r.len() implies #[trigger] r.subrange(0, k) != r.subrange(
        r.len() - k,
        r.len() as int,
    ) by {
        assert(r.subrange(0, k)[0] != r.subrange(r.len() - k, r.len() as int)[0]);
    }
}

/// Counts the traversal markers in a log; case is significant. A count is
/// zero exactly when its marker does not appear.
pub fn traversal_counts(log: &str) -> (r: TraversalCounts)
    ensures
        r.dcutr == match_count(log@, DCUTR_MARKER@),
        r.autonat == match_count(log@, AUTONAT_MARKER@),
        r.reachability == match_count(log@, REACHABILITY_MARKER@),
        (r.dcutr == 0) == !contains(log@, DCUTR_MARKER@),
        (r.autonat == 0) == !contains(log@, AUTONAT_MARKER@),
        (r.reachability == 0) == !contains(log@, REACHABILITY_MARKER@),
{
    proof {
        lemma_markers_unbordered();
        lemma_count_zero_iff_absent(log@, DCUTR_MARKER@);
        lemma_count_zero_iff_absent(log@, AUTONAT_MARKER@);
        lemma_count_zero_iff_absent(log@, REACHABILITY_MARKER@);
    }
    TraversalCounts {
        dcutr: count_matches(log, DCUTR_MARKER),
        autonat: count_matches(log, AUTONAT_MARKER),
        reachability: count_matches(log, REACHABILITY_MARKER),
    }
}

/// Each traversal count is the number of places where its marker occurs in
/// the log: no occurrence is lost to the left-to-right count.
pub proof fn lemma_marker_counts_are_occurrences(log: Seq<char>)
    ensures
        match_count(log, DCUTR_MARKER@) == occurrence_count(log, DCUTR_MARKER@),
        match_count(log, AUTONAT_MARKER@) == occurrence_count(log, AUTONAT_MARKER@),
        match_count(log, REACHABILITY_MARKER@) == occurrence_count(log, REACHABILITY_MARKER@),
{
    lemma_markers_unbordered();
    lemma_count_is_occurrences(log, DCUTR_MARKER@);
    lemma_count_is_occurrences(log, AUTONAT_MARKER@);
    lemma_count_is_occurrences(log, REACHABILITY_MARKER@);
}

} // verus!
