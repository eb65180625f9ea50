use nat_harness::bootstrap::get_bootstrap_nodes;
use nat_harness::classify::{is_connected, traversal_counts, TraversalCounts};
use nat_harness::error::HarnessError;
use nat_harness::stages::{advance, Advance, Stage};

#[test]
fn classifier_positive_peer_count() {
    assert!(is_connected("INFO Total connected peers: 3"));
}

#[test]
fn classifier_positive_connected_to() {
    assert!(is_connected("INFO Connected to 12D3KooWABC"));
}

#[test]
fn classifier_negative() {
    let log = "INFO starting\nWARN dial failed\n";
    assert!(!is_connected(log));
    assert_eq!(traversal_counts(log), TraversalCounts { dcutr: 0, autonat: 0, reachability: 0 });
}

#[test]
fn classifier_negative_with_markers() {
    let log = "AutoNAT probe sent\nReachability: Private\nAutoNAT result";
    assert!(!is_connected(log));
    assert_eq!(traversal_counts(log), TraversalCounts { dcutr: 0, autonat: 2, reachability: 1 });
}

#[test]
fn classifier_is_case_sensitive() {
    assert!(!is_connected("connected to peer; total connected peers: 2"));
}

#[test]
fn marker_counting() {
    let log = "DCUtR start\nDCUtR attempt\nrelay ok DCUtR done\ndcutr lower";
    assert_eq!(traversal_counts(log).dcutr, 3);
}

#[test]
fn marker_counting_adjacent() {
    assert_eq!(traversal_counts("DCUtRDCUtRDCUtR").dcutr, 3);
}

#[test]
fn bootstrap_nodes_static() {
    let a = get_bootstrap_nodes();
    let b = get_bootstrap_nodes();
    assert!(!a.is_empty());
    assert_eq!(a, b);
    assert_eq!(
        a[0],
        "/ip4/35.237.133.42/tcp/4001/p2p/12D3KooWBeY3FuPXggnUu8f56TQde1xfvFpdsLV5coXptn5ztVJG"
    );
    for addr in &a {
        assert!(addr.starts_with('/'));
        assert!(addr.contains("/p2p/12D3"));
    }
}

#[test]
fn stages_run_in_order() {
    let mut stage = Stage::Cleanup;
    let mut seen = vec![stage];
    while stage != Stage::Complete {
        match advance(stage, true) {
            Advance::Next(next) => stage = next,
            Advance::Abort(e) => panic!("unexpected {:?}", e),
        }
        seen.push(stage);
    }
    assert_eq!(seen.len(), 10);
    assert_eq!(seen[3], Stage::PeerIdExtraction);
    assert_eq!(advance(Stage::Complete, true), Advance::Next(Stage::Complete));
}

#[test]
fn fatal_stage_failures() {
    assert_eq!(advance(Stage::ImageBuild, false), Advance::Abort(HarnessError::BuildFailed));
    assert_eq!(advance(Stage::BootstrapStart, false), Advance::Abort(HarnessError::BootstrapStartFailed));
    assert_eq!(
        advance(Stage::PeerIdExtraction, false),
        Advance::Abort(HarnessError::ExtractionTimeout { attempts: 20 })
    );
    assert_eq!(advance(Stage::AllPeersStart, false), Advance::Abort(HarnessError::PeerStartFailed));
}

#[test]
fn non_fatal_stage_failures() {
    assert_eq!(advance(Stage::Cleanup, false), Advance::Next(Stage::ImageBuild));
    assert_eq!(advance(Stage::ConfigRewrite, false), Advance::Next(Stage::AllPeersStart));
    assert_eq!(advance(Stage::VerificationReport, false), Advance::Next(Stage::Complete));
}
