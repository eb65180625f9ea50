use nat_harness::error::HarnessError;
use nat_harness::peer_id::{extract_peer_id, poll_step, PollStep, MAX_ATTEMPTS};

const TOKEN: &str = "12D3KooWBeY3FuPXggnUu8f56TQde1xfvFpdsLV5coXptn5ztVJG";

fn announce(token: &str) -> String {
    format!("2024-05-01T10:00:00Z INFO node started local_peer_id={} listening", token)
}

#[test]
fn extraction_success_stops_at_first_match() {
    let captures = vec![
        String::new(),
        "starting up".to_string(),
        announce(TOKEN),
        announce("12D3KooWZZZZZZZZZZZZZZZZZZZZZZZZZZZZZZZZZZZZZZZZZZZZ"),
    ];
    let found = extract_peer_id(&captures).unwrap();
    assert_eq!(found.peer_id, TOKEN);
    assert_eq!(found.attempt, 3);
}

#[test]
fn extraction_on_first_attempt() {
    let captures = vec![announce(TOKEN)];
    let found = extract_peer_id(&captures).unwrap();
    assert_eq!(found.peer_id, TOKEN);
    assert_eq!(found.attempt, 1);
}

#[test]
fn extraction_timeout_after_all_attempts() {
    let captures: Vec<String> = (0..25).map(|i| format!("log line {}", i)).collect();
    let err = extract_peer_id(&captures).unwrap_err();
    assert_eq!(err, HarnessError::ExtractionTimeout { attempts: 20 });
    assert_eq!(MAX_ATTEMPTS, 20);
}

#[test]
fn extraction_timeout_with_no_captures() {
    let err = extract_peer_id(&Vec::new()).unwrap_err();
    assert_eq!(err, HarnessError::ExtractionTimeout { attempts: MAX_ATTEMPTS });
}

#[test]
fn match_on_last_attempt_still_counts() {
    let mut captures: Vec<String> = vec![String::new(); 19];
    captures.push(announce(TOKEN));
    let found = extract_peer_id(&captures).unwrap();
    assert_eq!(found.attempt, 20);
    captures.swap(19, 0);
    captures.insert(0, String::new());
    // now the announcement sits on attempt 2
    let found = extract_peer_id(&captures).unwrap();
    assert_eq!(found.attempt, 2);
}

#[test]
fn match_beyond_last_attempt_is_ignored() {
    let mut captures: Vec<String> = vec![String::new(); 20];
    captures.push(announce(TOKEN));
    let err = extract_peer_id(&captures).unwrap_err();
    assert_eq!(err, HarnessError::ExtractionTimeout { attempts: 20 });
}

#[test]
fn short_identifier_is_not_a_match() {
    // 47 characters in all: one short of the least length
    let short = &TOKEN[..47];
    let step = poll_step(0, &announce(short));
    assert!(matches!(step, PollStep::Retry { attempt: 1, report_progress: false }));
}

#[test]
fn identifier_of_least_length_matches() {
    let least = &TOKEN[..48];
    match poll_step(0, &format!("local_peer_id={}", least)) {
        PollStep::Found { peer_id, attempt } => {
            assert_eq!(peer_id, least);
            assert_eq!(attempt, 1);
        }
        other => panic!("unexpected {:?}", other),
    }
}

#[test]
fn identifier_stops_at_first_non_alphanumeric() {
    let text = format!("x local_peer_id={}-rest local_peer_id=12D3{}", TOKEN, "A".repeat(50));
    match poll_step(4, &text) {
        PollStep::Found { peer_id, attempt } => {
            assert_eq!(peer_id, TOKEN);
            assert_eq!(attempt, 5);
        }
        other => panic!("unexpected {:?}", other),
    }
}

#[test]
fn wrong_prefix_is_not_a_match() {
    let text = format!("local_peer_id=Qm{}", &TOKEN[2..]);
    assert!(matches!(poll_step(0, &text), PollStep::Retry { .. }));
}

#[test]
fn progress_notice_every_fifth_attempt() {
    assert!(matches!(poll_step(3, ""), PollStep::Retry { attempt: 4, report_progress: false }));
    assert!(matches!(poll_step(4, ""), PollStep::Retry { attempt: 5, report_progress: true }));
    assert!(matches!(poll_step(9, ""), PollStep::Retry { attempt: 10, report_progress: true }));
    assert!(matches!(poll_step(18, ""), PollStep::Retry { attempt: 19, report_progress: false }));
    assert!(matches!(poll_step(19, ""), PollStep::Exhausted { attempts: 20 }));
}

#[test]
fn timeout_message_names_the_logs() {
    let msg = HarnessError::ExtractionTimeout { attempts: 20 }.message();
    assert!(msg.contains("docker logs chiral-bootstrap"));
    assert_eq!(HarnessError::BuildFailed.message(), "Build failed");
    assert_eq!(HarnessError::BootstrapStartFailed.message(), "Bootstrap start failed");
    assert_eq!(HarnessError::PeerStartFailed.message(), "Peer start failed");
}
