use adfeed::cycle::{
    configured_urls, cycle_partitions, is_soft_block, partition_urls, WORKER_POOL_SIZE,
};
use adfeed::filter::UrlFilters;
use adfeed::strmap::StrMap;
use adfeed::worker::{
    FetchWorker, RetryDecision, RetryState, WorkerAction, RETRY_CEILING_MS,
};

fn strings(v: &[&str]) -> Vec<String> {
    v.iter().map(|s| s.to_string()).collect()
}

#[test]
fn partition_is_round_robin() {
    let urls = strings(&["a", "b", "c", "d", "e", "f", "g"]);
    let parts = partition_urls(&urls, WORKER_POOL_SIZE);
    assert_eq!(parts, vec![strings(&["a", "d", "g"]), strings(&["b", "e"]), strings(&["c", "f"])]);
}

#[test]
fn partition_never_exceeds_url_count() {
    let urls = strings(&["a", "b"]);
    assert_eq!(partition_urls(&urls, 3), vec![strings(&["a"]), strings(&["b"])]);
    assert!(partition_urls(&Vec::new(), 3).is_empty());
}

#[test]
fn configured_urls_follow_key_order() {
    let mut f = StrMap::new();
    f.insert("https://b".to_string(), StrMap::new());
    f.insert("https://a".to_string(), StrMap::new());
    assert_eq!(configured_urls(&f), strings(&["https://b", "https://a"]));
}

#[test]
fn soft_block_detection() {
    assert!(is_soft_block("https://www.facebook.com/LOGIN/?next=x"));
    assert!(is_soft_block("https://facebook.com/checkpoint/123"));
    assert!(!is_soft_block("https://facebook.com/marketplace/item/1"));
}

#[test]
fn backoff_loop_with_sixty_second_ceiling_gives_up() {
    let mut retry = RetryState::new(RETRY_CEILING_MS);
    let mut delay: u64 = 500;
    let mut rounds = 0;
    loop {
        rounds += 1;
        assert!(rounds < 1000);
        match retry.on_failure(0, Some(delay)) {
            RetryDecision::Wait(d) => assert_eq!(d, delay),
            RetryDecision::GiveUp => break,
        }
        delay = delay * 3 / 2;
    }
    assert!(retry.exhausted);
    assert!(retry.elapsed_ms >= 60_000);
    assert_eq!(retry.on_failure(0, Some(1)), RetryDecision::GiveUp);
}

#[test]
fn no_proposed_delay_waits_out_the_budget() {
    let mut retry = RetryState::new(RETRY_CEILING_MS);
    assert_eq!(retry.on_failure(10, Some(100)), RetryDecision::Wait(100));
    assert_eq!(retry.elapsed_ms, 110);
    assert_eq!(retry.on_failure(49_890, None), RetryDecision::Wait(10_000));
    assert!(!retry.exhausted);
    assert_eq!(retry.elapsed_ms, 60_000);
    assert_eq!(retry.on_failure(0, None), RetryDecision::GiveUp);
    assert!(retry.exhausted);
}

#[test]
fn worker_walks_its_partition() {
    let mut w = FetchWorker::new(strings(&["u1", "u2"]), 1_000);
    assert!(matches!(w.next_action(), WorkerAction::OpenSession));
    w.attempt_failed(10, Some(200));
    assert!(matches!(w.next_action(), WorkerAction::Sleep(200)));
    w.slept();
    assert!(matches!(w.next_action(), WorkerAction::OpenSession));
    w.session_opened();
    match w.next_action() {
        WorkerAction::Fetch(u) => assert_eq!(u, "u1"),
        other => panic!("unexpected {:?}", other),
    }
    w.page_done(3_000);
    assert!(matches!(w.next_action(), WorkerAction::Sleep(3_000)));
    w.slept();
    match w.next_action() {
        WorkerAction::Fetch(u) => assert_eq!(u, "u2"),
        other => panic!("unexpected {:?}", other),
    }
    w.attempt_failed(2_000, Some(100));
    assert!(matches!(w.next_action(), WorkerAction::CloseSession));
    w.session_closed();
    assert!(w.is_done());
    assert!(matches!(w.next_action(), WorkerAction::Finish));
}

#[test]
fn worker_that_cannot_open_a_session_fetches_nothing() {
    let mut w = FetchWorker::new(strings(&["u1"]), 100);
    w.attempt_failed(50, None);
    assert!(matches!(w.next_action(), WorkerAction::Sleep(50)));
    w.slept();
    assert!(matches!(w.next_action(), WorkerAction::OpenSession));
    w.attempt_failed(60, None);
    assert!(w.is_done());
    assert_eq!(w.position(), 0);
    assert!(matches!(w.next_action(), WorkerAction::Finish));
    w.session_opened();
    assert!(w.is_done());
}

#[test]
fn cycle_partitions_of_configured_urls() {
    let mut f: UrlFilters = StrMap::new();
    for u in ["https://1", "https://2", "https://3", "https://4"] {
        f.insert(u.to_string(), StrMap::new());
    }
    let parts = cycle_partitions(&f);
    assert_eq!(
        parts,
        vec![strings(&["https://1", "https://4"]), strings(&["https://2"]), strings(&["https://3"])]
    );
    let empty: UrlFilters = StrMap::new();
    assert!(cycle_partitions(&empty).is_empty());
}

#[test]
fn worker_whose_session_never_opens_gives_up_at_the_ceiling() {
    let mut w = FetchWorker::new(strings(&["u1", "u2"]), RETRY_CEILING_MS);
    let mut delay: u64 = 500;
    let mut slept: u64 = 0;
    let mut attempts: u64 = 0;
    loop {
        match w.next_action() {
            WorkerAction::OpenSession => {
                attempts += 1;
                assert!(attempts < 1000);
                w.attempt_failed(100, Some(delay));
            }
            WorkerAction::Sleep(ms) => {
                slept += ms;
                delay = delay * 3 / 2;
                w.slept();
            }
            WorkerAction::Finish => break,
            other => panic!("unexpected {:?}", other),
        }
    }
    assert!(w.is_done());
    assert_eq!(w.position(), 0);
    assert!(slept + attempts * 100 >= 60_000);
}
