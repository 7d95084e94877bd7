use meowth::es_manager::{ESClient, ESManager, PingRecord, PingStep, PushRecord, UrlView};

/// A client whose node is down when its url says so.
struct FakeClient {
    up: bool,
}

impl ESClient for FakeClient {
    // The records are ghost: only the verifier reads them.
    fn url(&self) -> UrlView {
        unreachable!()
    }

    fn pings(&self) -> PingRecord {
        unreachable!()
    }

    fn pushes(&self) -> PushRecord {
        unreachable!()
    }

    fn new(url: &String) -> Self {
        FakeClient { up: !url.starts_with("down") }
    }

    fn push_messages(&mut self, _index_str: &String, _data: &Vec<String>) -> bool {
        self.up
    }

    fn ping(&mut self) -> bool {
        self.up
    }
}

fn urls(list: &[&str]) -> Vec<String> {
    list.iter().map(|s| s.to_string()).collect()
}

#[test]
fn new_manager_starts_at_first_client() {
    let m: ESManager<FakeClient> = ESManager::new(urls(&["a", "b", "c"]));
    assert_eq!(m.client_count(), 3);
    assert_eq!(m.current_index(), 0);
    assert_eq!(m.pending_retries(), 0);
}

#[test]
fn cursor_cycles_through_clients() {
    let mut m: ESManager<FakeClient> = ESManager::new(urls(&["a", "b", "c"]));
    let mut seen = Vec::new();
    for _ in 0..7 {
        m.advance_cursor();
        seen.push(m.current_index());
    }
    assert_eq!(seen, vec![1, 2, 0, 1, 2, 0, 1]);
}

#[test]
fn refused_push_is_queued_and_accepted_retry_leaves_queue() {
    let mut m: ESManager<FakeClient> = ESManager::new(urls(&["down-1", "b"]));
    let data = vec!["x".to_string(), "y".to_string()];
    assert!(!m.push_messages(&"logs-2018.01.5".to_string(), &data));
    assert_eq!(m.pending_retries(), 1);
    // Still refused by the same client: it stays queued.
    assert_eq!(m.retry_next(), Some(false));
    assert_eq!(m.pending_retries(), 1);
    m.advance_cursor();
    assert_eq!(m.retry_next(), Some(true));
    assert_eq!(m.pending_retries(), 0);
    assert_eq!(m.retry_next(), None);
}

#[test]
fn accepted_push_queues_nothing() {
    let mut m: ESManager<FakeClient> = ESManager::new(urls(&["a"]));
    assert!(m.push_messages(&"i".to_string(), &vec!["x".to_string()]));
    assert_eq!(m.pending_retries(), 0);
}

#[test]
fn ping_steps_follow_the_failure_count() {
    let mut m: ESManager<FakeClient> = ESManager::new(urls(&["a", "b"]));
    assert_eq!(m.after_ping(true, 0), PingStep::Reachable);
    assert_eq!(m.current_index(), 0);
    assert_eq!(m.after_ping(false, 0), PingStep::Retry(1));
    assert_eq!(m.current_index(), 1);
    assert_eq!(m.after_ping(false, 1), PingStep::Retry(2));
    assert_eq!(m.current_index(), 0);
    assert_eq!(m.after_ping(false, 2), PingStep::Exhausted);
    assert_eq!(m.current_index(), 1);
}

#[test]
fn search_stops_at_first_client_that_answers() {
    let mut m: ESManager<FakeClient> = ESManager::new(urls(&["down-a", "down-b", "c", "d"]));
    assert!(m.find_reachable_client());
    assert_eq!(m.current_index(), 2);
}

#[test]
fn search_gives_up_after_more_failures_than_clients() {
    let mut m: ESManager<FakeClient> = ESManager::new(urls(&["down-a", "down-b", "down-c"]));
    assert!(!m.find_reachable_client());
    // Four failures: the cursor moved four times from position 0.
    assert_eq!(m.current_index(), 1);
}

#[test]
fn first_push_goes_to_the_client_of_the_first_url() {
    let mut m: ESManager<FakeClient> = ESManager::new(urls(&["a", "down-b"]));
    assert!(m.push_messages(&"i".to_string(), &vec!["x".to_string()]));
    m.advance_cursor();
    assert!(!m.push_messages(&"i".to_string(), &vec!["x".to_string()]));
    assert_eq!(m.pending_retries(), 1);
}

#[test]
fn updates_with_answering_clients_go_round() {
    let mut m: ESManager<FakeClient> = ESManager::new(urls(&["a", "b", "c"]));
    let mut used = Vec::new();
    for _ in 0..6 {
        m.advance_cursor();
        assert!(m.find_reachable_client());
        used.push(m.current_index());
    }
    assert_eq!(used, vec![1, 2, 0, 1, 2, 0]);
}
