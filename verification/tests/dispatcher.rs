use std::str::FromStr;
use std::sync::Arc;

use minigun::elapsed::Elapsed;

use minigun::options::{Header, HttpClientType, Options, TargetParameters, TestParameters};
use minigun::test_dispatcher::{TestCommand, TestDispatcher, TestState, TestSuiteRequest};

fn target() -> TargetParameters {
    TargetParameters {
        body: Some("payload".to_string()),
        headers: vec![Header::from_str("Accept: */*").unwrap()],
        method: "POST".to_string(),
        url: "https://example.org".to_string(),
    }
}

fn command(connection_count: u32, request_count: u32, headers: Vec<Header>) -> TestCommand {
    let options = Options::from_params(
        TestParameters {
            connection_count,
            request_count,
            debug: false,
            output: None,
            client: HttpClientType::Isahc,
        },
        TargetParameters {
            body: None,
            headers,
            method: "GET".to_string(),
            url: "https://example.org".to_string(),
        },
    );
    TestCommand::new(Box::new(options))
}

#[test]
fn test_generating_test_requests() {
    let command = command(2, 10, vec![Header::from_str("Authorization: SomeKey").unwrap()]);
    let tests = TestDispatcher::generate_test_request_suites(&command);
    assert_eq!(tests[0].request_count.len(), 5);
    assert_eq!(tests[1].request_count.len(), 5);
}

#[test]
fn test_generating_test_requests_with_uniformity() {
    let command = command(3, 40, vec![]);
    let tests = TestDispatcher::generate_test_request_suites(&command);
    assert_eq!(tests[0].request_count.len(), 14);
    assert_eq!(tests[1].request_count.len(), 13);
    assert_eq!(tests[1].request_count.len(), 13);
}

#[test]
fn requests_are_dealt_out_in_turn() {
    let tests = TestDispatcher::generate_test_request_suites(&command(3, 7, vec![]));
    assert_eq!(tests.len(), 3);
    assert_eq!(tests[0].client_id, 0);
    assert_eq!(tests[1].client_id, 1);
    assert_eq!(tests[2].client_id, 2);
    assert_eq!(tests[0].request_count, vec![1, 4, 7]);
    assert_eq!(tests[1].request_count, vec![2, 5]);
    assert_eq!(tests[2].request_count, vec![3, 6]);
}

#[test]
fn every_request_is_sent_once() {
    let tests = TestDispatcher::generate_test_request_suites(&command(20, 2000, vec![]));
    let mut seen = vec![0u32; 2001];
    for suite in &tests {
        assert_eq!(suite.request_count.len(), 100);
        for &n in &suite.request_count {
            assert!(n >= 1 && n <= 2000);
            assert_eq!((n - 1) % 20, suite.client_id);
            seen[n as usize] += 1;
        }
    }
    assert!(seen[1..].iter().all(|&count| count == 1));
}

#[test]
fn more_connections_than_requests() {
    let tests = TestDispatcher::generate_test_request_suites(&command(5, 2, vec![]));
    assert_eq!(tests.len(), 5);
    assert_eq!(tests[0].request_count, vec![1]);
    assert_eq!(tests[1].request_count, vec![2]);
    for suite in &tests[2..] {
        assert!(suite.request_count.is_empty());
    }
}

#[test]
fn no_connections_no_work() {
    let tests = TestDispatcher::generate_test_request_suites(&command(0, 10, vec![]));
    assert!(tests.is_empty());
}

#[test]
fn no_requests_empty_work() {
    let tests = TestDispatcher::generate_test_request_suites(&command(2, 0, vec![]));
    assert_eq!(tests.len(), 2);
    assert!(tests[0].request_count.is_empty());
    assert!(tests[1].request_count.is_empty());
}

#[test]
fn inc_request_count_appends() {
    let params = Arc::new(target());
    let mut suite = TestSuiteRequest { client_id: 4, params: Arc::clone(&params), request_count: vec![1] };
    suite.inc_request_count(9);
    assert_eq!(suite.client_id, 4);
    assert_eq!(suite.params.url, "https://example.org");
    assert_eq!(suite.request_count, vec![1, 9]);
}

#[test]
fn command_keeps_options() {
    let command = command(7, 11, vec![]);
    assert_eq!(command.options.test_parameters.connection_count, 7);
    assert_eq!(command.options.test_parameters.request_count, 11);
    assert_eq!(command.options.target_parameters.url, "https://example.org");
}

#[test]
fn fresh_state_is_empty() {
    let state = TestState::new(42);
    assert!(state.test_results.is_empty());
    assert_eq!(state.expected_request_count, 42);
    let default_state = TestState::default();
    assert!(default_state.test_results.is_empty());
    assert_eq!(default_state.expected_request_count, 0);
}

#[test]
fn timer_measures_forward() {
    let mut state = TestState::new(1);
    let begun = std::time::Instant::now();
    while begun.elapsed() < std::time::Duration::from_millis(5) {}
    state.stop_timer();
    let d = state.calculate_duration();
    assert!(d.as_secs() > 0 || d.subsec_nanos() >= 5_000_000);
    assert!(d.subsec_nanos() < 1_000_000_000);
    assert_eq!(state.expected_request_count, 1);
}

#[test]
fn every_suite_carries_the_target() {
    let options = Options::from_params(
        TestParameters {
            connection_count: 3,
            request_count: 4,
            debug: false,
            output: None,
            client: HttpClientType::H1,
        },
        target(),
    );
    let command = TestCommand::new(Box::new(options));
    let tests = TestDispatcher::generate_test_request_suites(&command);
    assert_eq!(tests.len(), 3);
    for suite in &tests {
        assert_eq!(suite.params.body.as_deref(), Some("payload"));
        assert_eq!(suite.params.method, "POST");
        assert_eq!(suite.params.url, "https://example.org");
        assert_eq!(suite.params.headers.len(), 1);
        assert_eq!(suite.params.headers[0].name, "Accept");
        assert_eq!(suite.params.headers[0].value, "*/*");
    }
}

#[test]
fn duration_is_the_recorded_finish() {
    let mut state = TestState::started_at(5, std::time::Instant::now(), Elapsed::new(0, 10));
    assert!(state.test_results.is_empty());
    assert_eq!(state.expected_request_count, 5);
    let d = state.calculate_duration();
    assert_eq!((d.as_secs(), d.subsec_nanos()), (0, 10));
    state.finish_at(Elapsed::new(3, 250));
    let d = state.calculate_duration();
    assert_eq!((d.as_secs(), d.subsec_nanos()), (3, 250));
    assert_eq!(state.expected_request_count, 5);
}
