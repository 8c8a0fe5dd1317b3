use minigun::elapsed::Elapsed;
use minigun::options::OutputType;
use minigun::report_generator::{
    calculate_statistics, classify, ReportGenerator, ReportMode, StatusBucket, TestStatuses,
};
use minigun::test_dispatcher::{TestResult, TestState};
use minigun::test_runner::{TestRunner, TestStatus};

fn result(test_id: u32, millis: u64, status: Option<u16>) -> TestResult {
    let duration = Elapsed::new(millis / 1000, ((millis % 1000) * 1_000_000) as u32);
    match status {
        Some(code) => TestRunner::result_of(0, test_id, duration, Ok(code)),
        None => TestRunner::result_of(0, test_id, duration, Err("connection refused".to_string())),
    }
}

#[test]
fn statistics_count_each_class() {
    let mut state = TestState::new(8);
    state.test_results.push(result(1, 10, Some(100)));
    state.test_results.push(result(2, 20, Some(200)));
    state.test_results.push(result(3, 30, Some(299)));
    state.test_results.push(result(4, 40, Some(301)));
    state.test_results.push(result(5, 50, Some(404)));
    state.test_results.push(result(6, 60, Some(503)));
    state.test_results.push(result(7, 70, Some(600)));
    state.test_results.push(result(8, 80, None));
    let stats = calculate_statistics(&state);
    let s = &stats.test_statuses;
    assert_eq!(s.val_100, 1);
    assert_eq!(s.val_200, 2);
    assert_eq!(s.val_300, 1);
    assert_eq!(s.val_400, 1);
    assert_eq!(s.val_500, 1);
    assert_eq!(s.err_val, 2);
    assert_eq!(
        s.val_100 + s.val_200 + s.val_300 + s.val_400 + s.val_500 + s.err_val,
        state.test_results.len() as u32
    );
    // (10 + 20 + ... + 80) ms / 8 = 45 ms
    assert_eq!(stats.avg_time.as_secs(), 0);
    assert_eq!(stats.avg_time.subsec_nanos(), 45_000_000);
}

#[test]
fn statistics_of_nothing() {
    let state = TestState::new(0);
    let stats = calculate_statistics(&state);
    assert_eq!(stats.test_statuses.val_200, 0);
    assert_eq!(stats.test_statuses.err_val, 0);
    assert_eq!(stats.avg_time.as_secs(), 0);
    assert_eq!(stats.avg_time.subsec_nanos(), 0);
}

#[test]
fn average_rounds_down_to_the_nanosecond() {
    let mut state = TestState::new(3);
    state.test_results.push(TestRunner::result_of(0, 1, Elapsed::new(1, 0), Ok(200)));
    state.test_results.push(TestRunner::result_of(0, 2, Elapsed::new(0, 0), Ok(200)));
    state.test_results.push(TestRunner::result_of(0, 3, Elapsed::new(0, 2), Ok(200)));
    let stats = calculate_statistics(&state);
    // (1_000_000_002 ns) / 3 = 333_333_334 ns
    assert_eq!(stats.avg_time.as_secs(), 0);
    assert_eq!(stats.avg_time.subsec_nanos(), 333_333_334);
    assert_eq!(stats.test_statuses.val_200, 3);
}

#[test]
fn average_of_equal_durations_is_that_duration() {
    let mut state = TestState::new(4);
    for id in 1..=4 {
        state.test_results.push(TestRunner::result_of(1, id, Elapsed::new(2, 500), Ok(204)));
    }
    let stats = calculate_statistics(&state);
    assert_eq!(stats.avg_time.as_secs(), 2);
    assert_eq!(stats.avg_time.subsec_nanos(), 500);
}

#[test]
fn classes_of_status_codes() {
    assert_eq!(classify(Some(99)), StatusBucket::Other);
    assert_eq!(classify(Some(100)), StatusBucket::Informational);
    assert_eq!(classify(Some(199)), StatusBucket::Informational);
    assert_eq!(classify(Some(200)), StatusBucket::Success);
    assert_eq!(classify(Some(399)), StatusBucket::Redirection);
    assert_eq!(classify(Some(400)), StatusBucket::ClientError);
    assert_eq!(classify(Some(599)), StatusBucket::ServerError);
    assert_eq!(classify(Some(600)), StatusBucket::Other);
    assert_eq!(classify(None), StatusBucket::Other);
}

#[test]
fn counters_move_by_one() {
    let mut s = TestStatuses::new();
    s.inc_100();
    s.inc_200();
    s.inc_200();
    s.inc_300();
    s.inc_400();
    s.inc_500();
    s.inc_err_val();
    assert_eq!(
        (s.val_100, s.val_200, s.val_300, s.val_400, s.val_500, s.err_val),
        (1, 2, 1, 1, 1, 1)
    );
}

#[test]
fn report_modes() {
    assert_eq!(ReportGenerator::mode(None), ReportMode::Summary);
    assert_eq!(ReportGenerator::mode(Some(OutputType::Cli)), ReportMode::Summary);
    assert_eq!(ReportGenerator::mode(Some(OutputType::Json)), ReportMode::Json);
    assert_eq!(ReportGenerator::mode(Some(OutputType::Ron)), ReportMode::Ron);
}

#[test]
fn results_record_outcomes() {
    let ok = TestRunner::result_of(3, 17, Elapsed::new(0, 1_500), Ok(201));
    assert_eq!(ok.client_id, 3);
    assert_eq!(ok.test_id, 17);
    assert_eq!(ok.status, Some(201));
    assert!(matches!(ok.job_status, TestStatus::Finished));
    assert_eq!(ok.duration.subsec_nanos(), 1_500);
    let failed = TestRunner::result_of(1, 2, Elapsed::zero(), Err("timeout".to_string()));
    assert_eq!(failed.status, None);
    match failed.job_status {
        TestStatus::Failed(e) => assert_eq!(e.message(), "timeout"),
        TestStatus::Finished => panic!("expected a failure"),
    }
}

#[test]
fn statistics_ignore_the_order_of_results() {
    let ids = [(1, 5, Some(200)), (2, 17, None), (3, 40, Some(503)), (4, 1, Some(302))];
    let mut forward = TestState::new(4);
    for &(id, ms, status) in ids.iter() {
        forward.test_results.push(result(id, ms, status));
    }
    let mut backward = TestState::new(4);
    for &(id, ms, status) in ids.iter().rev() {
        backward.test_results.push(result(id, ms, status));
    }
    let a = calculate_statistics(&forward);
    let b = calculate_statistics(&backward);
    let counts = |s: &TestStatuses| (s.val_100, s.val_200, s.val_300, s.val_400, s.val_500, s.err_val);
    assert_eq!(counts(&a.test_statuses), counts(&b.test_statuses));
    assert_eq!(a.avg_time.as_secs(), b.avg_time.as_secs());
    assert_eq!(a.avg_time.subsec_nanos(), b.avg_time.subsec_nanos());
    assert_eq!(a.avg_time.subsec_nanos(), 15_750_000);
}
