use vstd::prelude::*;

use crate::elapsed::Elapsed;
use crate::errors::CliError;
use crate::test_dispatcher::TestResult;

verus! {

/// How one request ended: with a response, or with an error.
#[derive(Debug)]
pub enum TestStatus {
    Finished,
    Failed(CliError),
}

/// Sends the requests of each connection and reports each outcome.
pub struct TestRunner;

impl TestRunner {
    /// The record of one request sent by connection `client_id` as its
    /// request numbered `test_id`, which took `duration`: a response with
    /// its status code, or the text of the error that the HTTP layer gave.
    pub fn result_of(
        client_id: u32,
        test_id: u32,
        duration: Elapsed,
        outcome: Result<u16, String>,
    ) -> (res: TestResult)
        ensures
            res.client_id == client_id,
            res.test_id == test_id,
            res.duration == duration,
            match outcome {
                Ok(code) => res.job_status == TestStatus::Finished && res.status == Some(code),
                Err(message) => res.job_status == TestStatus::Failed(
                    CliError::ConnectionError(message),
                ) && res.status.is_none(),
            },
    {
        match outcome {
            Ok(code) => TestResult {
                client_id,
                test_id,
                job_status: TestStatus::Finished,
                duration,
                status: Some(code),
            },
            Err(message) => TestResult {
                client_id,
                test_id,
                job_status: TestStatus::Failed(CliError::connection(message)),
                duration,
                status: None,
            },
        }
    }
}

} // verus!
