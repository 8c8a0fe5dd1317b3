//! Verified core of a small HTTP load-testing tool: command-line value
//! parsing, the round-robin split of request numbers over connections,
//! the bookkeeping of test results and the statistics of the final report.
pub mod errors;
pub mod elapsed;
pub mod options;
pub mod test_dispatcher;
pub mod test_runner;
pub mod report_generator;
