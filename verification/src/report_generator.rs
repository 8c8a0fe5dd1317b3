use vstd::prelude::*;

use crate::elapsed::{max_nanos, Elapsed};
use crate::options::OutputType;
use crate::test_dispatcher::{TestResult, TestState};

verus! {

/// Turns the results into what the user sees.
pub struct ReportGenerator;

/// What the report looks like: a summary at the end, or one line per
/// result as it comes, in JSON or in RON.
#[derive(Debug, Clone, Copy, PartialEq, Eq, Structural)]
pub enum ReportMode {
    Summary,
    Json,
    Ron,
}

/// The report mode that the output option asks for: without an output
/// format, or with the table format, a summary; otherwise one line per
/// result in that format.
pub open spec fn spec_report_mode(output: Option<OutputType>) -> ReportMode {
    match output {
        Some(OutputType::Json) => ReportMode::Json,
        Some(OutputType::Ron) => ReportMode::Ron,
        _ => ReportMode::Summary,
    }
}

impl ReportGenerator {
    /// Chooses how the results are reported.
    pub fn mode(output: Option<OutputType>) -> (res: ReportMode)
        ensures
            res == spec_report_mode(output),
    {
        match output {
            Some(OutputType::Json) => ReportMode::Json,
            Some(OutputType::Ron) => ReportMode::Ron,
            _ => ReportMode::Summary,
        }
    }
}

/// The classes of HTTP status codes that the summary counts, and the
/// class of everything else: codes outside 100..=599, and failed requests.
#[derive(Debug, Clone, Copy, PartialEq, Eq, Structural)]
pub enum StatusBucket {
    Informational,
    Success,
    Redirection,
    ClientError,
    ServerError,
    Other,
}

/// The class of a request's outcome: by the hundreds of its status code,
/// where it has one in 100..=599.
pub open spec fn bucket_of(status: Option<u16>) -> StatusBucket {
    match status {
        Some(code) => if 100 <= code <= 199 {
            StatusBucket::Informational
        } else if 200 <= code <= 299 {
            StatusBucket::Success
        } else if 300 <= code <= 399 {
            StatusBucket::Redirection
        } else if 400 <= code <= 499 {
            StatusBucket::ClientError
        } else if 500 <= code <= 599 {
            StatusBucket::ServerError
        } else {
            StatusBucket::Other
        },
        None => StatusBucket::Other,
    }
}

/// A status code is classed by its hundreds: `1xx` codes are
/// informational, `2xx` successes, `3xx` redirections, `4xx` client
/// errors, `5xx` server errors; codes below 100 or from 600 up, and
/// requests without a response, fall under the other class.
pub proof fn lemma_classes_by_hundreds(c: u16)
    ensures
        bucket_of(Some(c)) == StatusBucket::Informational <==> c / 100 == 1,
        bucket_of(Some(c)) == StatusBucket::Success <==> c / 100 == 2,
        bucket_of(Some(c)) == StatusBucket::Redirection <==> c / 100 == 3,
        bucket_of(Some(c)) == StatusBucket::ClientError <==> c / 100 == 4,
        bucket_of(Some(c)) == StatusBucket::ServerError <==> c / 100 == 5,
        bucket_of(Some(c)) == StatusBucket::Other <==> (c < 100 || c >= 600),
        bucket_of(None) == StatusBucket::Other,
{
}

/// Classifies one outcome.
pub fn classify(status: Option<u16>) -> (res: StatusBucket)
    ensures
        res == bucket_of(status),
        res == StatusBucket::Informational <==> (status matches Some(c) && c / 100 == 1),
        res == StatusBucket::Success <==> (status matches Some(c) && c / 100 == 2),
        res == StatusBucket::Redirection <==> (status matches Some(c) && c / 100 == 3),
        res == StatusBucket::ClientError <==> (status matches Some(c) && c / 100 == 4),
        res == StatusBucket::ServerError <==> (status matches Some(c) && c / 100 == 5),
        res == StatusBucket::Other <==> (status matches Some(c) ==> (c < 100 || c >= 600)),
{
    proof {
        if let Some(c) = status {
            lemma_classes_by_hundreds(c);
        }
    }
    match status {
        Some(code) => {
            if 100 <= code && code <= 199 {
                StatusBucket::Informational
            } else if 200 <= code && code <= 299 {
                StatusBucket::Success
            } else if 300 <= code && code <= 399 {
                StatusBucket::Redirection
            } else if 400 <= code && code <= 499 {
                StatusBucket::ClientError
            } else if 500 <= code && code <= 599 {
                StatusBucket::ServerError
            } else {
                StatusBucket::Other
            }
        },
        None => StatusBucket::Other,
    }
}

/// How many of `results` fall into `bucket`.
pub open spec fn count_in(results: Seq<TestResult>, bucket: StatusBucket) -> nat
    decreases results.len(),
{
    if results.len() == 0 {
        0
    } else {
        count_in(results.drop_last(), bucket) + if bucket_of(results.last().status) == bucket {
            1nat
        } else {
            0nat
        }
    }
}

/// The time that all of `results` took together, in nanoseconds.
pub open spec fn total_nanos(results: Seq<TestResult>) -> nat
    decreases results.len(),
{
    if results.len() == 0 {
        0
    } else {
        total_nanos(results.drop_last()) + results.last().duration@
    }
}

/// The counts of the summary, one per class of status code.
pub struct TestStatuses {
    pub val_100: u32,
    pub val_200: u32,
    pub val_300: u32,
    pub val_400: u32,
    pub val_500: u32,
    pub err_val: u32,
}

impl TestStatuses {
    /// The count that the summary keeps for `bucket`.
    pub open spec fn count_of(self, bucket: StatusBucket) -> u32 {
        match bucket {
            StatusBucket::Informational => self.val_100,
            StatusBucket::Success => self.val_200,
            StatusBucket::Redirection => self.val_300,
            StatusBucket::ClientError => self.val_400,
            StatusBucket::ServerError => self.val_500,
            StatusBucket::Other => self.err_val,
        }
    }

    /// `self` is `before` with one more in `bucket` and nothing else changed.
    pub open spec fn one_more(self, before: TestStatuses, bucket: StatusBucket) -> bool {
        forall|b: StatusBucket|
            #[trigger] self.count_of(b) == before.count_of(b) + if b == bucket {
                1int
            } else {
                0int
            }
    }

    /// All counts at zero.
    pub fn new() -> (res: TestStatuses)
        ensures
            forall|b: StatusBucket| #[trigger] res.count_of(b) == 0,
    {
        TestStatuses { val_100: 0, val_200: 0, val_300: 0, val_400: 0, val_500: 0, err_val: 0 }
    }

    /// Counts one more outcome that is not a status code in 100..=599.
    pub fn inc_err_val(&mut self)
        requires
            old(self).err_val < u32::MAX,
        ensures
            final(self).one_more(*old(self), StatusBucket::Other),
    {
        self.err_val = self.err_val + 1;
    }

    /// Counts one more status code in 100..=199.
    pub fn inc_100(&mut self)
        requires
            old(self).val_100 < u32::MAX,
        ensures
            final(self).one_more(*old(self), StatusBucket::Informational),
    {
        self.val_100 = self.val_100 + 1;
    }

    /// Counts one more status code in 200..=299.
    pub fn inc_200(&mut self)
        requires
            old(self).val_200 < u32::MAX,
        ensures
            final(self).one_more(*old(self), StatusBucket::Success),
    {
        self.val_200 = self.val_200 + 1;
    }

    /// Counts one more status code in 300..=399.
    pub fn inc_300(&mut self)
        requires
            old(self).val_300 < u32::MAX,
        ensures
            final(self).one_more(*old(self), StatusBucket::Redirection),
    {
        self.val_300 = self.val_300 + 1;
    }

    /// Counts one more status code in 400..=499.
    pub fn inc_400(&mut self)
        requires
            old(self).val_400 < u32::MAX,
        ensures
            final(self).one_more(*old(self), StatusBucket::ClientError),
    {
        self.val_400 = self.val_400 + 1;
    }

    /// Counts one more status code in 500..=599.
    pub fn inc_500(&mut self)
        requires
            old(self).val_500 < u32::MAX,
        ensures
            final(self).one_more(*old(self), StatusBucket::ServerError),
    {
        self.val_500 = self.val_500 + 1;
    }
}

/// The figures of the summary: the counts per class of status code and
/// the average time of a request.
pub struct TestStatistics {
    pub test_statuses: TestStatuses,
    pub avg_time: Elapsed,
}

/// A prefix of the results has no more in any class, and took no longer,
/// than all of them.
proof fn lemma_prefix_bounded(results: Seq<TestResult>, i: int)
    requires
        0 <= i <= results.len(),
    ensures
        total_nanos(results.take(i)) <= total_nanos(results),
        forall|b: StatusBucket| #[trigger] count_in(results.take(i), b) <= count_in(results, b),
    decreases results.len() - i,
{
    if i == results.len() {
        assert(results.take(i) =~= results);
    } else {
        lemma_prefix_bounded(results, i + 1);
        assert(results.take(i + 1).drop_last() =~= results.take(i));
        assert forall|b: StatusBucket| #[trigger]
            count_in(results.take(i), b) <= count_in(results, b) by {
            assert(count_in(results.take(i + 1), b) >= count_in(results.take(i), b));
        }
    }
}

/// The statistics of the results collected in `data`: how many outcomes
/// fall into each class, and the average time of a request (zero without
/// results). The divisor of the average is the number of results taken
/// as a `u32`.
pub fn calculate_statistics(data: &TestState) -> (res: TestStatistics)
    requires
        forall|b: StatusBucket| #[trigger] count_in(data.test_results@, b) <= u32::MAX,
        data.test_results@.len() == 0 || data.test_results@.len() as u32 != 0,
        total_nanos(data.test_results@) <= max_nanos(),
    ensures
        forall|b: StatusBucket| #[trigger]
            res.test_statuses.count_of(b) == count_in(data.test_results@, b),
        res.avg_time@ == if data.test_results@.len() == 0 {
            0
        } else {
            total_nanos(data.test_results@) / (data.test_results@.len() as u32 as nat)
        },
{
    let mut statuses = TestStatuses::new();
    let mut total = Elapsed::zero();
    let ghost results = data.test_results@;
    let n: usize = data.test_results.len();
    if n == 0 {
        assert(forall|b: StatusBucket| #[trigger] count_in(results, b) == 0);
        return TestStatistics { test_statuses: statuses, avg_time: total };
    }
    let mut i: usize = 0;
    proof {
        assert(results.take(0) =~= Seq::<TestResult>::empty());
    }
    while i < n
        invariant
            n == results.len(),
            results == data.test_results@,
            i <= n,
            forall|b: StatusBucket| #[trigger] count_in(results, b) <= u32::MAX,
            total_nanos(results) <= max_nanos(),
            forall|b: StatusBucket| #[trigger]
                statuses.count_of(b) == count_in(results.take(i as int), b),
            total@ == total_nanos(results.take(i as int)),
        decreases n - i,
    {
        let result = &data.test_results[i];
        proof {
            lemma_prefix_bounded(results, i + 1);
            assert(results.take(i + 1).drop_last() =~= results.take(i as int));
            assert(results.take(i + 1).last() == results[i as int]);
            let b = bucket_of(results[i as int].status);
            assert(count_in(results.take(i + 1), b) == count_in(results.take(i as int), b) + 1);
            assert(count_in(results.take(i + 1), b) <= count_in(results, b));
            assert(statuses.count_of(b) < u32::MAX);
        }
        let ghost before = statuses;
        match classify(result.status) {
            StatusBucket::Informational => statuses.inc_100(),
            StatusBucket::Success => statuses.inc_200(),
            StatusBucket::Redirection => statuses.inc_300(),
            StatusBucket::ClientError => statuses.inc_400(),
            StatusBucket::ServerError => statuses.inc_500(),
            StatusBucket::Other => statuses.inc_err_val(),
        }
        proof {
            assert forall|b: StatusBucket| #[trigger]
                statuses.count_of(b) == count_in(results.take(i + 1), b) by {
                assert(statuses.count_of(b) == before.count_of(b) + if b == bucket_of(
                    results[i as int].status,
                ) {
                    1int
                } else {
                    0int
                });
            }
        }
        total = total.add(&result.duration);
        i = i + 1;
    }
    proof {
        assert(results.take(n as int) =~= results);
    }
    let divisor: u32 = n as u32;
    let avg_time = total.div(divisor);
    TestStatistics { test_statuses: statuses, avg_time }
}

/// Every result is counted in exactly one class: the counts add up to
/// the number of results.
pub proof fn lemma_every_result_counted_once(results: Seq<TestResult>)
    ensures
        count_in(results, StatusBucket::Informational) + count_in(results, StatusBucket::Success)
            + count_in(results, StatusBucket::Redirection) + count_in(
            results,
            StatusBucket::ClientError,
        ) + count_in(results, StatusBucket::ServerError) + count_in(results, StatusBucket::Other)
            == results.len(),
    decreases results.len(),
{
    if results.len() > 0 {
        lemma_every_result_counted_once(results.drop_last());
    }
}

/// Taking one result out of the sequence takes it out of its class and
/// its time out of the total.
proof fn lemma_remove_one(results: Seq<TestResult>, j: int)
    requires
        0 <= j < results.len(),
    ensures
        forall|b: StatusBucket| #[trigger]
            count_in(results, b) == count_in(results.remove(j), b) + if bucket_of(
                results[j].status,
            ) == b {
                1int
            } else {
                0int
            },
        total_nanos(results) == total_nanos(results.remove(j)) + results[j].duration@,
    decreases results.len(),
{
    if j == results.len() - 1 {
        assert(results.remove(j) =~= results.drop_last());
    } else {
        lemma_remove_one(results.drop_last(), j);
        assert(results.remove(j).drop_last() =~= results.drop_last().remove(j));
        assert(results.remove(j).last() == results.last());
        assert(results.drop_last()[j] == results[j]);
        assert forall|b: StatusBucket| #[trigger]
            count_in(results, b) == count_in(results.remove(j), b) + if bucket_of(
                results[j].status,
            ) == b {
                1int
            } else {
                0int
            } by {
            assert(count_in(results.drop_last(), b) == count_in(results.drop_last().remove(j), b)
                + if bucket_of(results[j].status) == b {
                1int
            } else {
                0int
            });
        }
    }
}

/// The statistics do not depend on the order in which the results came
/// in: two collections holding the same results, in any order, have the
/// same number of results, the same count in every class and the same
/// total time, so `calculate_statistics` gives the same counts and the
/// same average for both.
pub proof fn lemma_statistics_ignore_order(a: Seq<TestResult>, b: Seq<TestResult>)
    requires
        a.to_multiset() =~= b.to_multiset(),
    ensures
        a.len() == b.len(),
        total_nanos(a) == total_nanos(b),
        forall|bucket: StatusBucket| #[trigger] count_in(a, bucket) == count_in(b, bucket),
    decreases a.len(),
{
    broadcast use vstd::seq_lib::group_to_multiset_ensures;

    if a.len() == 0 {
        assert(b.to_multiset().len() == 0);
        assert(b =~= Seq::<TestResult>::empty());
    } else {
        let x = a.last();
        let rest = a.drop_last();
        assert(rest.push(x) =~= a);
        assert(a.to_multiset().count(x) > 0);
        assert(b.contains(x));
        let j = choose|j: int| 0 <= j < b.len() && b[j] == x;
        lemma_remove_one(b, j);
        assert(rest.to_multiset() =~= a.to_multiset().remove(x));
        assert(b.remove(j).to_multiset() =~= b.to_multiset().remove(x));
        lemma_statistics_ignore_order(rest, b.remove(j));
        assert forall|bucket: StatusBucket| #[trigger]
            count_in(a, bucket) == count_in(b, bucket) by {
            assert(count_in(rest, bucket) == count_in(b.remove(j), bucket));
        }
    }
}

/// Counting one more result adds one to the class of its status code,
/// the class of its hundreds, and leaves every other class as it was; a
/// result without a response adds one to the other class.
pub proof fn lemma_result_counted_by_hundreds(results: Seq<TestResult>, r: TestResult)
    ensures
        forall|b: StatusBucket| #[trigger]
            count_in(results.push(r), b) == count_in(results, b) + if bucket_of(r.status) == b {
                1int
            } else {
                0int
            },
        r.status matches Some(c) && c / 100 == 1 ==> count_in(
            results.push(r),
            StatusBucket::Informational,
        ) == count_in(results, StatusBucket::Informational) + 1,
        r.status matches Some(c) && c / 100 == 2 ==> count_in(results.push(r), StatusBucket::Success)
            == count_in(results, StatusBucket::Success) + 1,
        r.status matches Some(c) && c / 100 == 3 ==> count_in(
            results.push(r),
            StatusBucket::Redirection,
        ) == count_in(results, StatusBucket::Redirection) + 1,
        r.status matches Some(c) && c / 100 == 4 ==> count_in(
            results.push(r),
            StatusBucket::ClientError,
        ) == count_in(results, StatusBucket::ClientError) + 1,
        r.status matches Some(c) && c / 100 == 5 ==> count_in(
            results.push(r),
            StatusBucket::ServerError,
        ) == count_in(results, StatusBucket::ServerError) + 1,
        (r.status matches Some(c) ==> (c < 100 || c >= 600)) ==> count_in(
            results.push(r),
            StatusBucket::Other,
        ) == count_in(results, StatusBucket::Other) + 1,
{
    assert(results.push(r).drop_last() =~= results);
    if let Some(c) = r.status {
        lemma_classes_by_hundreds(c);
    }
}

} // verus!
