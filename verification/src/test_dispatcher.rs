use vstd::prelude::*;
use vstd::arithmetic::div_mod::lemma_fundamental_div_mod_converse;

use crate::elapsed::{Elapsed, NANOS_PER_SEC};
use crate::options::{Options, TargetParameters};
use std::sync::Arc;
use crate::test_runner::TestStatus;
use std::time::Duration;
use std::time::Instant;

verus! {

/// A point in time read from the monotonic clock.
#[verifier::external_type_specification]
#[verifier::external_body]
pub struct ExInstant(Instant);

/// `std::time::Instant::now`: reads the monotonic clock. What it reads
/// depends on the machine and the moment, so nothing is claimed of it.
#[verifier::external_body]
fn clock_now() -> (res: Instant) {
    Instant::now()
}

/// `Instant::elapsed` of std: the time from `start` to a reading of the
/// clock taken now. It depends on the moment, so nothing is claimed of it.
#[verifier::external_body]
fn time_since(start: &Instant) -> (res: Duration) {
    start.elapsed()
}

/// `Duration::as_secs` of std: the whole seconds of a span.
#[verifier::external_body]
fn duration_secs(d: &Duration) -> (res: u64) {
    d.as_secs()
}

/// `Duration::subsec_nanos` of std: the nanoseconds past the whole
/// seconds, which its documentation says are always below one billion.
#[verifier::external_body]
fn duration_subsec_nanos(d: &Duration) -> (res: u32)
    ensures
        res < NANOS_PER_SEC,
{
    d.subsec_nanos()
}

/// `Arc::clone` of std: another pointer to the same allocation, so it
/// points to the same value.
#[verifier::external_body]
fn share_target(target: &Arc<TargetParameters>) -> (res: Arc<TargetParameters>)
    ensures
        *res == **target,
{
    Arc::clone(target)
}

/// The command that the tool runs: its options.
pub struct TestCommand {
    pub options: Box<Options>,
}

impl TestCommand {
    /// Wraps the options into a command.
    pub fn new(options: Box<Options>) -> (res: TestCommand)
        ensures
            res.options == options,
    {
        TestCommand { options }
    }
}

/// What one request gave: who sent it, its number, how it ended, how
/// long it took and, where a response came, its HTTP status code.
#[derive(Debug)]
pub struct TestResult {
    pub client_id: u32,
    pub test_id: u32,
    pub job_status: TestStatus,
    pub duration: Elapsed,
    pub status: Option<u16>,
}

/// The time on the clock since `start`, read now.
fn reading_since(start: &Instant) -> (res: Elapsed) {
    let d = time_since(start);
    let secs = duration_secs(&d);
    let nanos = duration_subsec_nanos(&d);
    Elapsed::new(secs, nanos)
}

/// The results collected so far, how many were expected, when the test
/// started, and how long after its start it finished.
#[derive(Debug)]
pub struct TestState {
    pub test_results: Vec<TestResult>,
    pub expected_request_count: u64,
    pub start_time: Instant,
    pub finish_time: Elapsed,
}

impl TestState {
    /// A state expecting `request_count` results, with no result yet,
    /// started at `start_time` and finished `finish_time` after it.
    pub fn started_at(request_count: u64, start_time: Instant, finish_time: Elapsed) -> (res:
        TestState)
        ensures
            res.test_results@.len() == 0,
            res.expected_request_count == request_count,
            res.start_time == start_time,
            res.finish_time == finish_time,
    {
        TestState {
            test_results: Vec::new(),
            expected_request_count: request_count,
            start_time,
            finish_time,
        }
    }

    /// A fresh state expecting `request_count` results, with no result
    /// yet, started now and finished at the moment of a second reading.
    pub fn new(request_count: u64) -> (res: TestState)
        ensures
            res.test_results@.len() == 0,
            res.expected_request_count == request_count,
    {
        let start_time = clock_now();
        let finish_time = reading_since(&start_time);
        TestState::started_at(request_count, start_time, finish_time)
    }

    /// The time from the start of the test to its recorded finish.
    pub fn calculate_duration(&self) -> (res: Elapsed)
        ensures
            res == self.finish_time,
    {
        self.finish_time
    }

    /// Records that the test finished `finish_time` after its start;
    /// nothing else changes.
    pub fn finish_at(&mut self, finish_time: Elapsed)
        ensures
            final(self).finish_time == finish_time,
            final(self).test_results == old(self).test_results,
            final(self).expected_request_count == old(self).expected_request_count,
            final(self).start_time == old(self).start_time,
    {
        self.finish_time = finish_time;
    }

    /// Records the finish of the test as the time on the clock since its
    /// start, read now; nothing else changes.
    pub fn stop_timer(&mut self)
        ensures
            final(self).test_results == old(self).test_results,
            final(self).expected_request_count == old(self).expected_request_count,
            final(self).start_time == old(self).start_time,
    {
        let reading = reading_since(&self.start_time);
        self.finish_at(reading);
    }
}

impl Default for TestState {
    fn default() -> (res: TestState)
        ensures
            res.test_results@.len() == 0,
            res.expected_request_count == 0,
    {
        TestState::new(0)
    }
}

/// The work of one connection: its id, the request that it sends, shared
/// with the other connections, and the numbers of its requests, in order.
#[derive(Debug, Clone)]
pub struct TestSuiteRequest {
    pub client_id: u32,
    pub params: Arc<TargetParameters>,
    pub request_count: Vec<u32>,
}

impl TestSuiteRequest {
    /// Appends the request numbered `test_id` to this connection's work.
    pub fn inc_request_count(&mut self, test_id: u32)
        ensures
            final(self).client_id == old(self).client_id,
            final(self).params == old(self).params,
            final(self).request_count@ == old(self).request_count@.push(test_id),
    {
        self.request_count.push(test_id);
    }
}

/// How many of the requests numbered `1..=requests` fall to the
/// connection `i` of `connections`, when they are dealt out in turn.
pub open spec fn share(connections: nat, requests: nat, i: nat) -> nat {
    requests / connections + if i < requests % connections { 1nat } else { 0nat }
}

/// The request numbers that the connection `i` of `connections` sends
/// when `requests` requests are dealt out in turn: `i + 1`, then every
/// `connections`-th number after it, up to `requests`.
pub open spec fn suite_numbers(connections: nat, requests: nat, i: nat) -> Seq<u32> {
    Seq::new(share(connections, requests, i), |k: int| (i + 1 + k * connections) as u32)
}

/// Dealing out one more request changes only the share of the connection
/// whose turn it is, and that connection's next number is that request.
proof fn lemma_share_step(c: nat, n: nat, i: nat)
    requires
        c > 0,
        i < c,
    ensures
        i == n % c ==> share(c, n + 1, i) == share(c, n, i) + 1,
        i == n % c ==> share(c, n, i) * c + i == n,
        i != n % c ==> share(c, n + 1, i) == share(c, n, i),
        n % c + 1 < c ==> (n + 1) % c == n % c + 1,
        n % c + 1 == c ==> (n + 1) % c == 0,
{
    let q = n / c;
    let m = n % c;
    vstd::arithmetic::div_mod::lemma_mod_pos_bound(n as int, c as int);
    assert(n == q * c + m) by {
        vstd::arithmetic::div_mod::lemma_fundamental_div_mod(n as int, c as int);
        vstd::arithmetic::mul::lemma_mul_is_commutative(q as int, c as int);
    }
    if m + 1 < c {
        lemma_fundamental_div_mod_converse((n + 1) as int, c as int, q as int, (m + 1) as int);
    } else {
        assert((n + 1) as int == (q + 1) * c + 0) by (nonlinear_arith)
            requires
                n == q * c + m,
                m + 1 == c,
        ;
        lemma_fundamental_div_mod_converse((n + 1) as int, c as int, (q + 1) as int, 0);
    }
}

/// The split of work over connections.
pub struct TestDispatcher;

impl TestDispatcher {
    /// One piece of work per connection, ids `0..connection_count`, each
    /// sending the command's target request, with the requests
    /// `1..=request_count` dealt out in turn: request `n` goes to
    /// connection `(n - 1) % connection_count`.
    pub fn generate_test_request_suites(command: &TestCommand) -> (res: Vec<TestSuiteRequest>)
        ensures
            res@.len() == command.options.test_parameters.connection_count,
            forall|i: int|
                #![trigger res@[i]]
                0 <= i < res@.len() ==> {
                    &&& res@[i].client_id == i
                    &&& (*res@[i].params).same_as(command.options.target_parameters)
                    &&& res@[i].request_count@ == suite_numbers(
                        command.options.test_parameters.connection_count as nat,
                        command.options.test_parameters.request_count as nat,
                        i as nat,
                    )
                },
    {
        let connections: u32 = command.options.test_parameters.connection_count;
        let requests: u32 = command.options.test_parameters.request_count;
        let ghost c = connections as nat;
        let params = Arc::new(command.options.target_parameters.clone());
        let mut suites: Vec<TestSuiteRequest> = Vec::new();
        let mut id: u32 = 0;
        while id < connections
            invariant
                id <= connections,
                suites@.len() == id,
                (*params).same_as(command.options.target_parameters),
                forall|i: int|
                    #![trigger suites@[i]]
                    0 <= i < id ==> suites@[i].client_id == i && (*suites@[i].params).same_as(
                        command.options.target_parameters,
                    ) && suites@[i].request_count@ =~= Seq::<u32>::empty(),
            decreases connections - id,
        {
            suites.push(
                TestSuiteRequest {
                    client_id: id,
                    params: share_target(&params),
                    request_count: Vec::new(),
                },
            );
            id += 1;
        }
        if connections == 0 {
            return suites;
        }
        proof {
            assert forall|i: int| 0 <= i < suites@.len() implies #[trigger] suites@[i].request_count@
                == suite_numbers(c, 0, i as nat) by {
                assert(suite_numbers(c, 0, i as nat) =~= Seq::<u32>::empty());
            }
        }
        let mut slot: u32 = 0;
        let mut done: u32 = 0;
        while done < requests
            invariant
                connections > 0,
                c == connections,
                done <= requests,
                slot < connections,
                slot == done % connections,
                suites@.len() == connections,
                forall|i: int|
                    #![trigger suites@[i]]
                    0 <= i < connections ==> suites@[i].client_id == i && (
                    *suites@[i].params).same_as(command.options.target_parameters)
                        && suites@[i].request_count@ == suite_numbers(c, done as nat, i as nat),
            decreases requests - done,
        {
            let number: u32 = done + 1;
            let ghost before = suites@;
            proof {
                lemma_share_step(c, done as nat, slot as nat);
            }
            suites[slot as usize].inc_request_count(number);
            proof {
                assert forall|i: int|
                    #![trigger suites@[i]]
                    0 <= i < connections implies suites@[i].client_id == i && (
                    *suites@[i].params).same_as(command.options.target_parameters)
                        && suites@[i].request_count@ == suite_numbers(c, (done + 1) as nat, i as nat) by {
                    lemma_share_step(c, done as nat, i as nat);
                    if i == slot {
                        assert(suites@[i].request_count@ =~= suite_numbers(
                            c,
                            (done + 1) as nat,
                            i as nat,
                        ));
                    } else {
                        assert(suites@[i] == before[i]);
                        assert(suites@[i].request_count@ =~= suite_numbers(
                            c,
                            (done + 1) as nat,
                            i as nat,
                        ));
                    }
                }
            }
            done = number;
            if slot + 1 == connections {
                slot = 0;
            } else {
                slot = slot + 1;
            }
        }
        suites
    }
}

/// Every request `n` of `1..=requests` is sent exactly once: by the
/// connection `(n - 1) % connections`, as its `(n - 1) / connections`-th
/// request, and by no other connection at no other position.
pub proof fn lemma_each_request_sent_once(connections: nat, requests: nat, n: nat)
    requires
        connections > 0,
        requests <= u32::MAX,
        1 <= n <= requests,
    ensures
        ((n - 1) as nat / connections) < share(
            connections,
            requests,
            ((n - 1) as nat % connections),
        ),
        suite_numbers(connections, requests, ((n - 1) as nat % connections))[((n - 1) as nat
            / connections) as int] == n,
        forall|i: nat, k: int|
            #![trigger suite_numbers(connections, requests, i)[k]]
            i < connections && 0 <= k < share(connections, requests, i) && suite_numbers(
                connections,
                requests,
                i,
            )[k] == n ==> i == (n - 1) as nat % connections && k == (n - 1) as nat / connections,
{
    let c = connections as int;
    let m1 = (n - 1) as int;
    let q = m1 / c;
    let m = m1 % c;
    vstd::arithmetic::div_mod::lemma_fundamental_div_mod(m1, c);
    vstd::arithmetic::div_mod::lemma_mod_pos_bound(m1, c);
    vstd::arithmetic::div_mod::lemma_div_pos_is_pos(m1, c);
    let rq = requests as int / c;
    let rr = requests as int % c;
    vstd::arithmetic::div_mod::lemma_fundamental_div_mod(requests as int, c);
    vstd::arithmetic::div_mod::lemma_mod_pos_bound(requests as int, c);
    assert(q < rq || (q == rq && m < rr)) by (nonlinear_arith)
        requires
            m1 == c * q + m,
            requests as int == c * rq + rr,
            0 <= m < c,
            0 <= rr < c,
            m1 < requests,
    ;
    assert(m + 1 + q * c == n) by (nonlinear_arith)
        requires
            m1 == c * q + m,
            m1 == n - 1,
    ;
    assert forall|i: nat, k: int|
        #![trigger suite_numbers(connections, requests, i)[k]]
        i < connections && 0 <= k < share(connections, requests, i) && suite_numbers(
            connections,
            requests,
            i,
        )[k] == n implies i == (n - 1) as nat % connections && k == (n - 1) as nat
        / connections by {
        lemma_numbers_in_range(connections, requests, i, k);
        assert(m1 == k * c + i);
        lemma_fundamental_div_mod_converse(m1, c, k, i as int);
    }
}

/// Every number that a connection sends lies in `1..=requests`, and each
/// one is `connections` above the one before it.
pub proof fn lemma_numbers_in_range(connections: nat, requests: nat, i: nat, k: int)
    requires
        connections > 0,
        requests <= u32::MAX,
        i < connections,
        0 <= k < share(connections, requests, i),
    ensures
        1 <= suite_numbers(connections, requests, i)[k] <= requests,
        suite_numbers(connections, requests, i)[k] == i + 1 + k * connections,
        k > 0 ==> suite_numbers(connections, requests, i)[k] == suite_numbers(
            connections,
            requests,
            i,
        )[k - 1] + connections,
{
    let c = connections as int;
    let rq = requests as int / c;
    let rr = requests as int % c;
    vstd::arithmetic::div_mod::lemma_fundamental_div_mod(requests as int, c);
    vstd::arithmetic::div_mod::lemma_mod_pos_bound(requests as int, c);
    vstd::arithmetic::div_mod::lemma_div_pos_is_pos(requests as int, c);
    assert(i + 1 + k * c <= requests) by (nonlinear_arith)
        requires
            requests as int == c * rq + rr,
            0 <= rr < c,
            0 <= i < c,
            0 <= k,
            k < rq || (k == rq && i < rr),
    ;
    assert(k * c >= 0) by (nonlinear_arith)
        requires
            k >= 0,
            c > 0,
    ;
    assert(k > 0 ==> k * c == (k - 1) * c + c) by (nonlinear_arith);
}

/// The requests are spread evenly: a connection earlier in the order
/// gets as many requests as a later one, or one more.
pub proof fn lemma_shares_balanced(connections: nat, requests: nat, i: nat, j: nat)
    requires
        i <= j < connections,
    ensures
        share(connections, requests, j) <= share(connections, requests, i),
        share(connections, requests, i) <= share(connections, requests, j) + 1,
        share(connections, requests, i) == requests / connections || share(
            connections,
            requests,
            i,
        ) == requests / connections + 1,
{
}

/// The sum of the shares of the first `m` connections.
pub open spec fn shares_up_to(connections: nat, requests: nat, m: nat) -> nat
    decreases m,
{
    if m == 0 {
        0
    } else {
        shares_up_to(connections, requests, (m - 1) as nat) + share(
            connections,
            requests,
            (m - 1) as nat,
        )
    }
}

/// The first `m` connections together get `m` times the even share plus
/// one for each of them that is among the first `requests % connections`.
proof fn lemma_shares_up_to(connections: nat, requests: nat, m: nat)
    requires
        connections > 0,
        m <= connections,
    ensures
        shares_up_to(connections, requests, m) == m * (requests / connections) + if m
            < requests % connections {
            m
        } else {
            requests % connections
        },
    decreases m,
{
    if m > 0 {
        lemma_shares_up_to(connections, requests, (m - 1) as nat);
        let d = (requests / connections) as int;
        let mi = m as int;
        assert(mi * d == (mi - 1) * d + d) by (nonlinear_arith);
        let prev = (m - 1) as nat;
        assert(prev * (requests / connections) == (mi - 1) * d);
        assert(shares_up_to(connections, requests, m) == shares_up_to(connections, requests, prev)
            + share(connections, requests, prev));
    } else {
        assert(0 * (requests / connections) == 0);
    }
}

/// No request is lost and none is added: the shares of all connections
/// add up to the number of requests.
pub proof fn lemma_shares_total(connections: nat, requests: nat)
    requires
        connections > 0,
    ensures
        shares_up_to(connections, requests, connections) == requests,
{
    lemma_shares_up_to(connections, requests, connections);
    vstd::arithmetic::div_mod::lemma_fundamental_div_mod(requests as int, connections as int);
    vstd::arithmetic::div_mod::lemma_mod_pos_bound(requests as int, connections as int);
    vstd::arithmetic::mul::lemma_mul_is_commutative(
        connections as int,
        (requests / connections) as int,
    );
}

} // verus!
