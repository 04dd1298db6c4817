//! Bounded polling: probe a condition a limited number of times, pausing
//! between two probes, and report the first success or the last failure.

use vstd::prelude::*;

verus! {

broadcast use vstd::function::group_function_axioms;

/// Attempt ceiling of [`PollPolicy::default`].
pub const DEFAULT_MAX_ATTEMPTS: u32 = 1_000_000;

/// Pause, in milliseconds, of [`PollPolicy::default`].
pub const DEFAULT_DELAY_MS: u32 = 100;

/// How often a probe may be tried and how long to pause between two tries.
///
/// A policy always allows at least one attempt.
#[derive(Clone, Copy, Debug, PartialEq, Eq)]
pub struct PollPolicy {
    max_attempts: u32,
    delay_ms: u32,
}

impl PollPolicy {
    #[verifier::type_invariant]
    spec fn at_least_one_attempt(self) -> bool {
        self.max_attempts >= 1
    }

    pub closed spec fn spec_max_attempts(&self) -> u32 {
        self.max_attempts
    }

    pub closed spec fn spec_delay_ms(&self) -> u32 {
        self.delay_ms
    }

    /// A policy of `max_attempts` probes with `delay_ms` milliseconds between
    /// two of them; `None` when no attempt would be allowed.
    pub fn new(max_attempts: u32, delay_ms: u32) -> (r: Option<PollPolicy>)
        ensures
            r is Some <==> max_attempts >= 1,
            r matches Some(p) ==> p.max_attempts() == max_attempts && p.delay_ms() == delay_ms,
    {
        if max_attempts >= 1 {
            Some(PollPolicy { max_attempts, delay_ms })
        } else {
            None
        }
    }

    /// The number of probes after which polling gives up.
    #[verifier::when_used_as_spec(spec_max_attempts)]
    pub fn max_attempts(&self) -> (n: u32)
        ensures
            n == self.max_attempts(),
            n >= 1,
    {
        proof {
            use_type_invariant(self);
        }
        self.max_attempts
    }

    /// The pause between two probes, in milliseconds.
    #[verifier::when_used_as_spec(spec_delay_ms)]
    pub fn delay_ms(&self) -> (n: u32)
        ensures
            n == self.delay_ms(),
    {
        self.delay_ms
    }
}

impl Default for PollPolicy {
    /// A very patient policy: a million probes, a tenth of a second apart.
    fn default() -> (r: PollPolicy)
        ensures
            r.max_attempts() == DEFAULT_MAX_ATTEMPTS,
            r.delay_ms() == DEFAULT_DELAY_MS,
    {
        PollPolicy { max_attempts: DEFAULT_MAX_ATTEMPTS, delay_ms: DEFAULT_DELAY_MS }
    }
}

/// What to do after one probe.
#[derive(Debug, PartialEq, Eq)]
pub enum PollStep<T, E> {
    /// The probe succeeded; polling ends with its value.
    Ready(T),
    /// The probe failed and attempts remain: pause for the given number of
    /// milliseconds, then probe again.
    Retry(u32),
    /// The probe failed on the last allowed attempt; polling ends with that
    /// failure.
    Exhausted(E),
}

/// Mathematical content of a [`BoundedPoller`].
pub struct PollerModel {
    /// Number of probes after which polling gives up.
    pub max_attempts: nat,
    /// Pause between two probes, in milliseconds.
    pub delay_ms: nat,
    /// Failed probes counted in the current round.
    pub failures: nat,
}

impl PollerModel {
    /// A round is always short of its ceiling: one more probe is allowed.
    pub open spec fn well_formed(self) -> bool {
        &&& self.failures < self.max_attempts
        &&& self.max_attempts <= u32::MAX
        &&& self.delay_ms <= u32::MAX
    }

    /// The poller under the same policy at the beginning of a round.
    pub open spec fn restarted(self) -> PollerModel {
        PollerModel { failures: 0, ..self }
    }

    /// The poller and the step after one more probe has answered `outcome`.
    pub open spec fn observed<T, E>(self, outcome: Result<T, E>) -> (PollerModel, PollStep<T, E>) {
        match outcome {
            Ok(value) => (self.restarted(), PollStep::Ready(value)),
            Err(e) => if self.failures + 1 < self.max_attempts {
                (
                    PollerModel { failures: self.failures + 1, ..self },
                    PollStep::Retry(self.delay_ms as u32),
                )
            } else {
                (self.restarted(), PollStep::Exhausted(e))
            },
        }
    }
}

/// Counts the failed probes of a polling round against a [`PollPolicy`].
///
/// The poller makes no call itself. Its owner probes, hands each answer to
/// [`BoundedPoller::observe`] and does what the returned [`PollStep`] says.
#[derive(Clone, Copy, Debug, PartialEq, Eq)]
pub struct BoundedPoller {
    policy: PollPolicy,
    failures: u32,
}

impl View for BoundedPoller {
    type V = PollerModel;

    closed spec fn view(&self) -> PollerModel {
        PollerModel {
            max_attempts: self.policy.max_attempts() as nat,
            delay_ms: self.policy.delay_ms() as nat,
            failures: self.failures as nat,
        }
    }
}

/// The model of a poller that starts a round under `policy`.
pub open spec fn fresh_poller(policy: PollPolicy) -> PollerModel {
    PollerModel {
        max_attempts: policy.max_attempts() as nat,
        delay_ms: policy.delay_ms() as nat,
        failures: 0,
    }
}

impl BoundedPoller {
    #[verifier::type_invariant]
    spec fn below_ceiling(self) -> bool {
        self.failures < self.policy.max_attempts()
    }

    /// A poller at the beginning of a round.
    pub fn new(policy: PollPolicy) -> (r: BoundedPoller)
        ensures
            r@ == fresh_poller(policy),
            r@.well_formed(),
    {
        let _ = policy.max_attempts();
        BoundedPoller { policy, failures: 0 }
    }

    /// The policy the poller counts against.
    pub fn policy(&self) -> (p: PollPolicy)
        ensures
            fresh_poller(p) == self@.restarted(),
    {
        self.policy
    }

    /// Failed probes counted in the current round.
    pub fn failures(&self) -> (n: u32)
        ensures
            n == self@.failures,
            self@.well_formed(),
    {
        proof {
            use_type_invariant(self);
        }
        self.failures
    }

    /// Takes the answer of one probe and says how polling goes on.
    ///
    /// A success ends the round at once. A failure asks for a pause and
    /// another probe while attempts remain; on the last allowed attempt
    /// it ends the round with that failure. A finished round leaves the poller
    /// ready for the next one.
    pub fn observe<T, E>(&mut self, outcome: Result<T, E>) -> (step: PollStep<T, E>)
        ensures
            old(self)@.well_formed(),
            final(self)@.well_formed(),
            (final(self)@, step) == old(self)@.observed(outcome),
    {
        proof {
            use_type_invariant(&*self);
        }
        let max_attempts = self.policy.max_attempts();
        match outcome {
            Ok(value) => {
                self.failures = 0;
                PollStep::Ready(value)
            },
            Err(e) => {
                if self.failures + 1 < max_attempts {
                    self.failures = self.failures + 1;
                    PollStep::Retry(self.policy.delay_ms())
                } else {
                    self.failures = 0;
                    PollStep::Exhausted(e)
                }
            },
        }
    }
}

/// What a polling round came to.
pub struct PollReport<T, E> {
    /// The value or failure the round ended with; `None` while it has not
    /// ended.
    pub result: Option<Result<T, E>>,
    /// Number of probes made.
    pub probes: nat,
    /// Number of pauses made.
    pub delays: nat,
}

/// The round that `poller` goes through when its probes answer `outcomes`,
/// one after the other. Answers behind the one that ends the round are not
/// asked for.
pub open spec fn poll_run<T, E>(poller: PollerModel, outcomes: Seq<Result<T, E>>) -> PollReport<T, E>
    decreases outcomes.len(),
{
    if outcomes.len() == 0 {
        PollReport { result: None, probes: 0, delays: 0 }
    } else {
        match poller.observed(outcomes[0]) {
            (_, PollStep::Ready(value)) => PollReport { result: Some(Ok(value)), probes: 1, delays: 0 },
            (_, PollStep::Exhausted(e)) => PollReport { result: Some(Err(e)), probes: 1, delays: 0 },
            (next, PollStep::Retry(_)) => {
                let rest = poll_run(next, outcomes.drop_first());
                PollReport { result: rest.result, probes: rest.probes + 1, delays: rest.delays + 1 }
            },
        }
    }
}

/// Whether the first `n` of `outcomes` are all failures.
pub open spec fn all_fail<T, E>(outcomes: Seq<Result<T, E>>, n: int) -> bool {
    forall|i: int| 0 <= i < n ==> (#[trigger] outcomes[i]) is Err
}

/// The first success ends the round: when the probe fails `k - 1` times and
/// then succeeds, with `k` within the attempts that remain, the round returns
/// that success after `k` probes and `k - 1` pauses.
pub proof fn lemma_first_success_ends_round<T, E>(
    poller: PollerModel,
    outcomes: Seq<Result<T, E>>,
    k: int,
)
    requires
        poller.well_formed(),
        1 <= k <= poller.max_attempts - poller.failures,
        k <= outcomes.len(),
        all_fail(outcomes, k - 1),
        outcomes[k - 1] is Ok,
    ensures
        poll_run(poller, outcomes) == (PollReport {
            result: Some(outcomes[k - 1]),
            probes: k as nat,
            delays: (k - 1) as nat,
        }),
    decreases k,
{
    if k > 1 {
        let next = poller.observed(outcomes[0]).0;
        let rest = outcomes.drop_first();
        assert(outcomes[0] is Err);
        assert forall|i: int| 0 <= i < k - 2 implies (#[trigger] rest[i]) is Err by {
            assert(rest[i] == outcomes[i + 1]);
        }
        assert(rest[k - 2] == outcomes[k - 1]);
        lemma_first_success_ends_round(next, rest, k - 1);
    }
}

/// The last failure is the one returned: when every allowed probe fails, the
/// round makes exactly the attempts that remain, pauses between them and not
/// after the last, and returns the failure of the last probe.
pub proof fn lemma_exhaustion_returns_last_failure<T, E>(
    poller: PollerModel,
    outcomes: Seq<Result<T, E>>,
)
    requires
        poller.well_formed(),
        poller.max_attempts - poller.failures <= outcomes.len(),
        all_fail(outcomes, poller.max_attempts - poller.failures),
    ensures
        poll_run(poller, outcomes) == (PollReport {
            result: Some(outcomes[poller.max_attempts - poller.failures - 1]),
            probes: (poller.max_attempts - poller.failures) as nat,
            delays: (poller.max_attempts - poller.failures - 1) as nat,
        }),
    decreases poller.max_attempts - poller.failures,
{
    let left = poller.max_attempts - poller.failures;
    assert(outcomes[0] is Err);
    if left > 1 {
        let next = poller.observed(outcomes[0]).0;
        let rest = outcomes.drop_first();
        assert forall|i: int| 0 <= i < left - 1 implies (#[trigger] rest[i]) is Err by {
            assert(rest[i] == outcomes[i + 1]);
        }
        assert(rest[left - 2] == outcomes[left - 1]);
        lemma_exhaustion_returns_last_failure(next, rest);
    }
}

/// A round that starts with `n` failures, all short of the ceiling, goes on
/// as the poller that has counted them does on the answers that follow.
pub proof fn lemma_round_after_failures<T, E>(
    poller: PollerModel,
    outcomes: Seq<Result<T, E>>,
    n: int,
)
    requires
        poller.well_formed(),
        0 <= n <= outcomes.len(),
        poller.failures + n < poller.max_attempts,
        all_fail(outcomes, n),
    ensures
        ({
            let later = poll_run(
                PollerModel { failures: (poller.failures + n) as nat, ..poller },
                outcomes.skip(n),
            );
            poll_run(poller, outcomes) == (PollReport {
                result: later.result,
                probes: later.probes + n as nat,
                delays: later.delays + n as nat,
            })
        }),
    decreases n,
{
    if n == 0 {
        assert(outcomes.skip(0) =~= outcomes);
    } else {
        let next = poller.observed(outcomes[0]).0;
        let rest = outcomes.drop_first();
        assert(outcomes[0] is Err);
        assert forall|i: int| 0 <= i < n - 1 implies (#[trigger] rest[i]) is Err by {
            assert(rest[i] == outcomes[i + 1]);
        }
        assert(rest.skip(n - 1) =~= outcomes.skip(n));
        lemma_round_after_failures(next, rest, n - 1);
    }
}

/// Every round ends: given an answer for each attempt that remains, the
/// round ends within those attempts, with one pause less than probes. All
/// probes but the last have failed, the answer of the last is the result, and
/// a failure is the result only when no attempt remains.
pub proof fn lemma_round_ends<T, E>(poller: PollerModel, outcomes: Seq<Result<T, E>>)
    requires
        poller.well_formed(),
        poller.max_attempts - poller.failures <= outcomes.len(),
    ensures
        ({
            let report = poll_run(poller, outcomes);
            &&& 1 <= report.probes <= poller.max_attempts - poller.failures
            &&& report.delays == report.probes - 1
            &&& report.result == Some(outcomes[report.probes - 1])
            &&& all_fail(outcomes, report.probes - 1)
            &&& outcomes[report.probes - 1] is Err ==> report.probes == poller.max_attempts
                - poller.failures
        }),
    decreases poller.max_attempts - poller.failures,
{
    if outcomes[0] is Err && poller.failures + 1 < poller.max_attempts {
        let next = poller.observed(outcomes[0]).0;
        let rest = outcomes.drop_first();
        lemma_round_ends(next, rest);
        let later = poll_run(next, rest);
        assert(rest[later.probes - 1] == outcomes[later.probes as int]);
        assert forall|i: int| 0 <= i < later.probes implies (#[trigger] outcomes[i]) is Err by {
            if i > 0 {
                assert(rest[i - 1] == outcomes[i]);
            }
        }
    }
}

/// Whether each of `outcomes` is an answer that `probe` may give.
pub open spec fn answers_of<T, E, F: FnMut() -> Result<T, E>>(
    probe: F,
    outcomes: Seq<Result<T, E>>,
) -> bool {
    forall|i: int| 0 <= i < outcomes.len() ==> call_ensures(probe, (), #[trigger] outcomes[i])
}

/// Calls `probe` until it succeeds or the policy's attempts are used up, and
/// calls `sleep` with the policy's pause between two probes.
///
/// Returns the first success, or the failure of the last probe when none
/// succeeded. Every attempt is a full call of `probe`. No pause follows the
/// probe that ends the round.
///
/// The contract speaks of the answers that `probe` gave, in order: all but
/// the last are failures, the last is what is returned, and a failure is
/// returned only once the policy's attempts are used up.
#[verifier::loop_isolation(false)]
pub fn poll_until<T, E, F, D>(policy: PollPolicy, mut probe: F, mut sleep: D) -> (r: Result<T, E>)
    where
        F: FnMut() -> Result<T, E>,
        D: FnMut(u32) -> (),
    requires
        call_requires(probe, ()),
        call_requires(sleep, (policy.delay_ms(),)),
    ensures
        call_ensures(probe, (), r),
        exists|outcomes: Seq<Result<T, E>>|
            {
                &&& #[trigger] answers_of(probe, outcomes)
                &&& 1 <= outcomes.len() <= policy.max_attempts()
                &&& all_fail(outcomes, outcomes.len() - 1)
                &&& r == outcomes.last()
                &&& r is Err ==> outcomes.len() == policy.max_attempts()
                &&& poll_run(fresh_poller(policy), outcomes) == (PollReport {
                    result: Some(r),
                    probes: outcomes.len(),
                    delays: (outcomes.len() - 1) as nat,
                })
            },
{
    let ghost probe_at_entry = probe;
    let ghost sleep_at_entry = sleep;
    let ghost mut seen: Seq<Result<T, E>> = Seq::empty();
    let mut poller = BoundedPoller::new(policy);
    loop
        invariant
            probe == probe_at_entry,
            sleep == sleep_at_entry,
            answers_of(probe, seen),
            all_fail(seen, seen.len() as int),
            poller@ == (PollerModel { failures: seen.len(), ..fresh_poller(policy) }),
            poller@.well_formed(),
        decreases policy.max_attempts() - seen.len(),
    {
        let outcome = probe();
        let ghost answers = seen.push(outcome);
        proof {
            assert(answers_of(probe, answers));
            lemma_round_after_failures(fresh_poller(policy), answers, seen.len() as int);
            assert(answers.skip(seen.len() as int) =~= seq![outcome]);
            reveal_with_fuel(poll_run, 2);
        }
        match poller.observe(outcome) {
            PollStep::Ready(value) => {
                return Ok(value);
            },
            PollStep::Exhausted(e) => {
                return Err(e);
            },
            PollStep::Retry(pause) => {
                sleep(pause);
                proof {
                    seen = answers;
                }
            },
        }
    }
}

} // verus!
