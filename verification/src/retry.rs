//! Calls that are made again when they fail for a passing reason.
use vstd::arithmetic::power2::pow2;
use vstd::prelude::*;

use crate::error::RustlizaError;
use crate::models;
use crate::passages;
use crate::text;

verus! {

/// The error is one of the model provider's that may pass.
pub open spec fn retryable(e: RustlizaError) -> bool {
    match e {
        RustlizaError::ModelProvider(msg) => {
            ||| text::has(msg@, "529"@)
            ||| text::has(msg@, "500"@)
            ||| text::has(msg@, "502"@)
            ||| text::has(msg@, "503"@)
            ||| text::has(msg@, "429"@)
            ||| text::has(msg@, "request failed"@)
            ||| text::has(msg@, "stream request failed"@)
        },
        _ => false,
    }
}

/// Whether the error is one of the model provider's that may pass.
pub fn is_retryable(e: &RustlizaError) -> (r: bool)
    ensures
        r == retryable(*e),
{
    match e {
        RustlizaError::ModelProvider(msg) => {
            let m = msg.as_str();
            text::contains(m, "529") || text::contains(m, "500") || text::contains(m, "502")
                || text::contains(m, "503") || text::contains(m, "429") || text::contains(
                m,
                "request failed",
            ) || text::contains(m, "stream request failed")
        },
        _ => false,
    }
}

/// What to do next about a call that may be made several times.
pub enum RetryAction<T> {
    /// Make the call.
    Call,
    /// Sleep for so many milliseconds, then make the call.
    SleepThenCall(u64),
    /// Return this.
    Finish(Result<T, RustlizaError>),
}

/// A call in the course of being made at most `max_attempts` times.
pub struct Retry {
    pub attempt: u32,
    pub max_attempts: u32,
}

/// The milliseconds to wait after the failure of attempt `attempt`, counted
/// from zero.
pub open spec fn delay_ms(attempt: nat) -> nat {
    100 * pow2(attempt)
}

/// The longest wait that can be counted.
pub open spec fn delay_fits(attempt: nat) -> bool {
    delay_ms(attempt) <= u64::MAX
}

/// Two to the power `n`.
fn power_of_two(n: u32) -> (r: u64)
    requires
        pow2(n as nat) <= u64::MAX,
    ensures
        r == pow2(n as nat),
{
    let mut r: u64 = 1;
    let mut i: u32 = 0;
    proof {
        vstd::arithmetic::power2::lemma2_to64();
    }
    while i < n
        invariant
            i <= n,
            r == pow2(i as nat),
            pow2(n as nat) <= u64::MAX,
        decreases n - i,
    {
        proof {
            vstd::arithmetic::power2::lemma_pow2_unfold((i + 1) as nat);
            if i + 1 < n {
                vstd::arithmetic::power2::lemma_pow2_strictly_increases((i + 1) as nat, n as nat);
            }
        }
        r = r * 2;
        i = i + 1;
    }
    r
}

/// The call is not made again after attempt `attempt`, counted from zero, came out
/// as `outcome`: it succeeded, or its error does not pass, or it was the last.
pub open spec fn ends<T>(attempt: nat, max_attempts: nat, outcome: Result<T, RustlizaError>) -> bool {
    outcome is Ok || !retryable(outcome->Err_0) || attempt + 1 >= max_attempts
}

impl Retry {
    /// There is an attempt to be made or one under way.
    pub open spec fn running(self) -> bool {
        self.attempt < self.max_attempts
    }

    pub fn new(max_attempts: u32) -> (r: Self)
        ensures
            r.attempt == 0,
            r.max_attempts == max_attempts,
    {
        Retry { attempt: 0, max_attempts }
    }

    /// The first thing to do: without any attempt allowed there is an error.
    pub fn first<T>(&self) -> (r: RetryAction<T>)
        ensures
            match r {
                RetryAction::Call => self.running(),
                RetryAction::SleepThenCall(_) => false,
                RetryAction::Finish(res) => {
                    &&& !self.running()
                    &&& res is Err
                    &&& res->Err_0 is Other
                    &&& res->Err_0->Other_0@ == "no attempts made"@
                },
            },
    {
        if self.attempt < self.max_attempts {
            RetryAction::Call
        } else {
            RetryAction::Finish(Err(RustlizaError::Other("no attempts made".to_owned())))
        }
    }

    /// What to do after an attempt came out as `outcome`: a success is returned;
    /// so is an error that does not pass, and the error of the last attempt;
    /// any other error leads to a wait, twice as long each time, and one more
    /// attempt.
    pub fn step<T>(&mut self, outcome: Result<T, RustlizaError>) -> (r: RetryAction<T>)
        requires
            old(self).running(),
            old(self).attempt + 1 < old(self).max_attempts ==> delay_fits(old(self).attempt as nat),
        ensures
            final(self).max_attempts == old(self).max_attempts,
            match r {
                RetryAction::Call => false,
                RetryAction::SleepThenCall(ms) => {
                    &&& !ends(old(self).attempt as nat, old(self).max_attempts as nat, outcome)
                    &&& ms == delay_ms(old(self).attempt as nat)
                    &&& final(self).attempt == old(self).attempt + 1
                    &&& final(self).running()
                },
                RetryAction::Finish(res) => {
                    &&& ends(old(self).attempt as nat, old(self).max_attempts as nat, outcome)
                    &&& res == outcome
                    &&& final(self).attempt == old(self).attempt
                },
            },
    {
        match outcome {
            Ok(val) => RetryAction::Finish(Ok(val)),
            Err(e) => {
                let again = is_retryable(&e);
                if !again || self.attempt + 1 >= self.max_attempts {
                    RetryAction::Finish(Err(e))
                } else {
                    let ms: u64 = 100 * power_of_two(self.attempt);
                    self.attempt = self.attempt + 1;
                    RetryAction::SleepThenCall(ms)
                }
            },
        }
    }
}

/// What becomes of a call whose attempts come out one way after another.
pub struct Course<T> {
    /// How often the call is made.
    pub calls: nat,
    /// The milliseconds that are waited between the calls.
    pub waits: Seq<nat>,
    /// What is returned; nothing where the outcomes do not reach so far.
    pub result: Option<Result<T, RustlizaError>>,
}

/// What becomes of a call from attempt `attempt` on, of which the outcomes are those
/// that are still to come.
pub open spec fn course<T>(
    attempt: nat,
    max_attempts: nat,
    outcomes: Seq<Result<T, RustlizaError>>,
) -> Course<T>
    decreases outcomes.len(),
{
    if outcomes.len() == 0 {
        Course { calls: 0, waits: Seq::empty(), result: None }
    } else if ends(attempt, max_attempts, outcomes[0]) {
        Course { calls: 1, waits: Seq::empty(), result: Some(outcomes[0]) }
    } else {
        let later = course(attempt + 1, max_attempts, outcomes.drop_first());
        Course {
            calls: later.calls + 1,
            waits: seq![delay_ms(attempt)] + later.waits,
            result: later.result,
        }
    }
}

/// The first `k` of the calls are made and no other where the `k`-th is the first
/// that ends them.
pub open spec fn ends_first<T>(
    max_attempts: nat,
    outcomes: Seq<Result<T, RustlizaError>>,
    k: nat,
) -> bool {
    &&& 0 < k <= outcomes.len()
    &&& ends((k - 1) as nat, max_attempts, outcomes[k - 1])
    &&& forall|i: int| 0 <= i < k - 1 ==> !ends(i as nat, max_attempts, #[trigger] outcomes[i])
}

proof fn lemma_course<T>(
    attempt: nat,
    max_attempts: nat,
    outcomes: Seq<Result<T, RustlizaError>>,
    k: nat,
)
    requires
        0 < k <= outcomes.len(),
        ends((attempt + k - 1) as nat, max_attempts, outcomes[k - 1]),
        forall|i: int|
            0 <= i < k - 1 ==> !ends((attempt + i) as nat, max_attempts, #[trigger] outcomes[i]),
    ensures
        course(attempt, max_attempts, outcomes) == (Course {
            calls: k,
            waits: Seq::new((k - 1) as nat, |i: int| delay_ms((attempt + i) as nat)),
            result: Some(outcomes[k - 1]),
        }),
    decreases k,
{
    let waits = Seq::new((k - 1) as nat, |i: int| delay_ms((attempt + i) as nat));
    if k == 1 {
        assert(waits =~= Seq::empty());
    } else {
        let later = outcomes.drop_first();
        assert(!ends((attempt + 0) as nat, max_attempts, outcomes[0]));
        assert forall|i: int| 0 <= i < k - 2 implies !ends(
            (attempt + 1 + i) as nat,
            max_attempts,
            #[trigger] later[i],
        ) by {
            assert(later[i] == outcomes[i + 1]);
        }
        lemma_course(attempt + 1, max_attempts, later, (k - 1) as nat);
        assert(waits =~= seq![delay_ms(attempt)] + Seq::new(
            (k - 2) as nat,
            |i: int| delay_ms((attempt + 1 + i) as nat),
        ));
    }
}

/// A call is made until an attempt succeeds, fails for a reason that does not pass,
/// or is the last: that makes `k` calls, with the waits of the first `k - 1` between
/// them, and what is returned is the outcome of the `k`-th.
pub proof fn calls_are_made_until_one_ends<T>(
    max_attempts: nat,
    outcomes: Seq<Result<T, RustlizaError>>,
    k: nat,
)
    requires
        ends_first(max_attempts, outcomes, k),
    ensures
        course(0, max_attempts, outcomes) == (Course {
            calls: k,
            waits: Seq::new((k - 1) as nat, |i: int| delay_ms(i as nat)),
            result: Some(outcomes[k - 1]),
        }),
{
    assert forall|i: int| 0 <= i < k - 1 implies !ends(
        (0 + i) as nat,
        max_attempts,
        #[trigger] outcomes[i],
    ) by {}
    lemma_course(0, max_attempts, outcomes, k);
    assert(Seq::new((k - 1) as nat, |i: int| delay_ms((0nat + i) as nat)) =~= Seq::new(
        (k - 1) as nat,
        |i: int| delay_ms(i as nat),
    ));
}

/// A call that may be made at all comes to its end with the last attempt at the
/// latest: one of the first `max_attempts` outcomes is returned.
pub proof fn calls_come_to_an_end<T>(
    max_attempts: nat,
    outcomes: Seq<Result<T, RustlizaError>>,
) -> (k: nat)
    requires
        0 < max_attempts <= outcomes.len(),
    ensures
        0 < k <= max_attempts,
        ends_first(max_attempts, outcomes, k),
        course(0, max_attempts, outcomes).calls == k,
        course(0, max_attempts, outcomes).result == Some(outcomes[k - 1]),
{
    let k = first_end(max_attempts, outcomes, 0);
    calls_are_made_until_one_ends(max_attempts, outcomes, k);
    k
}

/// The first of the attempts that ends the calls, those before `from` ending
/// nothing.
proof fn first_end<T>(
    max_attempts: nat,
    outcomes: Seq<Result<T, RustlizaError>>,
    from: nat,
) -> (k: nat)
    requires
        from < max_attempts <= outcomes.len(),
        forall|i: int| 0 <= i < from ==> !ends(i as nat, max_attempts, #[trigger] outcomes[i]),
    ensures
        k <= max_attempts,
        ends_first(max_attempts, outcomes, k),
    decreases max_attempts - from,
{
    if ends(from, max_attempts, outcomes[from as int]) {
        from + 1
    } else {
        first_end(max_attempts, outcomes, from + 1)
    }
}

/// Three attempts, the number that is used for every model, have delays that
/// can be counted: 100 milliseconds after the first, 200 after the second.
pub proof fn three_attempts_fit(attempt: nat)
    requires
        attempt < 3,
    ensures
        delay_fits(attempt),
        delay_ms(0) == 100,
        delay_ms(1) == 200,
        delay_ms(2) == 400,
{
    vstd::arithmetic::power2::lemma2_to64();
}

/// Each wait is twice as long as the one before.
pub proof fn delays_double(attempt: nat)
    ensures
        delay_ms(attempt + 1) == 2 * delay_ms(attempt),
{
    vstd::arithmetic::power2::lemma_pow2_unfold(attempt + 1);
}

/// Where a service answers that it is overloaded, has failed inside or is asked too often,
/// the call is made again, whatever else it says. Errors that are not the service's are
/// never a reason to.
pub proof fn busy_services_are_asked_again(
    what: Seq<char>,
    status: Seq<char>,
    said: Option<Seq<char>>,
    body: Seq<char>,
    e: RustlizaError,
)
    requires
        e is ModelProvider ==> e->ModelProvider_0@ == models::status_error(what, status, said, body),
    ensures
        !(e is ModelProvider) ==> !retryable(e),
        e is ModelProvider && (status == "429"@ || status == "500"@ || status == "502"@ || status
            == "503"@ || status == "529"@) ==> retryable(e),
{
    if e is ModelProvider {
        models::failures_are_told(what, status, said, body);
        passages::lemma_each(e->ModelProvider_0@, seq![what, status], 1);
    }
}

} // verus!
