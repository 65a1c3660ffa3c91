use vstd::prelude::*;

verus! {

/// The result of one fetch attempt for one record.
#[derive(Clone, Copy, Debug, PartialEq, Eq, Structural)]
pub enum Attempt {
    /// The document was retrieved and stored.
    Fetched,
    /// The archive says the document does not exist.
    Missing,
    /// Access was denied or throttled.
    Blocked,
    /// Any other failure: a network error, an unexpected status, a failed write.
    Transient,
}

/// The terminal classification of one record.
#[derive(Clone, Copy, Debug, PartialEq, Eq, Structural)]
pub enum Outcome {
    Success,
    NotFound,
    Blocked,
    Failed,
}

/// How many fetch attempts one record gets, and how long to wait between them.
#[derive(Clone, Copy, Debug, PartialEq, Eq, Structural)]
pub struct RetryPolicy {
    pub max_attempts: u32,
    pub backoff_secs: u64,
}

pub const DEFAULT_MAX_ATTEMPTS: u32 = 3;

pub const DEFAULT_BACKOFF_SECS: u64 = 5;

impl RetryPolicy {
    pub open spec fn wf(&self) -> bool {
        self.max_attempts >= 1
    }

    /// The policy used unless configured otherwise.
    pub fn standard() -> (r: RetryPolicy)
        ensures
            r.wf(),
            r.max_attempts == DEFAULT_MAX_ATTEMPTS,
            r.backoff_secs == DEFAULT_BACKOFF_SECS,
    {
        RetryPolicy { max_attempts: DEFAULT_MAX_ATTEMPTS, backoff_secs: DEFAULT_BACKOFF_SECS }
    }

    /// A policy with the given bounds; `None` when it would allow no attempt at all.
    pub fn new(max_attempts: u32, backoff_secs: u64) -> (r: Option<RetryPolicy>)
        ensures
            r is None <==> max_attempts == 0,
            r matches Some(p) ==> p.wf() && p.max_attempts == max_attempts && p.backoff_secs
                == backoff_secs,
    {
        if max_attempts == 0 {
            None
        } else {
            Some(RetryPolicy { max_attempts, backoff_secs })
        }
    }
}

/// Where one record's retry loop stands.
#[derive(Clone, Copy, Debug, PartialEq, Eq, Structural)]
pub enum RetryState {
    /// Ready to fetch; `attempts` fetches were made before.
    Start { attempts: u32 },
    /// The last fetch failed and another is allowed: rotate identity and wait.
    Retryable { attempts: u32 },
    /// Done.
    Terminal(Outcome),
}

/// What the driver of a retry loop is to do next.
#[derive(Clone, Copy, Debug, PartialEq, Eq, Structural)]
pub enum Action {
    Fetch,
    RotateAndWait,
    Finish(Outcome),
}

/// The outcome of a failed final attempt.
pub open spec fn exhausted(a: Attempt) -> Outcome {
    if a == Attempt::Blocked {
        Outcome::Blocked
    } else {
        Outcome::Failed
    }
}

/// The outcome of a record, and the number of fetches it took, when attempt
/// `n` (counted from 0) onwards return `script[n]`, `script[n + 1]`, ...
pub open spec fn settle(max: nat, n: nat, script: Seq<Attempt>) -> (Outcome, nat)
    decreases max - n,
{
    if n >= max || n >= script.len() {
        (Outcome::Failed, n)
    } else {
        match script[n as int] {
            Attempt::Fetched => (Outcome::Success, n + 1),
            Attempt::Missing => (Outcome::NotFound, n + 1),
            a => if n + 1 < max {
                settle(max, n + 1, script)
            } else {
                (exhausted(a), n + 1)
            },
        }
    }
}

impl RetryState {
    /// A record's loop begins with no fetch made.
    pub fn new() -> (r: RetryState)
        ensures
            r == (RetryState::Start { attempts: 0 }),
    {
        RetryState::Start { attempts: 0 }
    }

    pub open spec fn wf(&self, policy: RetryPolicy) -> bool {
        match *self {
            RetryState::Start { attempts } => attempts < policy.max_attempts,
            RetryState::Retryable { attempts } => 0 < attempts < policy.max_attempts,
            RetryState::Terminal(_) => true,
        }
    }

    /// What to do in this state.
    pub fn action(&self) -> (r: Action)
        ensures
            (*self is Start) == (r == Action::Fetch),
            (*self is Retryable) == (r == Action::RotateAndWait),
            *self matches RetryState::Terminal(o) ==> r == Action::Finish(o),
    {
        match *self {
            RetryState::Start { .. } => Action::Fetch,
            RetryState::Retryable { .. } => Action::RotateAndWait,
            RetryState::Terminal(o) => Action::Finish(o),
        }
    }

    /// The state after a fetch returned `a`. A retrieval or a "not found" ends
    /// the loop at once; a failure leads to another attempt while the policy
    /// allows one, and otherwise ends the loop as `Blocked` or `Failed` after
    /// the kind of the last failure.
    pub fn advance(&self, policy: RetryPolicy, a: Attempt) -> (r: RetryState)
        requires
            policy.wf(),
            self.wf(policy),
            *self is Start,
        ensures
            r.wf(policy),
            a == Attempt::Fetched ==> r == RetryState::Terminal(Outcome::Success),
            a == Attempt::Missing ==> r == RetryState::Terminal(Outcome::NotFound),
            (a == Attempt::Blocked || a == Attempt::Transient) ==> r == (if self->Start_attempts + 1
                < policy.max_attempts {
                RetryState::Retryable { attempts: (self->Start_attempts + 1) as u32 }
            } else {
                RetryState::Terminal(exhausted(a))
            }),
    {
        let attempts = match *self {
            RetryState::Start { attempts } => attempts,
            _ => 0,
        };
        match a {
            Attempt::Fetched => RetryState::Terminal(Outcome::Success),
            Attempt::Missing => RetryState::Terminal(Outcome::NotFound),
            Attempt::Blocked | Attempt::Transient => {
                let made = attempts + 1;
                if made < policy.max_attempts {
                    RetryState::Retryable { attempts: made }
                } else if a == Attempt::Blocked {
                    RetryState::Terminal(Outcome::Blocked)
                } else {
                    RetryState::Terminal(Outcome::Failed)
                }
            },
        }
    }

    /// The state after identity rotation and the backoff wait, whether or not
    /// the rotation itself succeeded.
    pub fn resume(&self) -> (r: RetryState)
        requires
            *self is Retryable,
        ensures
            r == (RetryState::Start { attempts: self->Retryable_attempts }),
    {
        match *self {
            RetryState::Retryable { attempts } => RetryState::Start { attempts },
            _ => RetryState::Start { attempts: 0 },
        }
    }
}

/// What one record's retry loop came to.
#[derive(Clone, Copy, Debug, PartialEq, Eq, Structural)]
pub struct RetryRun {
    pub outcome: Outcome,
    pub fetches: u32,
    pub rotations: u32,
}

/// Runs one record's retry loop against the fetch results `script`, the
/// `i`-th of which is what the `i`-th fetch returns. Identity is rotated once
/// between each two consecutive fetches.
pub fn run_retry(policy: RetryPolicy, script: &Vec<Attempt>) -> (r: RetryRun)
    requires
        policy.wf(),
        script@.len() >= policy.max_attempts,
    ensures
        r.outcome == settle(policy.max_attempts as nat, 0, script@).0,
        r.fetches as nat == settle(policy.max_attempts as nat, 0, script@).1,
        1 <= r.fetches <= policy.max_attempts,
        r.rotations == r.fetches - 1,
{
    let mut state = RetryState::new();
    let mut fetches: u32 = 0;
    let mut rotations: u32 = 0;
    let ghost max = policy.max_attempts as nat;
    loop
        invariant
            policy.wf(),
            max == policy.max_attempts as nat,
            script@.len() >= max,
            state.wf(policy),
            state matches RetryState::Start { attempts } ==> attempts == fetches && settle(
                max,
                attempts as nat,
                script@,
            ) == settle(max, 0, script@) && rotations == fetches,
            state matches RetryState::Retryable { attempts } ==> attempts == fetches && settle(
                max,
                attempts as nat,
                script@,
            ) == settle(max, 0, script@) && rotations + 1 == fetches,
            state matches RetryState::Terminal(o) ==> (o, fetches as nat) == settle(
                max,
                0,
                script@,
            ) && rotations + 1 == fetches && 1 <= fetches <= max,
        decreases (if state is Terminal {
            0
        } else {
            2 * (max - fetches) + (if state is Retryable {
                1int
            } else {
                0
            })
        }),
    {
        match state.action() {
            Action::Fetch => {
                let a = script[fetches as usize];
                state = state.advance(policy, a);
                fetches = fetches + 1;
            },
            Action::RotateAndWait => {
                state = state.resume();
                rotations = rotations + 1;
            },
            Action::Finish(outcome) => {
                return RetryRun { outcome, fetches, rotations };
            },
        }
    }
}

/// A record whose every attempt fails transiently is fetched exactly
/// `max_attempts` times, with an identity rotation between each two of them,
/// and ends as `Failed`.
pub proof fn lemma_transient_exhausts_budget(max: nat, script: Seq<Attempt>)
    requires
        max >= 1,
        script.len() >= max,
        forall|i: int| 0 <= i < max ==> script[i] == Attempt::Transient,
    ensures
        settle(max, 0, script) == (Outcome::Failed, max),
{
    lemma_transient_from(max, 0, script);
}

proof fn lemma_transient_from(max: nat, n: nat, script: Seq<Attempt>)
    requires
        n < max,
        script.len() >= max,
        forall|i: int| 0 <= i < max ==> script[i] == Attempt::Transient,
    ensures
        settle(max, n, script) == (Outcome::Failed, max),
    decreases max - n,
{
    if n + 1 < max {
        lemma_transient_from(max, n + 1, script);
    }
}

/// A record whose first attempt finds nothing is `NotFound` after one fetch,
/// that is with no retry and no identity rotation.
pub proof fn lemma_missing_is_final(max: nat, script: Seq<Attempt>)
    requires
        max >= 1,
        script.len() >= 1,
        script[0] == Attempt::Missing,
    ensures
        settle(max, 0, script) == (Outcome::NotFound, 1nat),
{
}

} // verus!
