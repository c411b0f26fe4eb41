//! What to do after a failed write: retry at another replica, retry later,
//! or hand the failure to the caller. The router decides; the caller performs
//! the attempt and reports what came back.

use vstd::prelude::*;
use crate::errors::{ErrorClass, MetaError, NodeId};

verus! {

/// Where the next attempt goes.
#[derive(Debug, Clone, Copy, PartialEq, Eq)]
pub enum Target {
    /// The endpoint that was just tried.
    SameEndpoint,
    /// The replica believed to lead.
    Leader(NodeId),
    /// Any replica: no leader is known.
    AnyReplica,
}

/// The router's verdict on one failure.
#[derive(Debug, Clone, Copy, PartialEq, Eq)]
pub enum RetryAction {
    /// Wait `delay_ms`, then try again at `target`.
    Retry { target: Target, delay_ms: u64 },
    /// Stop, and give the caller the failure just observed.
    Surface,
}

/// The retry budget of a deployment.
#[derive(Debug, Clone, Copy, PartialEq, Eq)]
pub struct RetryConfig {
    /// Attempts allowed for one operation, the first one included.
    pub max_attempts: u32,
    /// Wall time allowed for one operation, in milliseconds.
    pub max_elapsed_ms: u64,
    /// Attempts allowed in a row at one endpoint that fails to connect.
    pub endpoint_attempts: u32,
    /// The pause before a retry while no leader is known, in milliseconds.
    pub backoff_ms: u64,
}

/// One failed attempt, as the caller reports it: the replica it went to, if
/// known, what came back, and the time the operation has taken so far.
#[derive(Debug, Clone, PartialEq)]
pub struct Failure {
    pub attempted: Option<NodeId>,
    pub error: MetaError,
    pub elapsed_ms: u64,
}

/// The last known leader and the budget spent on the operation under way.
#[derive(Debug, Clone, Copy, PartialEq, Eq)]
pub struct RetryRouter {
    pub config: RetryConfig,
    /// The last known leader.
    pub leader: Option<NodeId>,
    /// Failed attempts of the operation under way.
    pub attempts: u32,
    /// Connection failures in a row at the current endpoint.
    pub endpoint_failures: u32,
}

/// Whether a failure is one that another attempt can cure.
pub open spec fn retryable(error: &MetaError) -> bool {
    error is ForwardToLeader || error is ConnectionError
}

/// The leader to remember after `error` came back from `attempted`: a leader
/// that the error names replaces the remembered one; a remembered leader that
/// itself forwards without naming one is forgotten.
pub open spec fn leader_after(
    leader: Option<NodeId>,
    attempted: Option<NodeId>,
    error: &MetaError,
) -> Option<NodeId> {
    match error {
        MetaError::ForwardToLeader(f) => match f.leader {
            Some(id) => Some(id),
            None => if attempted.is_some() && attempted == leader {
                None
            } else {
                leader
            },
        },
        _ => leader,
    }
}

/// Where to go when no particular replica is called for.
pub open spec fn fallback(leader: Option<NodeId>) -> Target {
    match leader {
        Some(id) => Target::Leader(id),
        None => Target::AnyReplica,
    }
}

impl RetryConfig {
    /// Whether the budget is spent once `attempts` attempts have failed and
    /// `elapsed_ms` milliseconds have passed.
    pub open spec fn exhausted(&self, attempts: int, elapsed_ms: u64) -> bool {
        attempts >= self.max_attempts || elapsed_ms >= self.max_elapsed_ms
    }
}

impl RetryRouter {
    /// Whether one more connection failure still leaves room at the endpoint.
    pub open spec fn endpoint_has_room(&self) -> bool {
        self.endpoint_failures + 1 < self.config.endpoint_attempts
    }

    /// The number of failed attempts once one more has failed.
    pub open spec fn attempts_after(&self) -> u32 {
        if self.attempts < u32::MAX {
            (self.attempts + 1) as u32
        } else {
            self.attempts
        }
    }

    /// The router after `error` came back from `attempted`.
    pub open spec fn state_after(&self, attempted: Option<NodeId>, error: &MetaError) -> RetryRouter {
        RetryRouter {
            config: self.config,
            leader: leader_after(self.leader, attempted, error),
            attempts: self.attempts_after(),
            endpoint_failures: if error is ConnectionError && self.endpoint_has_room() {
                (self.endpoint_failures + 1) as u32
            } else {
                0
            },
        }
    }

    /// The verdict on `error`, which came back from `attempted` after
    /// `elapsed_ms` milliseconds of the operation.
    pub open spec fn action_after(
        &self,
        attempted: Option<NodeId>,
        error: &MetaError,
        elapsed_ms: u64,
    ) -> RetryAction {
        let leader = leader_after(self.leader, attempted, error);
        if !retryable(error) || self.config.exhausted(self.attempts + 1, elapsed_ms) {
            RetryAction::Surface
        } else if error is ConnectionError {
            if self.endpoint_has_room() {
                RetryAction::Retry { target: Target::SameEndpoint, delay_ms: 0 }
            } else {
                RetryAction::Retry { target: fallback(leader), delay_ms: 0 }
            }
        } else {
            match leader_named(error) {
                Some(id) => RetryAction::Retry { target: Target::Leader(id), delay_ms: 0 },
                None => RetryAction::Retry {
                    target: fallback(leader),
                    delay_ms: self.config.backoff_ms,
                },
            }
        }
    }

    /// The router after the failures of one operation, in order.
    pub open spec fn after_all(&self, failures: Seq<Failure>) -> RetryRouter
        decreases failures.len(),
    {
        if failures.len() == 0 {
            *self
        } else {
            self.after_all(failures.drop_last()).state_after(
                failures.last().attempted,
                &failures.last().error,
            )
        }
    }

    /// The verdict on the failure at `at`, after those before it.
    pub open spec fn verdict_at(&self, failures: Seq<Failure>, at: int) -> RetryAction
        recommends
            0 <= at < failures.len(),
    {
        self.after_all(failures.take(at)).action_after(
            failures[at].attempted,
            &failures[at].error,
            failures[at].elapsed_ms,
        )
    }

    /// A router that knows no leader and has spent nothing.
    pub fn new(config: RetryConfig) -> (r: Self)
        ensures
            r == (RetryRouter { config, leader: None, attempts: 0, endpoint_failures: 0 }),
    {
        RetryRouter { config, leader: None, attempts: 0, endpoint_failures: 0 }
    }

    /// Starts the budget of a new operation. The known leader stays.
    pub fn begin(&mut self)
        ensures
            *final(self) == (RetryRouter { attempts: 0, endpoint_failures: 0, ..*old(self) }),
    {
        self.attempts = 0;
        self.endpoint_failures = 0;
    }

    /// The last known leader.
    pub fn cached_leader(&self) -> (r: Option<NodeId>)
        ensures
            r == self.leader,
    {
        self.leader
    }

    /// Records that an attempt at `attempted` failed with `error` after
    /// `elapsed_ms` milliseconds, and says what to do next.
    pub fn on_failure(
        &mut self,
        attempted: Option<NodeId>,
        error: &MetaError,
        elapsed_ms: u64,
    ) -> (action: RetryAction)
        ensures
            *final(self) == old(self).state_after(attempted, error),
            action == old(self).action_after(attempted, error, elapsed_ms),
    {
        if self.attempts < u32::MAX {
            self.attempts = self.attempts + 1;
        }
        let spent = self.attempts >= self.config.max_attempts || elapsed_ms
            >= self.config.max_elapsed_ms;
        match error {
            MetaError::ForwardToLeader(forward) => {
                self.endpoint_failures = 0;
                match forward.leader {
                    Some(id) => {
                        self.leader = Some(id);
                        if spent {
                            RetryAction::Surface
                        } else {
                            RetryAction::Retry { target: Target::Leader(id), delay_ms: 0 }
                        }
                    },
                    None => {
                        if same_node(attempted, self.leader) {
                            self.leader = None;
                        }
                        if spent {
                            RetryAction::Surface
                        } else {
                            RetryAction::Retry {
                                target: self.next_stop(),
                                delay_ms: self.config.backoff_ms,
                            }
                        }
                    },
                }
            },
            MetaError::ConnectionError(_) => {
                let room = self.endpoint_failures < u32::MAX && self.endpoint_failures + 1
                    < self.config.endpoint_attempts;
                if room {
                    self.endpoint_failures = self.endpoint_failures + 1;
                } else {
                    self.endpoint_failures = 0;
                }
                if spent {
                    RetryAction::Surface
                } else if room {
                    RetryAction::Retry { target: Target::SameEndpoint, delay_ms: 0 }
                } else {
                    RetryAction::Retry { target: self.next_stop(), delay_ms: 0 }
                }
            },
            _ => {
                self.endpoint_failures = 0;
                RetryAction::Surface
            },
        }
    }

    /// Takes the failures that one operation would meet, attempt by attempt,
    /// and stops at the first that is surfaced: its place is returned, and no
    /// later failure is looked at. Where every failure is answered by
    /// another attempt, there is none.
    pub fn surfaced(&mut self, failures: &Vec<Failure>) -> (r: Option<usize>)
        ensures
            match r {
                Some(at) => at < failures@.len() && old(self).verdict_at(failures@, at as int)
                    == RetryAction::Surface && *final(self) == old(self).after_all(
                    failures@.take(at + 1),
                ),
                None => *final(self) == old(self).after_all(failures@),
            },
            forall|i: int|
                0 <= i < (match r {
                    Some(at) => at as int,
                    None => failures@.len() as int,
                }) ==> #[trigger] old(self).verdict_at(failures@, i) is Retry,
            old(self).attempts == 0 ==> match r {
                Some(at) => at == 0 || at < old(self).config.max_attempts,
                None => failures@.len() < old(self).config.max_attempts || failures@.len() == 0,
            },
    {
        let mut i: usize = 0;
        proof {
            assert(failures@.take(0) =~= Seq::empty());
        }
        while i < failures.len()
            invariant
                i <= failures@.len(),
                *self == old(self).after_all(failures@.take(i as int)),
                forall|j: int| 0 <= j < i ==> #[trigger] old(self).verdict_at(failures@, j) is Retry,
            decreases failures@.len() - i,
        {
            let action = self.on_failure(
                failures[i].attempted,
                &failures[i].error,
                failures[i].elapsed_ms,
            );
            proof {
                let next = failures@.take(i as int + 1);
                assert(next.drop_last() =~= failures@.take(i as int));
                assert(next.last() == failures@[i as int]);
            }
            match action {
                RetryAction::Surface => {
                    proof {
                        if old(self).attempts == 0 {
                            lemma_budget_reached(*old(self), failures@, i as int);
                        }
                    }
                    return Some(i);
                },
                RetryAction::Retry { .. } => {},
            }
            i = i + 1;
        }
        proof {
            assert(failures@.take(failures@.len() as int) =~= failures@);
            if old(self).attempts == 0 && failures@.len() >= old(self).config.max_attempts
                && failures@.len() > 0 {
                let last = failures@.len() - 1;
                lemma_bounded_retry(*old(self), failures@, last);
                assert(old(self).verdict_at(failures@, last) is Retry);
            }
        }
        None
    }

    /// The remembered leader, or any replica where none is remembered.
    pub fn next_stop(&self) -> (r: Target)
        ensures
            r == fallback(self.leader),
    {
        match self.leader {
            Some(id) => Target::Leader(id),
            None => Target::AnyReplica,
        }
    }
}

/// The leader that a failure names, if it names one.
pub open spec fn leader_named(error: &MetaError) -> Option<NodeId> {
    match error {
        MetaError::ForwardToLeader(f) => f.leader,
        _ => None,
    }
}

/// Whether an attempt went to the remembered leader.
fn same_node(attempted: Option<NodeId>, leader: Option<NodeId>) -> (r: bool)
    ensures
        r == (attempted.is_some() && attempted == leader),
{
    match (attempted, leader) {
        (Some(a), Some(l)) => a == l,
        _ => false,
    }
}

/// A leader that a failure names is remembered, whatever was remembered
/// before, and is where the next attempt goes while the budget lasts.
pub proof fn lemma_named_leader_wins(
    router: RetryRouter,
    attempted: Option<NodeId>,
    error: MetaError,
    elapsed_ms: u64,
    id: NodeId,
)
    requires
        leader_named(&error) == Some(id),
    ensures
        router.state_after(attempted, &error).leader == Some(id),
        !router.config.exhausted(router.attempts + 1, elapsed_ms) ==> router.action_after(
            attempted,
            &error,
            elapsed_ms,
        ) == (RetryAction::Retry { target: Target::Leader(id), delay_ms: 0 }),
{
}

/// When a retry at the leader `x` that one failure named is itself forwarded
/// to another leader `y`, the router remembers `y`, and the next attempt goes
/// to `y` while the budget lasts.
pub proof fn lemma_cache_freshness(
    router: RetryRouter,
    attempted: Option<NodeId>,
    first: MetaError,
    second: MetaError,
    x: NodeId,
    y: NodeId,
    elapsed_ms: u64,
)
    requires
        leader_named(&first) == Some(x),
        leader_named(&second) == Some(y),
        x != y,
    ensures
        ({
            let mid = router.state_after(attempted, &first);
            let end = mid.state_after(Some(x), &second);
            &&& mid.leader == Some(x)
            &&& end.leader == Some(y)
            &&& !mid.config.exhausted(mid.attempts + 1, elapsed_ms) ==> mid.action_after(
                Some(x),
                &second,
                elapsed_ms,
            ) == (RetryAction::Retry { target: Target::Leader(y), delay_ms: 0 })
        }),
{
}

/// A remembered leader that forwards without naming a successor is forgotten.
pub proof fn lemma_leader_invalidated(router: RetryRouter, error: MetaError, x: NodeId)
    requires
        router.leader == Some(x),
        error is ForwardToLeader,
        leader_named(&error) is None,
    ensures
        router.state_after(Some(x), &error).leader is None,
{
}

/// The failures of one operation are counted one by one.
pub proof fn lemma_attempts_counted(router: RetryRouter, failures: Seq<Failure>)
    requires
        router.attempts + failures.len() <= u32::MAX,
    ensures
        router.after_all(failures).attempts == router.attempts + failures.len(),
        router.after_all(failures).config == router.config,
    decreases failures.len(),
{
    if failures.len() > 0 {
        lemma_attempts_counted(router, failures.drop_last());
    }
}

/// The count of failed attempts never falls short of the failures seen, up
/// to the largest count that fits.
pub proof fn lemma_attempts_saturate(router: RetryRouter, failures: Seq<Failure>)
    requires
        router.attempts + failures.len() >= u32::MAX,
    ensures
        router.after_all(failures).attempts == u32::MAX,
        router.after_all(failures).config == router.config,
    decreases failures.len(),
{
    if failures.len() > 0 {
        if router.attempts + failures.len() - 1 >= u32::MAX {
            lemma_attempts_saturate(router, failures.drop_last());
        } else {
            lemma_attempts_counted(router, failures.drop_last());
        }
    }
}

/// Bounded retry: of an operation that keeps failing, the failure that uses
/// up the allowed attempts is surfaced, whatever it is and however little
/// time has passed, so no further attempt is asked for.
pub proof fn lemma_bounded_retry(router: RetryRouter, failures: Seq<Failure>, at: int)
    requires
        router.attempts == 0,
        0 <= at < failures.len(),
        at + 1 >= router.config.max_attempts,
    ensures
        router.verdict_at(failures, at) == RetryAction::Surface,
{
    let before = failures.take(at);
    if at + 1 <= u32::MAX {
        lemma_attempts_counted(router, before);
    } else {
        lemma_attempts_saturate(router, before);
    }
}

/// A failure that is answered by another attempt has not used up the
/// allowed attempts: counted from the first, its number is below the limit.
pub proof fn lemma_budget_reached(router: RetryRouter, failures: Seq<Failure>, at: int)
    requires
        router.attempts == 0,
        0 <= at < failures.len(),
        forall|j: int| 0 <= j < at ==> #[trigger] router.verdict_at(failures, j) is Retry,
    ensures
        at == 0 || at < router.config.max_attempts,
{
    if at > 0 && at >= router.config.max_attempts {
        lemma_bounded_retry(router, failures, at - 1);
        assert(router.verdict_at(failures, at - 1) is Retry);
    }
}

/// While attempts and time are left, a failure that another attempt can
/// cure is answered by another attempt. So an operation that meets only such
/// failures, in time, is given up exactly at the last attempt allowed, and
/// what is surfaced is that attempt's failure.
pub proof fn lemma_retried_within_budget(router: RetryRouter, failures: Seq<Failure>, at: int)
    requires
        router.attempts == 0,
        0 <= at < failures.len(),
        at + 1 < router.config.max_attempts,
        retryable(&failures[at].error),
        failures[at].elapsed_ms < router.config.max_elapsed_ms,
    ensures
        router.verdict_at(failures, at) is Retry,
{
    lemma_attempts_counted(router, failures.take(at));
}

/// A failure that no retry can cure is surfaced at once.
pub proof fn lemma_not_retryable_surfaces(
    router: RetryRouter,
    attempted: Option<NodeId>,
    error: MetaError,
    elapsed_ms: u64,
)
    requires
        !retryable(&error),
    ensures
        router.action_after(attempted, &error, elapsed_ms) == RetryAction::Surface,
        router.state_after(attempted, &error).leader == router.leader,
{
}

/// The router asks for another attempt only after a failure of a class that
/// another attempt can cure, and then only while the budget lasts.
pub proof fn lemma_retry_follows_class(
    router: RetryRouter,
    attempted: Option<NodeId>,
    error: MetaError,
    elapsed_ms: u64,
)
    ensures
        router.action_after(attempted, &error, elapsed_ms) is Retry ==> {
            &&& !router.config.exhausted(router.attempts + 1, elapsed_ms)
            &&& (error.class_of() == ErrorClass::Redirect || error.class_of()
                == ErrorClass::Backoff || error.class_of() == ErrorClass::Transient)
        },
        error.class_of() == ErrorClass::Application || error.class_of() == ErrorClass::Operator
            || error.class_of() == ErrorClass::Integrity ==> router.action_after(
            attempted,
            &error,
            elapsed_ms,
        ) == RetryAction::Surface,
        error.class_of() == ErrorClass::Backoff && !router.config.exhausted(
            router.attempts + 1,
            elapsed_ms,
        ) ==> router.action_after(attempted, &error, elapsed_ms) == (RetryAction::Retry {
            target: fallback(leader_after(router.leader, attempted, &error)),
            delay_ms: router.config.backoff_ms,
        }),
{
}

} // verus!
