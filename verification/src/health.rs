//! Remote HTTP health verification: the bounded polling state machine.
//!
//! After an instance with a declared endpoint and port is activated, it is
//! probed once per second at `http://<host>:<port><endpoint>`. The machine
//! moves from `Pending` to `Polling`, turns `Healthy` on the first response
//! with a success status, and turns `Failed` once thirty probes have gone
//! unanswered or unsuccessful. A connection failure is an unsuccessful
//! probe, never a fatal error of its own.

use vstd::prelude::*;

use crate::numtext::dec_int;
use crate::numtext::i32_to_string;
use vstd::string::StringExecFns;

verus! {

/// The number of probes after which verification gives up.
pub const MAX_HEALTH_ATTEMPTS: u32 = 30;

/// What one probe of the endpoint produced.
#[derive(Clone, Copy)]
pub enum ProbeOutcome {
    /// The endpoint answered with this HTTP status code.
    Response { status: u16 },
    /// The endpoint could not be reached at all.
    Unreachable,
}

/// The verification state of one instance.
#[derive(Clone, Copy)]
pub enum HealthState {
    /// No probe sent yet and polling not begun.
    Pending,
    /// Probing, with the number of probes already consumed.
    Polling { attempts: u32 },
    /// A probe answered with a success status.
    Healthy,
    /// Every allowed probe went unanswered or unsuccessful.
    Failed,
}

/// An HTTP status code in the success class.
pub open spec fn is_success_status(status: int) -> bool {
    200 <= status < 300
}

/// Whether the status code reports success.
pub fn status_is_success(status: u16) -> (b: bool)
    ensures
        b == is_success_status(status as int),
{
    200 <= status && status < 300
}

/// Whether this probe outcome ends polling successfully.
pub open spec fn outcome_succeeds(o: ProbeOutcome) -> bool {
    match o {
        ProbeOutcome::Response { status } => is_success_status(status as int),
        ProbeOutcome::Unreachable => false,
    }
}

impl HealthState {
    /// The number of probes consumed so far while polling.
    pub open spec fn attempts_of(self) -> int {
        match self {
            HealthState::Polling { attempts } => attempts as int,
            _ => 0,
        }
    }

    /// The state after one more probe: healthy on a success status, failed
    /// once the last allowed probe went unsuccessful, else polling on.
    pub open spec fn step_spec(self, outcome: ProbeOutcome) -> HealthState {
        if outcome_succeeds(outcome) {
            HealthState::Healthy
        } else if self.attempts_of() + 1 >= MAX_HEALTH_ATTEMPTS {
            HealthState::Failed
        } else {
            HealthState::Polling { attempts: (self.attempts_of() + 1) as u32 }
        }
    }

    /// Enter polling: no probes consumed yet.
    pub fn begin() -> (r: HealthState)
        ensures
            r == (HealthState::Polling { attempts: 0u32 }),
    {
        HealthState::Polling { attempts: 0 }
    }

    /// Record one probe's outcome.
    pub fn step(self, outcome: ProbeOutcome) -> (r: HealthState)
        requires
            self is Polling,
            self.attempts_of() < MAX_HEALTH_ATTEMPTS,
        ensures
            r == self.step_spec(outcome),
    {
        let success = match outcome {
            ProbeOutcome::Response { status } => status_is_success(status),
            ProbeOutcome::Unreachable => false,
        };
        if success {
            HealthState::Healthy
        } else {
            let attempts = match self {
                HealthState::Polling { attempts } => attempts,
                _ => 0,
            };
            if attempts + 1 >= MAX_HEALTH_ATTEMPTS {
                HealthState::Failed
            } else {
                HealthState::Polling { attempts: attempts + 1 }
            }
        }
    }
}

/// The state after consuming probe outcomes in order, stopping at the first
/// terminal state.
pub open spec fn poll_from(state: HealthState, outcomes: Seq<ProbeOutcome>) -> HealthState
    decreases outcomes.len(),
{
    if outcomes.len() == 0 || !(state is Polling) {
        state
    } else {
        poll_from(state.step_spec(outcomes[0]), outcomes.drop_first())
    }
}

/// Polling is bounded: starting from `attempts` probes consumed, at most
/// `MAX_HEALTH_ATTEMPTS - attempts` further outcomes are consumed before the
/// machine reaches a terminal state — and the rest are never looked at.
pub proof fn lemma_poll_bounded(attempts: u32, outcomes: Seq<ProbeOutcome>)
    requires
        attempts < MAX_HEALTH_ATTEMPTS,
        outcomes.len() >= MAX_HEALTH_ATTEMPTS - attempts,
    ensures
        !(poll_from(HealthState::Polling { attempts }, outcomes) is Polling),
        poll_from(HealthState::Polling { attempts }, outcomes) == poll_from(
            HealthState::Polling { attempts },
            outcomes.take(MAX_HEALTH_ATTEMPTS - attempts),
        ),
    decreases outcomes.len(),
{
    let state = HealthState::Polling { attempts };
    let next = state.step_spec(outcomes[0]);
    let bound = MAX_HEALTH_ATTEMPTS - attempts;
    if next is Polling {
        lemma_poll_bounded((attempts + 1) as u32, outcomes.drop_first());
        assert(outcomes.take(bound).drop_first() =~= outcomes.drop_first().take(bound - 1));
        assert(outcomes.take(bound)[0] == outcomes[0]);
    } else {
        assert(outcomes.take(bound)[0] == outcomes[0]);
        assert(poll_from(next, outcomes.drop_first()) == next);
        assert(poll_from(next, outcomes.take(bound).drop_first()) == next);
    }
}

/// Polling stops immediately on the first success: if the `k`-th outcome is
/// the first successful one and it lies within the probe budget, the machine
/// ends healthy.
pub proof fn lemma_poll_first_success(attempts: u32, outcomes: Seq<ProbeOutcome>, k: int)
    requires
        attempts < MAX_HEALTH_ATTEMPTS,
        0 <= k < outcomes.len(),
        k < MAX_HEALTH_ATTEMPTS - attempts,
        outcome_succeeds(outcomes[k]),
        forall|j: int| 0 <= j < k ==> !outcome_succeeds(#[trigger] outcomes[j]),
    ensures
        poll_from(HealthState::Polling { attempts }, outcomes) is Healthy,
        poll_from(HealthState::Polling { attempts }, outcomes) == poll_from(
            HealthState::Polling { attempts },
            outcomes.take(k + 1),
        ),
    decreases k,
{
    let state = HealthState::Polling { attempts };
    let next = state.step_spec(outcomes[0]);
    if k == 0 {
        assert(next is Healthy);
        assert(outcomes.take(1)[0] == outcomes[0]);
        assert(poll_from(next, outcomes.take(1).drop_first()) == next);
    } else {
        assert(!outcome_succeeds(outcomes[0]));
        assert(next == (HealthState::Polling { attempts: (attempts + 1) as u32 }));
        lemma_poll_first_success((attempts + 1) as u32, outcomes.drop_first(), k - 1);
        assert(outcomes.drop_first()[k - 1] == outcomes[k]);
        assert(outcomes.take(k + 1)[0] == outcomes[0]);
        assert(outcomes.take(k + 1).drop_first() =~= outcomes.drop_first().take(k));
    }
}

/// Polling ends in failure when no outcome within the probe budget
/// succeeds.
pub proof fn lemma_poll_all_fail(attempts: u32, outcomes: Seq<ProbeOutcome>)
    requires
        attempts < MAX_HEALTH_ATTEMPTS,
        outcomes.len() >= MAX_HEALTH_ATTEMPTS - attempts,
        forall|j: int|
            0 <= j < MAX_HEALTH_ATTEMPTS - attempts ==> !outcome_succeeds(#[trigger] outcomes[j]),
    ensures
        poll_from(HealthState::Polling { attempts }, outcomes) is Failed,
    decreases outcomes.len(),
{
    let state = HealthState::Polling { attempts };
    assert(!outcome_succeeds(outcomes[0]));
    let next = state.step_spec(outcomes[0]);
    if attempts + 1 >= MAX_HEALTH_ATTEMPTS {
        assert(next is Failed);
        assert(poll_from(next, outcomes.drop_first()) == next);
    } else {
        assert forall|j: int|
            0 <= j < MAX_HEALTH_ATTEMPTS - (attempts + 1) implies !outcome_succeeds(
            #[trigger] outcomes.drop_first()[j],
        ) by {
            assert(outcomes.drop_first()[j] == outcomes[j + 1]);
        }
        lemma_poll_all_fail((attempts + 1) as u32, outcomes.drop_first());
    }
}

/// The probe address of an instance's endpoint on the target host.
pub open spec fn health_url(host: Seq<char>, port: int, endpoint: Seq<char>) -> Seq<char> {
    "http://"@ + host + ":"@ + dec_int(port) + endpoint
}

/// Build the probe address for a declared endpoint and port.
pub fn build_health_url(host: &String, port: i32, endpoint: &String) -> (r: String)
    ensures
        r@ =~= health_url(host@, port as int, endpoint@),
{
    let mut url: String = "http://".to_owned();
    url.append(host.as_str());
    url.append(":");
    let port_text = i32_to_string(port);
    url.append(port_text.as_str());
    url.append(endpoint.as_str());
    url
}

} // verus!
