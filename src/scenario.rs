//! Decisions of the end-to-end exercises: what the worker answers, what the
//! manager expects to see and in which order, and the verdict of the leak probe.
use vstd::prelude::*;
use vstd::string::StringExecFns;

use crate::messages::{
    strings_view, Callback, CallbackV, ManagerMsg, ManagerMsgInternal, ManagerMsgInternalV, WorkerMsg,
    WorkerMsgV,
};

verus! {

/// First resource identifier announced by the worker.
pub open spec fn resource_a() -> Seq<char> {
    "2efe9c25-bd92-49a0-99d7-8b92da014dd5"@
}

/// Second resource identifier announced by the worker.
pub open spec fn resource_b() -> Seq<char> {
    "613eaf56-6efa-45e5-88aa-ea4ad64d8c18"@
}

/// The resource list the worker announces after the tunnel is ready.
pub open spec fn spec_sample_resources() -> Seq<Seq<char>> {
    seq![resource_a(), resource_b()]
}

/// The two resource identifiers the worker announces, in order.
pub fn sample_resources() -> (r: Vec<String>)
    ensures
        strings_view(r@) == spec_sample_resources(),
{
    let mut r: Vec<String> = Vec::new();
    r.push(String::from_str("2efe9c25-bd92-49a0-99d7-8b92da014dd5"));
    r.push(String::from_str("613eaf56-6efa-45e5-88aa-ea4ad64d8c18"));
    assert(strings_view(r@) =~= spec_sample_resources());
    r
}

/// How many times the leak probe asks the worker for an answer.
pub const PROBE_ATTEMPTS: u32 = 5;

/// The worker's answer to a manager message: a user request is echoed back
/// as its response; anything else ends the worker's loop.
pub open spec fn spec_worker_reply(m: ManagerMsgInternalV) -> Option<WorkerMsgV> {
    match m {
        ManagerMsgInternalV::User(req) => Some(WorkerMsgV::Response(req)),
        _ => None,
    }
}

pub fn worker_reply(m: &ManagerMsgInternal) -> (r: Option<WorkerMsg>)
    ensures
        r matches Some(w) ==> spec_worker_reply(m@) == Some(w@),
        r is None ==> spec_worker_reply(m@) is None,
{
    match m {
        ManagerMsgInternal::User(req) => Some(WorkerMsg::Response(*req)),
        _ => None,
    }
}

/// Why an exercise failed.
#[derive(Clone, Copy, Debug, PartialEq, Eq, Structural)]
pub enum ScenarioError {
    /// The worker sent a message other than the one due next.
    Unexpected,
    /// An operation took longer than its budget.
    TooSlow,
    /// With protection on, the worker still answered after its manager died.
    WorkerOutlivedManager,
    /// With protection off, the worker stopped answering: the setup is invalid.
    WorkerStoppedUnprotected,
}

/// Where the manager stands in the API exercise.
#[derive(Clone, Copy, Debug, PartialEq, Eq, Structural)]
pub enum ApiStage {
    AwaitTunnelReady,
    AwaitResources,
    AwaitResponse,
    Done,
}

/// What the manager does after a message of the API exercise.
#[derive(Clone, Copy, Debug, PartialEq, Eq, Structural)]
pub enum ApiAction {
    /// Wait for the next message.
    Wait,
    /// Send [`ManagerMsg::Connect`].
    SendConnect,
    /// Close the server and expect the worker to exit successfully.
    CloseServer,
}

/// The API exercise expects, in order: the tunnel is ready, the sample
/// resources, and the response to `Connect`.
pub open spec fn spec_api_step(stage: ApiStage, m: WorkerMsgV) -> Option<(ApiStage, ApiAction)> {
    match (stage, m) {
        (ApiStage::AwaitTunnelReady, WorkerMsgV::Callback(CallbackV::TunnelReady)) => Some(
            (ApiStage::AwaitResources, ApiAction::Wait),
        ),
        (ApiStage::AwaitResources, WorkerMsgV::Callback(CallbackV::OnUpdateResources(v))) => {
            if v == spec_sample_resources() {
                Some((ApiStage::AwaitResponse, ApiAction::SendConnect))
            } else {
                None
            }
        },
        (ApiStage::AwaitResponse, WorkerMsgV::Response(ManagerMsg::Connect)) => Some(
            (ApiStage::Done, ApiAction::CloseServer),
        ),
        _ => None,
    }
}

fn same_strings(a: &Vec<String>, b: &Vec<String>) -> (r: bool)
    ensures
        r == (strings_view(a@) == strings_view(b@)),
{
    if a.len() != b.len() {
        assert(strings_view(a@).len() != strings_view(b@).len());
        return false;
    }
    let mut i: usize = 0;
    while i < a.len()
        invariant
            a@.len() == b@.len(),
            0 <= i <= a@.len(),
            forall|j: int| 0 <= j < i ==> a@[j]@ == b@[j]@,
        decreases a@.len() - i,
    {
        if !a[i].eq(&b[i]) {
            assert(strings_view(a@)[i as int] != strings_view(b@)[i as int]);
            return false;
        }
        i = i + 1;
    }
    assert(strings_view(a@) =~= strings_view(b@));
    true
}

/// One step of the API exercise.
pub fn api_step(stage: ApiStage, m: &WorkerMsg) -> (r: Result<(ApiStage, ApiAction), ScenarioError>)
    ensures
        match r {
            Ok(next) => spec_api_step(stage, m@) == Some(next),
            Err(e) => spec_api_step(stage, m@) is None && e == ScenarioError::Unexpected,
        },
{
    match (stage, m) {
        (ApiStage::AwaitTunnelReady, WorkerMsg::Callback(Callback::TunnelReady)) => Ok(
            (ApiStage::AwaitResources, ApiAction::Wait),
        ),
        (ApiStage::AwaitResources, WorkerMsg::Callback(Callback::OnUpdateResources(v))) => {
            if same_strings(v, &sample_resources()) {
                Ok((ApiStage::AwaitResponse, ApiAction::SendConnect))
            } else {
                Err(ScenarioError::Unexpected)
            }
        },
        (ApiStage::AwaitResponse, WorkerMsg::Response(ManagerMsg::Connect)) => Ok(
            (ApiStage::Done, ApiAction::CloseServer),
        ),
        _ => Err(ScenarioError::Unexpected),
    }
}

/// An operation whose duration is bounded.
#[derive(Clone, Copy, Debug, PartialEq, Eq, Structural)]
pub enum Latency {
    /// Connecting and the first request/response round trips.
    RoundTrips,
    ServerClose,
    ClientClose,
}

/// The budget of an operation, in microseconds.
pub open spec fn spec_budget_micros(l: Latency) -> u64 {
    match l {
        Latency::RoundTrips => 100_000,
        Latency::ServerClose => 20_000,
        Latency::ClientClose => 5_000,
    }
}

pub fn budget_micros(l: Latency) -> (r: u64)
    ensures
        r == spec_budget_micros(l),
{
    match l {
        Latency::RoundTrips => 100_000,
        Latency::ServerClose => 20_000,
        Latency::ClientClose => 5_000,
    }
}

/// Fails unless the operation took strictly less than its budget.
pub fn check_latency(l: Latency, elapsed_micros: u64) -> (r: Result<(), ScenarioError>)
    ensures
        r is Ok <==> elapsed_micros < spec_budget_micros(l),
        r is Err ==> r == Err::<(), ScenarioError>(ScenarioError::TooSlow),
{
    if elapsed_micros < budget_micros(l) {
        Ok(())
    } else {
        Err(ScenarioError::TooSlow)
    }
}

/// After the manager was killed, the probe asks again only while the worker
/// still answers and attempts remain.
pub fn probe_again(attempts_done: u32, worker_answered: bool) -> (r: bool)
    ensures
        r == (worker_answered && attempts_done < PROBE_ATTEMPTS),
{
    worker_answered && attempts_done < PROBE_ATTEMPTS
}

/// The verdict of the leak exercise from the final probe: with protection the
/// worker must neither take a request nor answer; without it, it must do both.
pub fn leak_verdict(protection: bool, send_ok: bool, recv_ok: bool) -> (r: Result<(), ScenarioError>)
    ensures
        r is Ok <==> (if protection {
            !send_ok && !recv_ok
        } else {
            send_ok && recv_ok
        }),
        r is Err ==> r == Err::<(), ScenarioError>(
            if protection {
                ScenarioError::WorkerOutlivedManager
            } else {
                ScenarioError::WorkerStoppedUnprotected
            },
        ),
{
    if protection {
        if !send_ok && !recv_ok {
            Ok(())
        } else {
            Err(ScenarioError::WorkerOutlivedManager)
        }
    } else {
        if send_ok && recv_ok {
            Ok(())
        } else {
            Err(ScenarioError::WorkerStoppedUnprotected)
        }
    }
}

} // verus!
