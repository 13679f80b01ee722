//! The development server probe: where it is sent, and when it is retried.
use vstd::prelude::*;

use crate::text::{ends_with, has_suffix};

verus! {

/// The path of the development server's client script.
pub const CLIENT_SCRIPT_PATH: &'static str = "@vite/client";

/// The probe's address: the host, a single slash, the client script path.
pub open spec fn ping_url(host: Seq<char>) -> Seq<char> {
    if has_suffix(host, seq!['/']) {
        host + CLIENT_SCRIPT_PATH@
    } else {
        host + seq!['/'] + CLIENT_SCRIPT_PATH@
    }
}

/// The address the probe requests.
pub fn ping_endpoint(host: &str) -> (r: String)
    ensures
        r@ == ping_url(host@),
{
    proof {
        reveal_strlit("/");
    }
    assert("/"@ =~= seq!['/']);
    let mut r = String::from_str(host);
    if !ends_with(host, "/") {
        r.append("/");
    }
    r.append(CLIENT_SCRIPT_PATH);
    r
}

/// What one probe request came back with.
#[derive(Debug, PartialEq, Eq, Clone, Copy, Structural)]
pub enum ProbeOutcome {
    /// A response with this status code.
    Status(u16),
    /// No response: the connection failed or timed out.
    TransportError,
}

/// What to do after a request.
#[derive(Debug, PartialEq, Eq, Clone, Copy, Structural)]
pub enum ProbeStep {
    /// Issue the same request again.
    Retry,
    /// Stop; the server is alive exactly when this holds.
    Done(bool),
}

/// The retry budget of one probe.
#[derive(Debug, PartialEq, Eq, Clone, Copy, Structural)]
pub struct HeartBeat {
    pub retries_left: u8,
}

/// The probe's rule: a response ends it, alive on status 200; a failed request is
/// retried while retries are left, and ends it as not alive otherwise.
pub open spec fn probe_step(s: HeartBeat, outcome: ProbeOutcome) -> (HeartBeat, ProbeStep) {
    match outcome {
        ProbeOutcome::Status(code) => (s, ProbeStep::Done(code == 200)),
        ProbeOutcome::TransportError => if s.retries_left > 0 {
            (HeartBeat { retries_left: (s.retries_left - 1) as u8 }, ProbeStep::Retry)
        } else {
            (s, ProbeStep::Done(false))
        },
    }
}

/// The steps the probe takes on `n` failed requests in a row.
pub open spec fn steps_on_failures(s: HeartBeat, n: nat) -> Seq<ProbeStep>
    decreases n,
{
    if n == 0 {
        Seq::empty()
    } else {
        let (s2, step) = probe_step(s, ProbeOutcome::TransportError);
        seq![step] + steps_on_failures(s2, (n - 1) as nat)
    }
}

impl HeartBeat {
    pub fn new(retries: u8) -> (r: HeartBeat)
        ensures
            r.retries_left == retries,
    {
        HeartBeat { retries_left: retries }
    }

    /// Records the outcome of the latest request and says what to do next.
    pub fn record(&mut self, outcome: ProbeOutcome) -> (r: ProbeStep)
        ensures
            (*final(self), r) == probe_step(*old(self), outcome),
    {
        match outcome {
            ProbeOutcome::Status(code) => ProbeStep::Done(code == 200),
            ProbeOutcome::TransportError => {
                if self.retries_left > 0 {
                    self.retries_left = self.retries_left - 1;
                    ProbeStep::Retry
                } else {
                    ProbeStep::Done(false)
                }
            },
        }
    }
}

/// Against a host that never answers, a probe with `retries` retries issues exactly
/// `retries + 1` requests: every failure but the last is retried, and the last ends
/// the probe as not alive.
pub proof fn lemma_unreachable_host_attempts(retries: u8)
    ensures
        ({
            let steps = steps_on_failures(HeartBeat { retries_left: retries }, retries as nat + 1);
            &&& steps.len() == retries as nat + 1
            &&& forall|k: int| 0 <= k < retries ==> steps[k] == ProbeStep::Retry
            &&& steps[retries as int] == ProbeStep::Done(false)
        }),
    decreases retries,
{
    let s = HeartBeat { retries_left: retries };
    let steps = steps_on_failures(s, retries as nat + 1);
    if retries > 0 {
        let r2 = (retries - 1) as u8;
        lemma_unreachable_host_attempts(r2);
        let rest = steps_on_failures(HeartBeat { retries_left: r2 }, r2 as nat + 1);
        assert(steps == seq![ProbeStep::Retry] + rest);
        assert forall|k: int| 0 <= k < retries implies steps[k] == ProbeStep::Retry by {
            if k > 0 {
                assert(steps[k] == rest[k - 1]);
            }
        }
    } else {
        assert(steps_on_failures(s, 0) == Seq::<ProbeStep>::empty());
        assert(steps =~= seq![ProbeStep::Done(false)]);
    }
}

} // verus!
