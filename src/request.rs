use vstd::prelude::*;

use crate::error::ListError;

verus! {

/// What the transport reported for one GET.
#[derive(Debug)]
pub enum TransportOutcome {
    /// The request succeeded with this body.
    Success(String),
    /// The store asked for the request to be sent to this endpoint instead.
    Redirect(String),
    /// The request failed with this message.
    Failure(String),
}

/// What to do after a transport outcome.
#[derive(Debug)]
pub enum RequestStep {
    /// Send the same request again, to this endpoint.
    Retry(String),
    /// The request is answered with this body.
    Done(String),
    /// The request failed for good.
    Fail(ListError),
}

/// The rule for one outcome: a success or a failure ends the request; a
/// redirect is followed once, and a redirect after that is a loop.
pub open spec fn spec_request_step(already_redirected: bool, outcome: TransportOutcome) -> RequestStep {
    match outcome {
        TransportOutcome::Success(body) => RequestStep::Done(body),
        TransportOutcome::Failure(msg) => RequestStep::Fail(ListError::Transport(msg)),
        TransportOutcome::Redirect(endpoint) => if already_redirected {
            RequestStep::Fail(ListError::RedirectLoop)
        } else {
            RequestStep::Retry(endpoint)
        },
    }
}

pub fn request_step(already_redirected: bool, outcome: TransportOutcome) -> (r: RequestStep)
    ensures
        r == spec_request_step(already_redirected, outcome),
{
    match outcome {
        TransportOutcome::Success(body) => RequestStep::Done(body),
        TransportOutcome::Failure(msg) => RequestStep::Fail(ListError::Transport(msg)),
        TransportOutcome::Redirect(endpoint) => if already_redirected {
            RequestStep::Fail(ListError::RedirectLoop)
        } else {
            RequestStep::Retry(endpoint)
        },
    }
}

/// How one request ends when the transport answers its attempts with
/// `outcomes` in turn: the result (none if the outcomes run out first) and the
/// number of attempts sent.
pub open spec fn request_run(outcomes: Seq<TransportOutcome>, already_redirected: bool) -> (Option<
    Result<String, ListError>,
>, nat)
    decreases outcomes.len(),
{
    if outcomes.len() == 0 {
        (None, 0)
    } else {
        match spec_request_step(already_redirected, outcomes[0]) {
            RequestStep::Done(body) => (Some(Ok(body)), 1),
            RequestStep::Fail(e) => (Some(Err(e)), 1),
            RequestStep::Retry(_) => {
                let rest = request_run(outcomes.drop_first(), true);
                (rest.0, rest.1 + 1)
            },
        }
    }
}

/// A transport that redirects once and then succeeds answers the request with
/// the body, after exactly two attempts: one more than without the redirect.
pub proof fn lemma_single_redirect_succeeds(
    endpoint: String,
    body: String,
    later: Seq<TransportOutcome>,
)
    ensures
        request_run(
            seq![TransportOutcome::Redirect(endpoint), TransportOutcome::Success(body)] + later,
            false,
        ) == (Some(Ok::<String, ListError>(body)), 2nat),
        request_run(seq![TransportOutcome::Success(body)] + later, false) == (
            Some(Ok::<String, ListError>(body)),
            1nat,
        ),
{
    reveal_with_fuel(request_run, 3);
    let s = seq![TransportOutcome::Redirect(endpoint), TransportOutcome::Success(body)] + later;
    assert(s[0] == TransportOutcome::Redirect(endpoint));
    assert(s.drop_first()[0] == TransportOutcome::Success(body));
    let t = seq![TransportOutcome::Success(body)] + later;
    assert(t[0] == TransportOutcome::Success(body));
}

/// A transport that redirects twice in a row makes the request fail with a
/// redirect loop, after two attempts.
pub proof fn lemma_double_redirect_fails(
    first: String,
    second: String,
    later: Seq<TransportOutcome>,
)
    ensures
        request_run(
            seq![TransportOutcome::Redirect(first), TransportOutcome::Redirect(second)] + later,
            false,
        ) == (Some(Err::<String, ListError>(ListError::RedirectLoop)), 2nat),
{
    reveal_with_fuel(request_run, 3);
    let s = seq![TransportOutcome::Redirect(first), TransportOutcome::Redirect(second)] + later;
    assert(s[0] == TransportOutcome::Redirect(first));
    assert(s.drop_first()[0] == TransportOutcome::Redirect(second));
}

/// A single-shot fetch of one object: the endpoint to send it to, and whether
/// a redirect was already followed.
#[derive(Debug)]
pub struct ObjectFetch {
    pub key: String,
    pub endpoint: String,
    pub redirected: bool,
}

impl ObjectFetch {
    pub fn new(key: String, endpoint: String) -> (r: ObjectFetch)
        ensures
            r.key == key,
            r.endpoint == endpoint,
            !r.redirected,
    {
        ObjectFetch { key, endpoint, redirected: false }
    }

    /// Takes the transport's outcome for the last attempt. On a retry the
    /// fetch now targets the corrected endpoint, which the caller keeps.
    pub fn on_outcome(&mut self, outcome: TransportOutcome) -> (r: RequestStep)
        ensures
            r == spec_request_step(old(self).redirected, outcome),
            final(self).key == old(self).key,
            match r {
                RequestStep::Retry(e) => final(self).endpoint == e && final(self).redirected,
                _ => final(self).endpoint == old(self).endpoint && final(self).redirected
                    == old(self).redirected,
            },
    {
        let r = request_step(self.redirected, outcome);
        if let RequestStep::Retry(e) = &r {
            self.endpoint = e.clone();
            self.redirected = true;
        }
        r
    }
}

} // verus!
