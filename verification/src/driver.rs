//! The query driver: one request/response exchange per agent
//! identifier, a bounded retry budget around it, and the selection of
//! identifiers from the operator's input lines.
//!
//! The caller that owns the real transport and the clock performs one
//! attempt, hands its outcome to `next_step`, and obeys the returned
//! step: report the result, pause and retry, or report final failure.

use crate::channel::Channel;
use crate::codec::{fits_frame, frame_of, frame_payload};
use crate::errors::{is_retryable, spec_retryable, IoDetail, QueryError};
use crate::message::{
    body_of, build_request, classify_response, is_space, is_space_byte, is_unreachable_reply,
    request_of, status_of, Reply,
};
use vstd::prelude::*;
use vstd::utf8::valid_utf8;

verus! {

/// How many attempts one identifier is given in all.
pub const MAX_ATTEMPTS: u32 = 3;

/// How long to pause between a failed attempt and the next one, in seconds.
pub const RETRY_DELAY_SECS: u64 = 1;

/// The filesystem path of the daemon's listening socket.
pub const ENDPOINT_PATH: &'static str = "/var/ossec/queue/sockets/remote";

/// What the driver does after one attempt.
pub enum NextStep {
    /// The attempt succeeded: report the reply and stop.
    ReportSuccess,
    /// The attempt failed but the budget allows another: pause, then retry.
    RetryAfterDelay,
    /// The attempt failed for good: report the failure and stop.
    ReportFailure,
}

/// The step after an attempt: success stops at once; a retryable failure
/// is retried while attempts remain; everything else stops for good.
pub open spec fn spec_next_step(attempts_done: u32, outcome: Result<Reply, QueryError>) -> NextStep {
    match outcome {
        Ok(_) => NextStep::ReportSuccess,
        Err(e) => if spec_retryable(e) && attempts_done + 1 < MAX_ATTEMPTS {
            NextStep::RetryAfterDelay
        } else {
            NextStep::ReportFailure
        },
    }
}

/// Decides the step after one attempt; `attempts_done` counts the
/// attempts made before it.
pub fn next_step(attempts_done: u32, outcome: &Result<Reply, QueryError>) -> (s: NextStep)
    requires
        attempts_done < MAX_ATTEMPTS,
    ensures
        s == spec_next_step(attempts_done, *outcome),
{
    match outcome {
        Ok(_) => NextStep::ReportSuccess,
        Err(e) => if is_retryable(e) && attempts_done + 1 < MAX_ATTEMPTS {
            NextStep::RetryAfterDelay
        } else {
            NextStep::ReportFailure
        },
    }
}

/// How many attempts the driver makes when attempt `k` and the later
/// ones would end as `outcomes` says, with `k` attempts already made.
pub open spec fn spec_attempts_used(outcomes: Seq<Result<Reply, QueryError>>, k: int) -> int
    recommends
        0 <= k < MAX_ATTEMPTS,
        outcomes.len() >= MAX_ATTEMPTS,
    decreases MAX_ATTEMPTS - k when 0 <= k < MAX_ATTEMPTS
{
    match spec_next_step(k as u32, outcomes[k]) {
        NextStep::RetryAfterDelay => spec_attempts_used(outcomes, k + 1),
        _ => k + 1,
    }
}

/// What one identifier's processing ends in.
pub struct RunReport {
    /// How many attempts were made.
    pub attempts: u32,
    /// The outcome of the last attempt, which is the one reported.
    pub outcome: Result<Reply, QueryError>,
}

/// Runs the retry loop for one identifier against a transcript that says
/// how each attempt would end, and reports how many attempts are made
/// and which outcome stands.
pub fn drive(outcomes: Vec<Result<Reply, QueryError>>) -> (report: RunReport)
    requires
        outcomes@.len() >= MAX_ATTEMPTS,
    ensures
        report.attempts == spec_attempts_used(outcomes@, 0),
        1 <= report.attempts <= MAX_ATTEMPTS,
        report.outcome == outcomes@[report.attempts - 1],
{
    let mut outcomes = outcomes;
    let k = last_attempt_index(&outcomes);
    let outcome = outcomes.remove(k as usize);
    RunReport { attempts: k + 1, outcome }
}

/// Index of the attempt the retry loop stops at: the first whose step is
/// not a retry.
fn last_attempt_index(outcomes: &Vec<Result<Reply, QueryError>>) -> (k: u32)
    requires
        outcomes@.len() >= MAX_ATTEMPTS,
    ensures
        k < MAX_ATTEMPTS,
        k + 1 == spec_attempts_used(outcomes@, 0),
{
    let mut k: u32 = 0;
    loop
        invariant
            k < MAX_ATTEMPTS,
            outcomes@.len() >= MAX_ATTEMPTS,
            spec_attempts_used(outcomes@, 0) == spec_attempts_used(outcomes@, k as int),
        decreases MAX_ATTEMPTS - k,
    {
        let step = next_step(k, &outcomes[k as usize]);
        match step {
            NextStep::RetryAfterDelay => {
                proof {
                    assert(spec_attempts_used(outcomes@, k as int) == spec_attempts_used(
                        outcomes@,
                        k as int + 1,
                    ));
                }
                k = k + 1;
            },
            _ => {
                proof {
                    assert(spec_attempts_used(outcomes@, k as int) == k + 1);
                }
                return k;
            },
        }
    }
}

/// Against attempts that all fail with a retryable error, the whole
/// budget is used: exactly `MAX_ATTEMPTS` attempts, then the last
/// failure is reported; no further attempt occurs.
pub proof fn lemma_retry_exhaustion(outcomes: Seq<Result<Reply, QueryError>>)
    requires
        outcomes.len() >= MAX_ATTEMPTS,
        forall|k: int|
            0 <= k < MAX_ATTEMPTS ==> (#[trigger] outcomes[k]) is Err && spec_retryable(
                outcomes[k]->Err_0,
            ),
    ensures
        spec_attempts_used(outcomes, 0) == MAX_ATTEMPTS,
        outcomes[spec_attempts_used(outcomes, 0) - 1] is Err,
{
    assert(spec_attempts_used(outcomes, 2) == 3);
    assert(spec_attempts_used(outcomes, 1) == 3);
}

/// When the second attempt succeeds, no third attempt occurs: two
/// attempts in all, and the second one's reply is reported.
pub proof fn lemma_retry_short_circuit(outcomes: Seq<Result<Reply, QueryError>>)
    requires
        outcomes.len() >= MAX_ATTEMPTS,
        outcomes[0] is Err && spec_retryable(outcomes[0]->Err_0),
        outcomes[1] is Ok,
    ensures
        spec_attempts_used(outcomes, 0) == 2,
        outcomes[spec_attempts_used(outcomes, 0) - 1] == outcomes[1],
{
    assert(spec_attempts_used(outcomes, 1) == 2);
}

/// A first attempt that fails with an error outside the retry budget
/// ends the identifier at once: one attempt, no retry.
pub proof fn lemma_no_retry_on_terminal(outcomes: Seq<Result<Reply, QueryError>>)
    requires
        outcomes.len() >= MAX_ATTEMPTS,
        outcomes[0] is Err,
        !spec_retryable(outcomes[0]->Err_0),
    ensures
        spec_attempts_used(outcomes, 0) == 1,
        outcomes[spec_attempts_used(outcomes, 0) - 1] == outcomes[0],
{
}

/// One whole exchange over a connected channel: send the request frame
/// for `agent_id`, receive the response frame, and interpret it.  The
/// channel is closed before returning, whatever the outcome.
pub fn query_exchange(chan: &mut Channel, agent_id: &Vec<u8>) -> (r: Result<Reply, QueryError>)
    requires
        old(chan).wf(),
        old(chan).is_connected() ==> fits_frame(request_of(agent_id@)),
    ensures
        final(chan).wf(),
        !final(chan).is_connected(),
        final(chan).peer_bytes() == old(chan).peer_bytes(),
        !old(chan).is_connected() ==> (r matches Err(QueryError::NotConnected)
            && final(chan).sent_bytes() == old(chan).sent_bytes()),
        old(chan).is_connected() ==> final(chan).sent_bytes() == old(chan).sent_bytes() + frame_of(
            request_of(agent_id@),
        ),
        old(chan).is_connected() ==> match frame_payload(old(chan).pending()) {
            None => r matches Err(QueryError::Io(IoDetail::ClosedEarly)),
            Some(p) => {
                &&& !valid_utf8(p) ==> (r matches Err(QueryError::Decode))
                &&& valid_utf8(p) && is_unreachable_reply(p) ==> (r matches Err(
                    QueryError::AgentUnreachable,
                ))
                &&& valid_utf8(p) && !is_unreachable_reply(p) ==> (r matches Ok(rep) && rep.status@
                    == status_of(p) && rep.body@ == body_of(p))
            },
        },
{
    let request = build_request(agent_id);
    let sent = chan.send(&request);
    match sent {
        Err(e) => {
            chan.close();
            return Err(e);
        },
        Ok(()) => {},
    }
    let received = chan.receive();
    chan.close();
    match received {
        Err(e) => Err(e),
        Ok(payload) => classify_response(&payload),
    }
}

/// A line is blank when every byte is whitespace (or it has no bytes).
pub open spec fn is_blank(line: Seq<u8>) -> bool {
    forall|i: int| 0 <= i < line.len() ==> is_space_byte(#[trigger] line[i])
}

/// The identifiers the driver processes: the input lines that are not
/// blank, in input order.
pub open spec fn selected_lines(lines: Seq<Seq<u8>>) -> Seq<Seq<u8>>
    decreases lines.len(),
{
    if lines.len() == 0 {
        Seq::empty()
    } else if is_blank(lines.last()) {
        selected_lines(lines.drop_last())
    } else {
        selected_lines(lines.drop_last()).push(lines.last())
    }
}

/// Decides whether every byte of `line` is whitespace.
pub fn line_is_blank(line: &Vec<u8>) -> (r: bool)
    ensures
        r == is_blank(line@),
{
    let mut i: usize = 0;
    while i < line.len()
        invariant
            i <= line@.len(),
            forall|u: int| 0 <= u < i ==> is_space_byte(#[trigger] line@[u]),
        decreases line@.len() - i,
    {
        if !is_space(line[i]) {
            return false;
        }
        i = i + 1;
    }
    true
}

/// Keeps the input lines that are not blank, in input order; a list of
/// blank lines alone selects nothing.
pub fn select_identifiers(lines: Vec<Vec<u8>>) -> (ids: Vec<Vec<u8>>)
    ensures
        ids.deep_view() == selected_lines(lines.deep_view()),
{
    let mut lines = lines;
    let mut ids: Vec<Vec<u8>> = Vec::new();
    proof {
        assert(lines.deep_view().take(0) =~= Seq::<Seq<u8>>::empty());
        assert(ids.deep_view() =~= selected_lines(lines.deep_view().take(0)));
    }
    let mut i: usize = 0;
    while i < lines.len()
        invariant
            i <= lines@.len(),
            ids.deep_view() == selected_lines(lines.deep_view().take(i as int)),
        decreases lines@.len() - i,
    {
        proof {
            assert(lines.deep_view().take(i + 1).drop_last() =~= lines.deep_view().take(i as int));
            assert(lines.deep_view().take(i + 1).last() == lines.deep_view()[i as int]);
            assert(lines.deep_view()[i as int] == lines@[i as int]@);
        }
        if !line_is_blank(&lines[i]) {
            let id = crate::codec::copy_range(&lines[i], 0, lines[i].len());
            proof {
                assert(id@ =~= lines@[i as int]@);
            }
            ids.push(id);
        }
        i = i + 1;
    }
    proof {
        assert(lines.deep_view().take(lines@.len() as int) =~= lines.deep_view());
    }
    ids
}

} // verus!
