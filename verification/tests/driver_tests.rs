use agent_query::channel::Channel;
use agent_query::codec::encode_frame;
use agent_query::driver::{
    drive, next_step, query_exchange, select_identifiers, NextStep, MAX_ATTEMPTS,
};
use agent_query::errors::{IoDetail, QueryError};
use agent_query::message::{build_request, Reply};

fn conn_err() -> Result<Reply, QueryError> {
    Err(QueryError::Connection(String::from("connection refused")))
}

fn ok_reply(status: &[u8], body: &[u8]) -> Result<Reply, QueryError> {
    Ok(Reply { status: status.to_vec(), body: body.to_vec() })
}

#[test]
fn success_reports_at_once() {
    assert!(matches!(
        next_step(0, &ok_reply(b"ok", b"{}")),
        NextStep::ReportSuccess
    ));
}

#[test]
fn retryable_failures_retry_while_attempts_remain() {
    assert!(matches!(
        next_step(0, &conn_err()),
        NextStep::RetryAfterDelay
    ));
    assert!(matches!(
        next_step(1, &Err(QueryError::Io(IoDetail::ClosedEarly))),
        NextStep::RetryAfterDelay
    ));
    assert!(matches!(
        next_step(1, &Err(QueryError::AgentUnreachable)),
        NextStep::RetryAfterDelay
    ));
}

#[test]
fn last_attempt_failure_is_final() {
    assert!(matches!(
        next_step(MAX_ATTEMPTS - 1, &conn_err()),
        NextStep::ReportFailure
    ));
}

#[test]
fn decode_failure_is_never_retried() {
    assert!(matches!(
        next_step(0, &Err(QueryError::Decode)),
        NextStep::ReportFailure
    ));
    let report = drive(vec![Err(QueryError::Decode), ok_reply(b"ok", b""), ok_reply(b"ok", b"")]);
    assert_eq!(report.attempts, 1);
    assert!(matches!(report.outcome, Err(QueryError::Decode)));
}

#[test]
fn not_connected_is_never_retried() {
    assert!(matches!(
        next_step(0, &Err(QueryError::NotConnected)),
        NextStep::ReportFailure
    ));
}

#[test]
fn endpoint_that_never_connects_uses_exactly_three_attempts() {
    let report = drive(vec![conn_err(), conn_err(), conn_err()]);
    assert_eq!(report.attempts, 3);
    assert!(matches!(report.outcome, Err(QueryError::Connection(_))));
}

#[test]
fn success_on_second_attempt_makes_no_third() {
    let report = drive(vec![conn_err(), ok_reply(b"ok", b"{}"), conn_err()]);
    assert_eq!(report.attempts, 2);
    let reply = report.outcome.unwrap();
    assert_eq!(reply.status, b"ok".to_vec());
}

#[test]
fn unreachable_agent_consumes_the_whole_budget() {
    let report = drive(vec![
        Err(QueryError::AgentUnreachable),
        Err(QueryError::AgentUnreachable),
        Err(QueryError::AgentUnreachable),
    ]);
    assert_eq!(report.attempts, 3);
    assert!(matches!(report.outcome, Err(QueryError::AgentUnreachable)));
}

#[test]
fn exchange_sends_request_frame_and_reads_reply() {
    let peer = encode_frame(&b"ok {\"active-response\":true}".to_vec());
    let mut chan = Channel::connect(peer);
    let id = b"001".to_vec();
    let r = query_exchange(&mut chan, &id).unwrap();
    assert_eq!(r.status, b"ok".to_vec());
    assert_eq!(r.body, b"{\"active-response\":true}".to_vec());
    assert_eq!(chan.written(), &encode_frame(&build_request(&id)));
    assert!(!chan.connected());
}

#[test]
fn exchange_on_unconnected_channel_reports_not_connected() {
    let mut chan = Channel::unconnected();
    let r = query_exchange(&mut chan, &b"001".to_vec());
    assert!(matches!(r, Err(QueryError::NotConnected)));
    assert!(chan.written().is_empty());
}

#[test]
fn exchange_with_short_response_reports_io_failure() {
    let mut chan = Channel::connect(vec![9u8, 0, 0, 0, 1]);
    let r = query_exchange(&mut chan, &b"001".to_vec());
    assert!(matches!(r, Err(QueryError::Io(IoDetail::ClosedEarly))));
    assert!(!chan.connected());
}

#[test]
fn exchange_sentinel_reply_reports_agent_unreachable() {
    let peer = encode_frame(&b"err cannot send request: Cannot send request to agent".to_vec());
    let mut chan = Channel::connect(peer);
    let r = query_exchange(&mut chan, &b"007".to_vec());
    assert!(matches!(r, Err(QueryError::AgentUnreachable)));
}

#[test]
fn two_agents_one_immediate_one_after_retries() {
    // First identifier: the daemon answers on the first attempt.
    let mut chan = Channel::connect(encode_frame(&b"ok {\"active-response\":true}".to_vec()));
    let first = query_exchange(&mut chan, &b"001".to_vec());
    let report_one = drive(vec![first, conn_err(), conn_err()]);
    assert_eq!(report_one.attempts, 1);
    assert_eq!(report_one.outcome.unwrap().status, b"ok".to_vec());

    // Second identifier: two connection failures, then a reply.
    let mut chan = Channel::connect(encode_frame(&b"ok {}".to_vec()));
    let third = query_exchange(&mut chan, &b"002".to_vec());
    let report_two = drive(vec![conn_err(), conn_err(), third]);
    assert_eq!(report_two.attempts, 3);
    let reply = report_two.outcome.unwrap();
    assert_eq!(reply.status, b"ok".to_vec());
    assert_eq!(reply.body, b"{}".to_vec());
}

#[test]
fn blank_lines_select_no_identifiers() {
    let lines: Vec<Vec<u8>> = vec![b"".to_vec(), b"   ".to_vec(), b"\t \r".to_vec()];
    let ids = select_identifiers(lines);
    assert!(ids.is_empty());
}

#[test]
fn non_blank_lines_are_kept_in_order() {
    let lines: Vec<Vec<u8>> = vec![
        b"001".to_vec(),
        b"".to_vec(),
        b" 002 ".to_vec(),
        b"  ".to_vec(),
        b"003".to_vec(),
    ];
    let ids = select_identifiers(lines);
    assert_eq!(ids, vec![b"001".to_vec(), b" 002 ".to_vec(), b"003".to_vec()]);
}
