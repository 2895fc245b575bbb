//! The request text sent to the daemon and the interpretation of its
//! response: a UTF-8 check, a split into status token and body at the
//! first whitespace, and the recognition of the daemon's agent-unreachable
//! answer.

use crate::codec::copy_range;
use crate::errors::QueryError;
use vstd::prelude::*;
use vstd::utf8::valid_utf8;

verus! {

/// The component tag, exposed as configuration; the wire bytes the crate
/// sends are fixed by `component_tag()`.
pub const COMPONENT_TAG: &'static str = "com";

/// The command tag, exposed as configuration; the wire bytes the crate
/// sends are fixed by `command_tag()`.
pub const COMMAND_TAG: &'static str = "getconfig";

/// The configuration section name, exposed as configuration; the wire
/// bytes the crate sends are fixed by `section_name()`.
pub const SECTION_NAME: &'static str = "active-response";

/// The component tag `com`, as wire bytes.
pub open spec fn component_tag() -> Seq<u8> {
    seq![99u8, 111u8, 109u8]
}

/// The command tag `getconfig`, as wire bytes.
pub open spec fn command_tag() -> Seq<u8> {
    seq![103u8, 101u8, 116u8, 99u8, 111u8, 110u8, 102u8, 105u8, 103u8]
}

/// The configuration section name `active-response`, as wire bytes.
pub open spec fn section_name() -> Seq<u8> {
    seq![
        97u8, 99u8, 116u8, 105u8, 118u8, 101u8, 45u8, 114u8, 101u8, 115u8, 112u8, 111u8, 110u8,
        115u8, 101u8,
    ]
}

/// The fixed tail of every request: the component tag, the command tag
/// and the configuration section name, each preceded by a single space.
pub open spec fn request_suffix() -> Seq<u8> {
    seq![32u8] + component_tag() + seq![32u8] + command_tag() + seq![32u8] + section_name()
}

/// The whole request for one agent identifier.
pub open spec fn request_of(agent_id: Seq<u8>) -> Seq<u8> {
    agent_id + request_suffix()
}

/// Builds the request bytes for `agent_id`.
pub fn build_request(agent_id: &Vec<u8>) -> (r: Vec<u8>)
    ensures
        r@ == request_of(agent_id@),
{
    let mut r = copy_range(agent_id, 0, agent_id.len());
    r.push(32u8);
    r.push(99u8);
    r.push(111u8);
    r.push(109u8);
    r.push(32u8);
    r.push(103u8);
    r.push(101u8);
    r.push(116u8);
    r.push(99u8);
    r.push(111u8);
    r.push(110u8);
    r.push(102u8);
    r.push(105u8);
    r.push(103u8);
    r.push(32u8);
    r.push(97u8);
    r.push(99u8);
    r.push(116u8);
    r.push(105u8);
    r.push(118u8);
    r.push(101u8);
    r.push(45u8);
    r.push(114u8);
    r.push(101u8);
    r.push(115u8);
    r.push(112u8);
    r.push(111u8);
    r.push(110u8);
    r.push(115u8);
    r.push(101u8);
    proof {
        assert(r@ =~= request_of(agent_id@));
    }
    r
}

/// The whitespace bytes: tab, line feed, vertical tab, form feed,
/// carriage return and space.
pub open spec fn is_space_byte(b: u8) -> bool {
    b == 32 || b == 9 || b == 10 || b == 11 || b == 12 || b == 13
}

/// Decides whether `b` is a whitespace byte.
pub fn is_space(b: u8) -> (r: bool)
    ensures
        r == is_space_byte(b),
{
    b == 32 || b == 9 || b == 10 || b == 11 || b == 12 || b == 13
}

/// Index of the first whitespace byte in `b`, or `b.len()` when there is
/// none, counted from position `i`.
pub open spec fn first_whitespace_from(b: Seq<u8>, i: int) -> int
    recommends
        0 <= i <= b.len(),
    decreases b.len() - i when 0 <= i <= b.len()
{
    if i >= b.len() {
        b.len() as int
    } else if is_space_byte(b[i]) {
        i
    } else {
        first_whitespace_from(b, i + 1)
    }
}

/// Index of the first whitespace byte in `b`, or `b.len()` when there is
/// none.
pub open spec fn first_whitespace(b: Seq<u8>) -> int {
    first_whitespace_from(b, 0)
}

/// The status token: everything before the first whitespace (the whole
/// message when no whitespace occurs).
pub open spec fn status_of(msg: Seq<u8>) -> Seq<u8> {
    msg.take(first_whitespace(msg))
}

/// The body: everything after the first whitespace, empty when no
/// whitespace occurs.
pub open spec fn body_of(msg: Seq<u8>) -> Seq<u8> {
    if first_whitespace(msg) == msg.len() {
        Seq::<u8>::empty()
    } else {
        msg.skip(first_whitespace(msg) + 1)
    }
}

proof fn lemma_first_whitespace_from(b: Seq<u8>, i: int)
    requires
        0 <= i <= b.len(),
    ensures
        i <= first_whitespace_from(b, i) <= b.len(),
        first_whitespace_from(b, i) < b.len() ==> is_space_byte(b[first_whitespace_from(b, i)]),
        forall|j: int| i <= j < first_whitespace_from(b, i) ==> !is_space_byte(b[j]),
    decreases b.len() - i,
{
    if i < b.len() && !is_space_byte(b[i]) {
        lemma_first_whitespace_from(b, i + 1);
    }
}

/// The first whitespace lies between 0 and the length, a whitespace byte
/// stands there when it lies before the end, and none stands before it.
pub proof fn lemma_first_whitespace(b: Seq<u8>)
    ensures
        0 <= first_whitespace(b) <= b.len(),
        first_whitespace(b) < b.len() ==> is_space_byte(b[first_whitespace(b)]),
        forall|j: int| 0 <= j < first_whitespace(b) ==> !is_space_byte(b[j]),
{
    lemma_first_whitespace_from(b, 0);
}

/// Splits `msg` at its first whitespace into the status token and the
/// body.
pub fn split_first_whitespace(msg: &Vec<u8>) -> (r: (Vec<u8>, Vec<u8>))
    ensures
        r.0@ == status_of(msg@),
        r.1@ == body_of(msg@),
{
    proof {
        lemma_first_whitespace(msg@);
    }
    let mut i: usize = 0;
    while i < msg.len() && !is_space(msg[i])
        invariant
            i <= msg@.len(),
            first_whitespace(msg@) == first_whitespace_from(msg@, i as int),
        decreases msg@.len() - i,
    {
        proof {
            assert(first_whitespace_from(msg@, i as int) == first_whitespace_from(msg@, i + 1));
        }
        i = i + 1;
    }
    proof {
        assert(first_whitespace_from(msg@, i as int) == i);
    }
    let status = copy_range(msg, 0, i);
    let body = if i < msg.len() {
        copy_range(msg, i + 1, msg.len())
    } else {
        Vec::<u8>::new()
    };
    proof {
        assert(status@ =~= status_of(msg@));
        assert(body@ =~= body_of(msg@));
    }
    (status, body)
}

/// Whether `needle` occurs as a contiguous run inside `hay`.
pub open spec fn contains_seq(hay: Seq<u8>, needle: Seq<u8>) -> bool {
    exists|k: int|
        0 <= k && k + needle.len() <= hay.len() && #[trigger] hay.subrange(k, k + needle.len())
            == needle
}

/// Decides whether `needle` occurs as a contiguous run inside `hay`.
pub fn contains_bytes(hay: &Vec<u8>, needle: &Vec<u8>) -> (r: bool)
    ensures
        r == contains_seq(hay@, needle@),
{
    let n = needle.len();
    if n > hay.len() {
        return false;
    }
    let last = hay.len() - n;
    let mut k: usize = 0;
    while k <= last
        invariant
            n == needle@.len(),
            n <= hay@.len(),
            hay@.len() <= usize::MAX,
            last == hay@.len() - n,
            k <= last + 1,
            forall|t: int|
                0 <= t < k ==> #[trigger] hay@.subrange(t, t + needle@.len()) != needle@,
        decreases last + 1 - k,
    {
        let mut j: usize = 0;
        while j < n && hay[k + j] == needle[j]
            invariant
                n == needle@.len(),
                n <= hay@.len(),
                hay@.len() <= usize::MAX,
                k + n <= hay@.len(),
                j <= n,
                forall|u: int| 0 <= u < j ==> hay@[k + u] == needle@[u],
            decreases n - j,
        {
            j = j + 1;
        }
        if j == n {
            proof {
                assert(hay@.subrange(k as int, k as int + needle@.len()) =~= needle@);
            }
            return true;
        }
        proof {
            assert(hay@.subrange(k as int, k as int + needle@.len())[j as int] != needle@[j as int]);
        }
        k = k + 1;
    }
    false
}

/// The literal status token `err`.
pub open spec fn err_token() -> Seq<u8> {
    seq![101u8, 114u8, 114u8]
}

/// Builds the status token `err`.
pub fn err_token_vec() -> (r: Vec<u8>)
    ensures
        r@ == err_token(),
{
    let mut r = Vec::<u8>::new();
    r.push(101u8);
    r.push(114u8);
    r.push(114u8);
    proof {
        assert(r@ =~= err_token());
    }
    r
}

/// The daemon's marker that the target agent cannot be reached: the text
/// `Cannot send request`.
pub open spec fn unreachable_marker() -> Seq<u8> {
    seq![
        67u8, 97u8, 110u8, 110u8, 111u8, 116u8, 32u8, 115u8, 101u8, 110u8, 100u8, 32u8, 114u8, 101u8, 113u8,
        117u8, 101u8, 115u8, 116u8,
    ]
}

/// Builds the agent-unreachable marker.
pub fn unreachable_marker_vec() -> (r: Vec<u8>)
    ensures
        r@ == unreachable_marker(),
{
    let mut r = Vec::<u8>::new();
    r.push(67u8);
    r.push(97u8);
    r.push(110u8);
    r.push(110u8);
    r.push(111u8);
    r.push(116u8);
    r.push(32u8);
    r.push(115u8);
    r.push(101u8);
    r.push(110u8);
    r.push(100u8);
    r.push(32u8);
    r.push(114u8);
    r.push(101u8);
    r.push(113u8);
    r.push(117u8);
    r.push(101u8);
    r.push(115u8);
    r.push(116u8);
    proof {
        assert(r@ =~= unreachable_marker());
    }
    r
}

/// Decides whether two byte vectors hold the same bytes.
pub fn bytes_eq(a: &Vec<u8>, b: &Vec<u8>) -> (r: bool)
    ensures
        r == (a@ == b@),
{
    if a.len() != b.len() {
        return false;
    }
    let mut i: usize = 0;
    while i < a.len()
        invariant
            a@.len() == b@.len(),
            i <= a@.len(),
            forall|u: int| 0 <= u < i ==> a@[u] == b@[u],
        decreases a@.len() - i,
    {
        if a[i] != b[i] {
            return false;
        }
        i = i + 1;
    }
    proof {
        assert(a@ =~= b@);
    }
    true
}

/// A successful exchange's result: the response's status token and body.
#[derive(Debug)]
pub struct Reply {
    pub status: Vec<u8>,
    pub body: Vec<u8>,
}

/// A response whose status token is `err` and whose body carries the
/// agent-unreachable marker.
pub open spec fn is_unreachable_reply(msg: Seq<u8>) -> bool {
    status_of(msg) == err_token() && contains_seq(body_of(msg), unreachable_marker())
}

/// Relies on `core::str::from_utf8`, which succeeds exactly when the
/// bytes are valid UTF-8.
#[verifier::external_body]
fn utf8_valid(bytes: &Vec<u8>) -> (r: bool)
    ensures
        r == valid_utf8(bytes@),
{
    core::str::from_utf8(bytes.as_slice()).is_ok()
}

/// Interprets one response: bytes that are not UTF-8 are a decode
/// failure, the daemon's agent-unreachable answer is reported as such,
/// and every other response splits into status token and body.
pub fn classify_response(msg: &Vec<u8>) -> (r: Result<Reply, QueryError>)
    ensures
        !valid_utf8(msg@) ==> (r matches Err(QueryError::Decode)),
        valid_utf8(msg@) && is_unreachable_reply(msg@) ==> (r matches Err(
            QueryError::AgentUnreachable,
        )),
        valid_utf8(msg@) && !is_unreachable_reply(msg@) ==> (r matches Ok(rep) && rep.status@
            == status_of(msg@) && rep.body@ == body_of(msg@)),
{
    if !utf8_valid(msg) {
        return Err(QueryError::Decode);
    }
    let (status, body) = split_first_whitespace(msg);
    let err_tok = err_token_vec();
    let marker = unreachable_marker_vec();
    if bytes_eq(&status, &err_tok) && contains_bytes(&body, &marker) {
        return Err(QueryError::AgentUnreachable);
    }
    Ok(Reply { status, body })
}

} // verus!
