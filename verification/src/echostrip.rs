//! The echo-cancellation filter.
//!
//! The remote device retransmits every byte it receives before any real
//! output.  [`EchoStrip`] remembers the last bytes this side sent to the
//! remote channel and, when a remote payload arrives, removes the leading run
//! that echoes them before forwarding the remainder to the wrapped stage.
//! One asymmetry is tolerated: a line sent ending in `\n` may come back
//! ending in `\r\n`.

use vstd::prelude::*;

use vstd::slice::{slice_subrange, slice_to_vec};

use crate::eventloop::{result_model, HandlerError, Recieve, Response, ResponseModel};

verus! {

/// How many leading payload bytes echo the reference line.
///
/// Both cursors advance while the bytes are equal.  One tie-break applies: if
/// the reference is down to a single `\n` and the payload continues `\r\n`,
/// the pair counts as an echo of that `\n`.  Any other difference stops the
/// scan.  The result counts payload bytes, so it can exceed the reference
/// length by one.
pub open spec fn echo_match_len(line: Seq<u8>, payload: Seq<u8>) -> nat
    decreases line.len(),
{
    if line.len() == 0 || payload.len() == 0 {
        0
    } else if line[0] == payload[0] {
        1 + echo_match_len(line.skip(1), payload.skip(1))
    } else if line.len() == 1 && line[0] == 10 && payload.len() >= 2 && payload[0] == 13
        && payload[1] == 10 {
        2
    } else {
        0
    }
}

/// The echo never covers more bytes than the payload has.
pub proof fn lemma_echo_match_len_le(line: Seq<u8>, payload: Seq<u8>)
    ensures
        echo_match_len(line, payload) <= payload.len(),
    decreases line.len(),
{
    if line.len() == 0 || payload.len() == 0 {
    } else if line[0] == payload[0] {
        lemma_echo_match_len_le(line.skip(1), payload.skip(1));
    }
}

/// Inductive core of [`lemma_echo_full_match`], with the prefix hypothesis
/// stated byte by byte.
proof fn lemma_echo_full_match_rec(line: Seq<u8>, payload: Seq<u8>)
    requires
        line.len() <= payload.len(),
        forall|j: int| 0 <= j < line.len() ==> line[j] == #[trigger] payload[j],
    ensures
        echo_match_len(line, payload) == line.len(),
    decreases line.len(),
{
    if line.len() > 0 {
        assert(line[0] == payload[0]);
        let lt = line.skip(1);
        let pt = payload.skip(1);
        assert forall|j: int| 0 <= j < lt.len() implies lt[j] == #[trigger] pt[j] by {
            assert(line[j + 1] == payload[j + 1]);
        }
        lemma_echo_full_match_rec(lt, pt);
    }
}

/// A payload that begins with exactly the reference line's bytes matches
/// over the whole line: the echo covers precisely `line.len()` payload
/// bytes, no more and no fewer.
pub proof fn lemma_echo_full_match(line: Seq<u8>, payload: Seq<u8>)
    requires
        line.len() <= payload.len(),
        payload.subrange(0, line.len() as int) == line,
    ensures
        echo_match_len(line, payload) == line.len(),
{
    assert forall|j: int| 0 <= j < line.len() implies line[j] == #[trigger] payload[j] by {
        assert(payload.subrange(0, line.len() as int)[j] == line[j]);
        assert(payload.subrange(0, line.len() as int)[j] == payload[j]);
    }
    lemma_echo_full_match_rec(line, payload);
}

/// An empty reference never strips anything: the whole payload is forwarded.
pub proof fn lemma_echo_empty_reference(payload: Seq<u8>)
    ensures
        echo_match_len(Seq::<u8>::empty(), payload) == 0,
{
}

/// A payload that differs from the reference already at its first byte, and
/// does not open the `\r\n`-for-`\n` tie-break, matches nothing: it is
/// forwarded unmodified.
pub proof fn lemma_echo_mismatch(line: Seq<u8>, payload: Seq<u8>)
    requires
        line.len() > 0,
        payload.len() > 0,
        line[0] != payload[0],
        !(line.len() == 1 && line[0] == 10 && payload.len() >= 2 && payload[0] == 13 && payload[1]
            == 10),
    ensures
        echo_match_len(line, payload) == 0,
{
}

/// Inductive core of [`lemma_echo_crlf_match`], with the prefix hypothesis
/// stated byte by byte.
proof fn lemma_echo_crlf_match_rec(line: Seq<u8>, payload: Seq<u8>)
    requires
        line.len() >= 1,
        line.last() == 10u8,
        payload.len() >= line.len() + 1,
        forall|j: int| 0 <= j < line.len() - 1 ==> line[j] == #[trigger] payload[j],
        payload[line.len() - 1] == 13u8,
        payload[line.len() as int] == 10u8,
    ensures
        echo_match_len(line, payload) == line.len() + 1,
    decreases line.len(),
{
    if line.len() == 1 {
        assert(line[0] == 10u8);
        assert(payload[0] == 13u8 && payload[1] == 10u8);
        assert(line[0] != payload[0]);
    } else {
        assert(line[0] == payload[0]);
        let lt = line.skip(1);
        let pt = payload.skip(1);
        assert(lt.last() == line.last());
        assert forall|j: int| 0 <= j < lt.len() - 1 implies lt[j] == #[trigger] pt[j] by {
            assert(line[j + 1] == payload[j + 1]);
        }
        assert(pt[lt.len() - 1] == payload[line.len() - 1]);
        assert(pt[lt.len() as int] == payload[line.len() as int]);
        lemma_echo_crlf_match_rec(lt, pt);
    }
}

/// The line-ending tie-break: a reference ending in `\n` whose echo comes
/// back with `\r\n` in that place matches fully, consuming one extra payload
/// byte.
pub proof fn lemma_echo_crlf_match(line: Seq<u8>, payload: Seq<u8>)
    requires
        line.len() >= 1,
        line.last() == 10u8,
        payload.len() >= line.len() + 1,
        payload.subrange(0, line.len() - 1) == line.take(line.len() - 1),
        payload[line.len() - 1] == 13u8,
        payload[line.len() as int] == 10u8,
    ensures
        echo_match_len(line, payload) == line.len() + 1,
{
    assert forall|j: int| 0 <= j < line.len() - 1 implies line[j] == #[trigger] payload[j] by {
        assert(payload.subrange(0, line.len() - 1)[j] == line.take(line.len() - 1)[j]);
        assert(payload.subrange(0, line.len() - 1)[j] == payload[j]);
        assert(line.take(line.len() - 1)[j] == line[j]);
    }
    lemma_echo_crlf_match_rec(line, payload);
}

/// Scan the payload against the reference line, returning how many leading
/// payload bytes are its echo.
fn echo_scan(line: &Vec<u8>, payload: &Vec<u8>) -> (n: usize)
    ensures
        n == echo_match_len(line@, payload@),
        n <= payload@.len(),
{
    let mut line_index: usize = 0;
    let mut payload_index: usize = 0;
    proof {
        assert(line@.skip(0) =~= line@);
        assert(payload@.skip(0) =~= payload@);
    }
    loop
        invariant
            line_index <= line@.len(),
            payload_index <= payload@.len(),
            echo_match_len(line@, payload@) == payload_index + echo_match_len(
                line@.skip(line_index as int),
                payload@.skip(payload_index as int),
            ),
        decreases line@.len() - line_index,
    {
        proof {
            lemma_echo_match_len_le(line@.skip(line_index as int), payload@.skip(
                payload_index as int,
            ));
        }
        if line_index >= line.len() || payload_index >= payload.len() {
            return payload_index;
        }
        let line_cur = line[line_index];
        let payload_cur = payload[payload_index];
        let ghost tail_line = line@.skip(line_index as int);
        let ghost tail_payload = payload@.skip(payload_index as int);
        if line_cur == payload_cur {
            proof {
                assert(tail_line.skip(1) =~= line@.skip(line_index + 1));
                assert(tail_payload.skip(1) =~= payload@.skip(payload_index + 1));
            }
            line_index = line_index + 1;
            payload_index = payload_index + 1;
        } else if line_cur == 10 && payload_cur == 13 && line_index + 1 == line.len()
            && payload_index + 1 < payload.len() && payload[payload_index + 1] == 10 {
            proof {
                assert(tail_line.len() == 1 && tail_line[0] == 10);
                assert(tail_payload.len() >= 2 && tail_payload[0] == 13 && tail_payload[1] == 10);
                assert(echo_match_len(tail_line, tail_payload) == 2);
            }
            return payload_index + 2;
        } else {
            proof {
                assert(echo_match_len(tail_line, tail_payload) == 0);
            }
            return payload_index;
        }
    }
}

/// The bytes of `payload` from position `n` on, as a fresh vector.
fn tail_from(payload: &Vec<u8>, n: usize) -> (r: Vec<u8>)
    requires
        n <= payload@.len(),
    ensures
        r@ == payload@.skip(n as int),
{
    let tail = slice_subrange(payload.as_slice(), n, payload.len());
    let out = slice_to_vec(tail);
    proof {
        assert(out@ =~= payload@.skip(n as int));
    }
    out
}

/// The cached reference after a response passed through the filter: a
/// response carrying remote-bound bytes replaces it, anything else leaves it.
pub open spec fn saved_line(prev: Seq<u8>, r: Result<ResponseModel, HandlerError>) -> Seq<u8> {
    match r {
        Ok(m) => match m.serial {
            Some(data) => data,
            None => prev,
        },
        Err(_) => prev,
    }
}

/// Strips the remote's echo of the last sent line from incoming payloads
/// before they reach the wrapped stage.
pub struct EchoStrip<H: Recieve> {
    pub destination: H,
    pub last_line: Vec<u8>,
}

impl<H: Recieve> EchoStrip<H> {
    /// Wrap `destination`; no echo is pending yet.
    pub fn new(destination: H) -> (r: EchoStrip<H>)
        requires
            destination.inv(),
        ensures
            r.inv(),
            r.destination == destination,
            r.last_line@ == Seq::<u8>::empty(),
    {
        let r = EchoStrip { destination, last_line: Vec::new() };
        proof {
            assert(r.last_line@ =~= Seq::<u8>::empty());
        }
        r
    }

    /// Cache the remote-bound bytes of `response`, if any, as the echo
    /// reference for the next remote payload.
    pub fn save_response(&mut self, response: &Response)
        ensures
            final(self).destination == old(self).destination,
            final(self).last_line@ == saved_line(
                old(self).last_line@,
                Ok::<ResponseModel, HandlerError>(response@),
            ),
    {
        match &response.serial {
            Some(data) => {
                self.last_line = slice_to_vec(data.as_slice());
            },
            None => {},
        }
    }

    /// Like [`Self::save_response`], for a result that may be a failure;
    /// hands the result back unchanged.
    pub fn try_save_response(&mut self, response: Result<Response, HandlerError>) -> (r: Result<
        Response,
        HandlerError,
    >)
        ensures
            r == response,
            final(self).destination == old(self).destination,
            final(self).last_line@ == saved_line(old(self).last_line@, result_model(response)),
    {
        match &response {
            Ok(resp) => {
                self.save_response(resp);
            },
            Err(_) => {},
        }
        response
    }
}

impl<H: Recieve> Recieve for EchoStrip<H> {
    open spec fn inv(&self) -> bool {
        self.destination.inv()
    }

    open spec fn startup_ok(&self) -> bool {
        self.destination.startup_ok()
    }

    open spec fn startup_rel(pre: Self, post: Self, r: ResponseModel) -> bool {
        H::startup_rel(pre.destination, post.destination, r) && post.last_line@ == saved_line(
            pre.last_line@,
            Ok::<ResponseModel, HandlerError>(r),
        )
    }

    open spec fn stdin_rel(
        pre: Self,
        line: Seq<u8>,
        post: Self,
        r: Result<ResponseModel, HandlerError>,
    ) -> bool {
        H::stdin_rel(pre.destination, line, post.destination, r) && post.last_line@ == saved_line(
            pre.last_line@,
            r,
        )
    }

    open spec fn serial_rel(
        pre: Self,
        payload: Seq<u8>,
        post: Self,
        r: Result<ResponseModel, HandlerError>,
    ) -> bool {
        H::serial_rel(
            pre.destination,
            payload.skip(echo_match_len(pre.last_line@, payload) as int),
            post.destination,
            r,
        ) && post.last_line@ == saved_line(Seq::<u8>::empty(), r)
    }

    open spec fn shutdown_rel(pre: Self, post: Self, r: ResponseModel) -> bool {
        H::shutdown_rel(pre.destination, post.destination, r) && post.last_line@ == saved_line(
            pre.last_line@,
            Ok::<ResponseModel, HandlerError>(r),
        )
    }

    fn startup(&mut self) -> (r: Response) {
        let r = self.destination.startup();
        self.save_response(&r);
        r
    }

    fn recieve_stdin(&mut self, line: Vec<u8>) -> (r: Result<Response, HandlerError>) {
        let r = self.destination.recieve_stdin(line);
        self.try_save_response(r)
    }

    fn recieve_serial(&mut self, payload: Vec<u8>) -> (r: Result<Response, HandlerError>) {
        let n = echo_scan(&self.last_line, &payload);
        // A sent line gets one chance to match: stale references never strip
        // a later payload.
        self.last_line = Vec::new();
        let forwarded = tail_from(&payload, n);
        let r = self.destination.recieve_serial(forwarded);
        self.try_save_response(r)
    }

    fn shutdown(&mut self) -> (r: Response) {
        let r = self.destination.shutdown();
        self.save_response(&r);
        r
    }
}

/// Echo-cancellation law: when a remote payload begins with exactly the
/// cached reference's bytes, the wrapped stage receives the payload with
/// that prefix removed, and — provided the inner response carries no
/// remote-bound bytes — the cached reference is empty afterwards, so a
/// second payload passes through unmodified.
pub proof fn lemma_echo_cancellation<H: Recieve>(
    pre: EchoStrip<H>,
    payload: Seq<u8>,
    post: EchoStrip<H>,
    r: Result<ResponseModel, HandlerError>,
)
    requires
        <EchoStrip<H> as Recieve>::serial_rel(pre, payload, post, r),
        pre.last_line@.len() <= payload.len(),
        payload.subrange(0, pre.last_line@.len() as int) == pre.last_line@,
        match r {
            Ok(m) => m.serial is None,
            Err(_) => true,
        },
    ensures
        H::serial_rel(
            pre.destination,
            payload.skip(pre.last_line@.len() as int),
            post.destination,
            r,
        ),
        post.last_line@ == Seq::<u8>::empty(),
{
    lemma_echo_full_match(pre.last_line@, payload);
}

/// Pass-through law: a payload arriving while no echo is pending reaches the
/// wrapped stage unmodified.
pub proof fn lemma_echo_passthrough<H: Recieve>(
    pre: EchoStrip<H>,
    payload: Seq<u8>,
    post: EchoStrip<H>,
    r: Result<ResponseModel, HandlerError>,
)
    requires
        <EchoStrip<H> as Recieve>::serial_rel(pre, payload, post, r),
        pre.last_line@.len() == 0,
    ensures
        H::serial_rel(pre.destination, payload, post.destination, r),
{
    assert(pre.last_line@ =~= Seq::<u8>::empty());
    assert(payload.skip(0) =~= payload);
}

} // verus!
