//! The prompt-synchronization filter.
//!
//! The remote command interpreter starts every idle prompt with the four
//! bytes `"\r\n> "`.  [`Synch`] sends a bare line terminator until it sees a
//! payload ending in that marker, and only then lets traffic reach the
//! wrapped stage.  While a reply to an outstanding request does not yet end
//! with the marker, the computed inner response is held back and another
//! probe is sent; the held response is released once the prompt reappears.
//!
//! The filter is a state machine over [`WaitingFor`]:
//! - `FirstSynch`: never yet seen a prompt.
//! - `Nothing`: synchronized; no request outstanding.
//! - `Response`: a request was forwarded; a reply is expected.
//! - `Synch(held)`: a reply arrived without a trailing prompt; `held` is the
//!   computed response, kept back until the prompt is seen.
//! - `Invalid`: placeholder used only while a held response is moved out;
//!   never observable between calls.

use vstd::prelude::*;

use core::mem;
use vstd::pervasive::unreached;

use crate::eventloop::{
    result_model, to_serial_model, HandlerError, Recieve, Response, ResponseModel,
};

verus! {

/// The prompt marker the remote emits when idle: `"\r\n> "`.
pub open spec fn prompt_spec() -> Seq<u8> {
    seq![13u8, 10u8, 62u8, 32u8]
}

/// The recovery probe: a benign line terminator, `";\r\n"`.
pub open spec fn endline_spec() -> Seq<u8> {
    seq![59u8, 13u8, 10u8]
}

/// The model of the recovery-probe response.
pub open spec fn endline_model() -> ResponseModel {
    to_serial_model(endline_spec())
}

/// Whether `haystack` ends with `needle`.
pub open spec fn ends_with_spec(haystack: Seq<u8>, needle: Seq<u8>) -> bool {
    haystack.len() >= needle.len() && haystack.skip(haystack.len() - needle.len()) == needle
}

/// Whether `haystack` ends with `needle`, byte for byte.
pub fn ends_with(haystack: &[u8], needle: &[u8]) -> (r: bool)
    ensures
        r == ends_with_spec(haystack@, needle@),
{
    if haystack.len() < needle.len() {
        return false;
    }
    let hlen = haystack.len();
    let off = hlen - needle.len();
    let mut i: usize = 0;
    while i < needle.len()
        invariant
            needle@.len() <= haystack@.len(),
            hlen == haystack@.len(),
            off == haystack@.len() - needle@.len(),
            i <= needle@.len(),
            forall|j: int| 0 <= j < i ==> haystack@[off + j] == needle@[j],
        decreases needle@.len() - i,
    {
        if haystack[off + i] != needle[i] {
            proof {
                let tail = haystack@.skip(off as int);
                assert(tail[i as int] == haystack@[off + i]);
                assert(tail[i as int] != needle@[i as int]);
            }
            return false;
        }
        i = i + 1;
    }
    proof {
        assert(haystack@.skip(off as int) =~= needle@);
    }
    true
}

/// The recovery probe as a response: `";\r\n"` for the remote channel.
pub fn response_endline() -> (r: Response)
    ensures
        r@ == endline_model(),
{
    let bytes: Vec<u8> = vec![59u8, 13u8, 10u8];
    proof {
        assert(bytes@ =~= endline_spec());
    }
    Response::to_serial(bytes)
}

/// The prompt marker as bytes.
fn prompt() -> (r: Vec<u8>)
    ensures
        r@ == prompt_spec(),
{
    let v: Vec<u8> = vec![13u8, 10u8, 62u8, 32u8];
    proof {
        assert(v@ =~= prompt_spec());
    }
    v
}

/// What the filter is waiting for on the remote channel.
pub enum WaitingFor {
    /// Has never successfully synchronized; waiting for the first prompt.
    FirstSynch,
    /// Synchronized, nothing outstanding.
    Nothing,
    /// A request went out; its reply is expected.
    Response,
    /// A reply arrived without a trailing prompt; it is held here until the
    /// prompt is seen.
    Synch(Response),
    /// Placeholder while a held response is moved out; never observable
    /// between calls.
    Invalid,
}

/// The state that follows a response passing outward: a response that wrote
/// to the remote channel awaits a reply, any other leaves nothing
/// outstanding.
pub open spec fn decided_state(m: ResponseModel) -> WaitingFor {
    if m.serial is Some {
        WaitingFor::Response
    } else {
        WaitingFor::Nothing
    }
}

/// The next state per a response that passed through, as executable code.
fn decided_of(resp: &Response) -> (s: WaitingFor)
    ensures
        s == decided_state(resp@),
{
    if resp.serial.is_some() {
        WaitingFor::Response
    } else {
        WaitingFor::Nothing
    }
}

/// Keeps the wrapped stage from seeing remote payloads until the remote is
/// at a known prompt, probing with line terminators otherwise.
pub struct Synch<H: Recieve> {
    pub inner: H,
    pub state: WaitingFor,
}

impl<H: Recieve> Synch<H> {
    /// Wrap `inner`; synchronization starts from scratch.
    ///
    /// The wrapped stage must be ready for `startup`, which this filter
    /// calls when the first prompt is seen.
    pub fn new(inner: H) -> (r: Synch<H>)
        requires
            inner.inv(),
            inner.startup_ok(),
        ensures
            r.inv(),
            r.inner == inner,
            r.state is FirstSynch,
    {
        Synch { inner, state: WaitingFor::FirstSynch }
    }

    /// Record whether `resp` leaves a request outstanding, then hand it back.
    fn decide_response(&mut self, resp: Result<Response, HandlerError>) -> (r: Result<
        Response,
        HandlerError,
    >)
        ensures
            r == resp,
            final(self).inner == old(self).inner,
            final(self).state == match result_model(r) {
                Ok(m) => decided_state(m),
                Err(_) => old(self).state,
            },
    {
        match &resp {
            Ok(inner_resp) => {
                self.state = decided_of(inner_resp);
            },
            Err(_) => {},
        }
        resp
    }
}

impl<H: Recieve> Recieve for Synch<H> {
    open spec fn inv(&self) -> bool {
        &&& !(self.state is Invalid)
        &&& self.inner.inv()
        &&& self.state is FirstSynch ==> self.inner.startup_ok()
    }

    open spec fn startup_ok(&self) -> bool {
        match self.state {
            WaitingFor::FirstSynch => true,
            WaitingFor::Nothing => self.inner.startup_ok(),
            _ => false,
        }
    }

    open spec fn startup_rel(pre: Self, post: Self, r: ResponseModel) -> bool {
        match pre.state {
            WaitingFor::FirstSynch => post == pre && r == endline_model(),
            WaitingFor::Nothing => H::startup_rel(pre.inner, post.inner, r) && post.state
                == decided_state(r),
            _ => false,
        }
    }

    open spec fn stdin_rel(
        pre: Self,
        line: Seq<u8>,
        post: Self,
        r: Result<ResponseModel, HandlerError>,
    ) -> bool {
        post == pre && r == Err::<ResponseModel, HandlerError>(
            HandlerError::UnsupportedConsoleLine,
        )
    }

    open spec fn serial_rel(
        pre: Self,
        payload: Seq<u8>,
        post: Self,
        r: Result<ResponseModel, HandlerError>,
    ) -> bool {
        let at_prompt = ends_with_spec(payload, prompt_spec());
        match pre.state {
            WaitingFor::FirstSynch => if at_prompt {
                r is Ok && H::startup_rel(pre.inner, post.inner, r->Ok_0) && post.state
                    == decided_state(r->Ok_0)
            } else {
                post == pre && r == Ok::<ResponseModel, HandlerError>(endline_model())
            },
            WaitingFor::Nothing => H::serial_rel(pre.inner, payload, post.inner, r) && post.state
                == match r {
                Ok(m) => decided_state(m),
                Err(_) => pre.state,
            },
            WaitingFor::Response => if at_prompt {
                H::serial_rel(pre.inner, payload, post.inner, r) && post.state == match r {
                    Ok(m) => decided_state(m),
                    Err(_) => pre.state,
                }
            } else {
                match r {
                    Ok(m) => m == endline_model() && (match post.state {
                        WaitingFor::Synch(held) => H::serial_rel(
                            pre.inner,
                            payload,
                            post.inner,
                            Ok(held@),
                        ),
                        _ => false,
                    }),
                    Err(e) => H::serial_rel(pre.inner, payload, post.inner, Err(e)) && post.state
                        == pre.state,
                }
            },
            WaitingFor::Synch(held) => if at_prompt {
                post.inner == pre.inner && r == Ok::<ResponseModel, HandlerError>(held@)
                    && post.state == decided_state(held@)
            } else {
                post == pre && r == Ok::<ResponseModel, HandlerError>(endline_model())
            },
            WaitingFor::Invalid => false,
        }
    }

    open spec fn shutdown_rel(pre: Self, post: Self, r: ResponseModel) -> bool {
        H::shutdown_rel(pre.inner, post.inner, r) && post.state == pre.state
    }

    fn startup(&mut self) -> (r: Response) {
        match &self.state {
            WaitingFor::FirstSynch => response_endline(),
            WaitingFor::Nothing => {
                let resp = self.inner.startup();
                self.state = decided_of(&resp);
                resp
            },
            _ => unreached(),
        }
    }

    fn recieve_stdin(&mut self, line: Vec<u8>) -> (r: Result<Response, HandlerError>) {
        // The remote protocol's request side flows only through
        // `recieve_serial`-triggered actions; a console line arriving here
        // means the pipeline was assembled wrongly.
        Err(HandlerError::UnsupportedConsoleLine)
    }

    fn recieve_serial(&mut self, payload: Vec<u8>) -> (r: Result<Response, HandlerError>) {
        let marker = prompt();
        let at_prompt = ends_with(payload.as_slice(), marker.as_slice());
        match &self.state {
            WaitingFor::FirstSynch => {
                if at_prompt {
                    let resp = self.inner.startup();
                    self.state = decided_of(&resp);
                    Ok(resp)
                } else {
                    Ok(response_endline())
                }
            },
            WaitingFor::Nothing => {
                let r = self.inner.recieve_serial(payload);
                self.decide_response(r)
            },
            WaitingFor::Response => {
                if at_prompt {
                    let r = self.inner.recieve_serial(payload);
                    self.decide_response(r)
                } else {
                    let r = self.inner.recieve_serial(payload);
                    match r {
                        Ok(resp) => {
                            self.state = WaitingFor::Synch(resp);
                            Ok(response_endline())
                        },
                        Err(e) => Err(e),
                    }
                }
            },
            WaitingFor::Synch(_) => {
                if at_prompt {
                    let mut taken = WaitingFor::Invalid;
                    mem::swap(&mut self.state, &mut taken);
                    match taken {
                        WaitingFor::Synch(held) => {
                            self.state = decided_of(&held);
                            Ok(held)
                        },
                        _ => unreached(),
                    }
                } else {
                    Ok(response_endline())
                }
            },
            WaitingFor::Invalid => unreached(),
        }
    }

    fn shutdown(&mut self) -> (r: Response) {
        self.inner.shutdown()
    }
}

/// Inductive core of [`lemma_recovery_repeat`]: while no prompt has been
/// seen, the filter never moves.
proof fn lemma_recovery_state_at<H: Recieve>(
    states: Seq<Synch<H>>,
    payloads: Seq<Seq<u8>>,
    results: Seq<Result<ResponseModel, HandlerError>>,
    i: int,
)
    requires
        states.len() == payloads.len() + 1,
        results.len() == payloads.len(),
        states[0].state is FirstSynch,
        forall|k: int| 0 <= k < payloads.len() ==> !ends_with_spec(
            #[trigger] payloads[k],
            prompt_spec(),
        ),
        forall|k: int| 0 <= k < payloads.len() ==> #[trigger] <Synch<H> as Recieve>::serial_rel(
            states[k],
            payloads[k],
            states[k + 1],
            results[k],
        ),
        0 <= i < states.len(),
    ensures
        states[i] == states[0],
    decreases i,
{
    if i > 0 {
        lemma_recovery_state_at(states, payloads, results, i - 1);
        let k = i - 1;
        assert(<Synch<H> as Recieve>::serial_rel(states[k], payloads[k], states[k + 1], results[k]));
        assert(states[k + 1] == states[i]);
    }
}

/// Synchronization-recovery law: starting from a filter that has never seen
/// a prompt, a run of payloads none of which ends in the prompt marker
/// leaves the filter — and so the wrapped stage — exactly as it was, and
/// every one of them is answered with the recovery probe.
///
/// `states[i]` is the filter before payload `i`; `serial_rel` links each
/// state to the next, as the `recieve_serial` contract guarantees for the
/// executable filter.
pub proof fn lemma_recovery_repeat<H: Recieve>(
    states: Seq<Synch<H>>,
    payloads: Seq<Seq<u8>>,
    results: Seq<Result<ResponseModel, HandlerError>>,
)
    requires
        states.len() == payloads.len() + 1,
        results.len() == payloads.len(),
        states[0].state is FirstSynch,
        forall|k: int| 0 <= k < payloads.len() ==> !ends_with_spec(
            #[trigger] payloads[k],
            prompt_spec(),
        ),
        forall|k: int| 0 <= k < payloads.len() ==> #[trigger] <Synch<H> as Recieve>::serial_rel(
            states[k],
            payloads[k],
            states[k + 1],
            results[k],
        ),
    ensures
        forall|i: int| #![trigger states[i]] 0 <= i < states.len() ==> states[i] == states[0],
        forall|i: int| #![trigger results[i]] 0 <= i < results.len() ==> results[i] == Ok::<
            ResponseModel,
            HandlerError,
        >(endline_model()),
{
    assert forall|i: int| #![trigger states[i]] 0 <= i < states.len() implies states[i]
        == states[0] by {
        lemma_recovery_state_at(states, payloads, results, i);
    }
    assert forall|i: int| #![trigger results[i]] 0 <= i < results.len() implies results[i] == Ok::<
        ResponseModel,
        HandlerError,
    >(endline_model()) by {
        assert(<Synch<H> as Recieve>::serial_rel(states[i], payloads[i], states[i + 1], results[i]));
        assert(states[i] == states[0]);
    }
}

/// Held-response law: from the awaiting-reply state, a reply that does not
/// end in the prompt marker is computed by the wrapped stage but withheld —
/// the recovery probe goes out in its place — and the next prompt-terminated
/// payload releases exactly that computed response, without invoking the
/// wrapped stage again.
pub proof fn lemma_held_release<H: Recieve>(
    s0: Synch<H>,
    p1: Seq<u8>,
    s1: Synch<H>,
    r1: Result<ResponseModel, HandlerError>,
    p2: Seq<u8>,
    s2: Synch<H>,
    r2: Result<ResponseModel, HandlerError>,
)
    requires
        s0.state is Response,
        !ends_with_spec(p1, prompt_spec()),
        <Synch<H> as Recieve>::serial_rel(s0, p1, s1, r1),
        r1 is Ok,
        ends_with_spec(p2, prompt_spec()),
        <Synch<H> as Recieve>::serial_rel(s1, p2, s2, r2),
    ensures
        r1 == Ok::<ResponseModel, HandlerError>(endline_model()),
        s1.state is Synch,
        H::serial_rel(s0.inner, p1, s1.inner, Ok(s1.state->Synch_0@)),
        r2 == Ok::<ResponseModel, HandlerError>(s1.state->Synch_0@),
        s2.inner == s1.inner,
{
}

} // verus!
