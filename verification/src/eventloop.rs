//! The uniform handler contract and the verified part of the dispatcher.
//!
//! Every pipeline stage implements [`Recieve`]: given a console line or a
//! remote payload, it produces a [`Response`] (bytes for the console, bytes
//! for the remote channel, and a termination flag), or fails.  Each stage
//! describes its behaviour with relational spec functions, so that a filter
//! wrapping an inner stage can state exactly which bytes it hands on.
//!
//! [`process_batch`] is the decision core of the event loop: it feeds one
//! readiness batch of events through a handler, collecting the responses to
//! write, and stops at the first response that requests termination or at the
//! first failure.

use vstd::prelude::*;

verus! {

/// What a handler asks the dispatcher to do: optional bytes for the console,
/// optional bytes for the remote channel, and whether to end the session.
pub struct Response {
    pub stdout: Option<Vec<u8>>,
    pub serial: Option<Vec<u8>>,
    pub terminate: bool,
}

/// The mathematical value of a [`Response`]: the same three fields with byte
/// vectors abstracted to sequences.
#[verifier::ext_equal]
pub struct ResponseModel {
    pub stdout: Option<Seq<u8>>,
    pub serial: Option<Seq<u8>>,
    pub terminate: bool,
}

impl View for Response {
    type V = ResponseModel;

    open spec fn view(&self) -> ResponseModel {
        ResponseModel {
            stdout: self.stdout.deep_view(),
            serial: self.serial.deep_view(),
            terminate: self.terminate,
        }
    }
}

/// The model of a `Response` that does nothing.
pub open spec fn none_model() -> ResponseModel {
    ResponseModel { stdout: None, serial: None, terminate: false }
}

/// The model of a `Response` that writes `b` to the console.
pub open spec fn to_stdout_model(b: Seq<u8>) -> ResponseModel {
    ResponseModel { stdout: Some(b), serial: None, terminate: false }
}

/// The model of a `Response` that writes `b` to the remote channel.
pub open spec fn to_serial_model(b: Seq<u8>) -> ResponseModel {
    ResponseModel { stdout: None, serial: Some(b), terminate: false }
}

/// The model of a `Response` that only requests termination.
pub open spec fn terminate_model() -> ResponseModel {
    ResponseModel { stdout: None, serial: None, terminate: true }
}

impl Response {
    /// A response that does nothing.
    pub fn none() -> (r: Response)
        ensures
            r@ == none_model(),
    {
        Response { stdout: None, serial: None, terminate: false }
    }

    /// A response that writes `b` to the console.
    pub fn to_stdout(b: Vec<u8>) -> (r: Response)
        ensures
            r@ == to_stdout_model(b@),
    {
        Response { stdout: Some(b), serial: None, terminate: false }
    }

    /// A response that writes `b` to the remote channel.
    pub fn to_serial(b: Vec<u8>) -> (r: Response)
        ensures
            r@ == to_serial_model(b@),
    {
        Response { stdout: None, serial: Some(b), terminate: false }
    }

    /// A response that only requests termination.
    pub fn terminate() -> (r: Response)
        ensures
            r@ == terminate_model(),
    {
        Response { stdout: None, serial: None, terminate: true }
    }
}

/// Why a handler entry point failed.
#[derive(Clone, Copy, PartialEq, Eq, Debug)]
pub enum HandlerError {
    /// A console line reached a stage that does not accept console lines.
    UnsupportedConsoleLine,
}

/// The model of a handler result: the response abstracted to its model.
pub open spec fn result_model(r: Result<Response, HandlerError>) -> Result<
    ResponseModel,
    HandlerError,
> {
    match r {
        Ok(resp) => Ok(resp@),
        Err(e) => Err(e),
    }
}

/// The uniform pipeline-stage contract.
///
/// Each implementation supplies relational spec functions that pin down what
/// its four entry points do: `*_rel(pre, input, post, result)` holds exactly
/// when a call in state `pre` with that input may end in state `post` with
/// that result.  `inv` is the stage's well-formedness invariant, established
/// by its constructor and preserved by every entry point; `startup_ok` says
/// in which states `startup` may be called at all.
pub trait Recieve: Sized {
    /// Well-formedness of this stage (and of everything it wraps).
    spec fn inv(&self) -> bool;

    /// States in which `startup` may legally be called.
    spec fn startup_ok(&self) -> bool;

    /// How `startup` relates the state before, the state after, and the result.
    spec fn startup_rel(pre: Self, post: Self, r: ResponseModel) -> bool;

    /// How `recieve_stdin` relates states and result for a console line.
    spec fn stdin_rel(
        pre: Self,
        line: Seq<u8>,
        post: Self,
        r: Result<ResponseModel, HandlerError>,
    ) -> bool;

    /// How `recieve_serial` relates states and result for a remote payload.
    spec fn serial_rel(
        pre: Self,
        payload: Seq<u8>,
        post: Self,
        r: Result<ResponseModel, HandlerError>,
    ) -> bool;

    /// How `shutdown` relates states and result.
    spec fn shutdown_rel(pre: Self, post: Self, r: ResponseModel) -> bool;

    /// Called once before the event loop starts.
    fn startup(&mut self) -> (r: Response)
        requires
            old(self).inv(),
            old(self).startup_ok(),
        ensures
            final(self).inv(),
            Self::startup_rel(*old(self), *final(self), r@),
    ;

    /// One newline-terminated console line, as raw bytes.
    fn recieve_stdin(&mut self, line: Vec<u8>) -> (r: Result<Response, HandlerError>)
        requires
            old(self).inv(),
        ensures
            final(self).inv(),
            Self::stdin_rel(*old(self), line@, *final(self), result_model(r)),
    ;

    /// One chunk of bytes read from the remote channel.
    fn recieve_serial(&mut self, payload: Vec<u8>) -> (r: Result<Response, HandlerError>)
        requires
            old(self).inv(),
        ensures
            final(self).inv(),
            Self::serial_rel(*old(self), payload@, *final(self), result_model(r)),
    ;

    /// Called once after the event loop ends.  The stage need not remain
    /// usable afterwards.
    fn shutdown(&mut self) -> (r: Response)
        requires
            old(self).inv(),
        ensures
            Self::shutdown_rel(*old(self), *final(self), r@),
    ;
}

/// One unit of input the dispatcher has read: a console line or a remote
/// payload.
pub enum SessionEvent {
    Stdin(Vec<u8>),
    Serial(Vec<u8>),
}

/// How dispatching one event relates handler states and the result.
pub open spec fn event_rel<H: Recieve>(
    pre: H,
    ev: SessionEvent,
    post: H,
    r: Result<ResponseModel, HandlerError>,
) -> bool {
    match ev {
        SessionEvent::Stdin(line) => H::stdin_rel(pre, line@, post, r),
        SessionEvent::Serial(payload) => H::serial_rel(pre, payload@, post, r),
    }
}

/// The models of a vector of responses.
pub open spec fn response_models(outs: Seq<Response>) -> Seq<ResponseModel> {
    outs.map(|i: int, resp: Response| resp@)
}

/// How processing a batch of events relates the handler states, the responses
/// collected for writing, the termination flag, and an optional failure.
///
/// Events are dispatched in order.  A response with `terminate` set is the
/// last one collected and sets `done`: no later event of the batch is
/// dispatched.  A failing dispatch ends the batch at once; the failed event
/// contributes no response.
pub open spec fn batch_rel<H: Recieve>(
    pre: H,
    events: Seq<SessionEvent>,
    post: H,
    outs: Seq<ResponseModel>,
    done: bool,
    fail: Option<HandlerError>,
) -> bool
    decreases events.len(),
{
    if events.len() == 0 {
        post == pre && outs == Seq::<ResponseModel>::empty() && !done && fail is None
    } else {
        exists|mid: H, m: Result<ResponseModel, HandlerError>|
            #[trigger] event_rel(pre, events[0], mid, m) && match m {
                Err(e) => post == mid && outs == Seq::<ResponseModel>::empty() && !done && fail
                    == Some(e),
                Ok(resp) => outs.len() >= 1 && outs[0] == resp && if resp.terminate {
                    post == mid && outs.len() == 1 && done && fail is None
                } else {
                    batch_rel(mid, events.skip(1), post, outs.skip(1), done, fail)
                },
            }
    }
}

/// Dispatch one event to the matching handler entry point.
pub fn dispatch_event<H: Recieve>(handler: &mut H, ev: SessionEvent) -> (r: Result<
    Response,
    HandlerError,
>)
    requires
        old(handler).inv(),
    ensures
        final(handler).inv(),
        event_rel(*old(handler), ev, *final(handler), result_model(r)),
{
    match ev {
        SessionEvent::Stdin(line) => handler.recieve_stdin(line),
        SessionEvent::Serial(payload) => handler.recieve_serial(payload),
    }
}

/// What one readiness batch produced: the responses to write, in dispatch
/// order, whether a response requested termination, and whether a dispatch
/// failed.
pub struct BatchOutcome {
    pub written: Vec<Response>,
    pub terminated: bool,
    pub failure: Option<HandlerError>,
}

/// Feed one readiness batch of events through the handler.
///
/// Responses are collected in dispatch order.  The first response with
/// `terminate` set ends the batch: later events are not dispatched.  The
/// first failure ends the batch too, contributing no response.
pub fn process_batch<H: Recieve>(handler: &mut H, events: Vec<SessionEvent>) -> (r: BatchOutcome)
    requires
        old(handler).inv(),
    ensures
        final(handler).inv(),
        batch_rel(
            *old(handler),
            events@,
            *final(handler),
            response_models(r.written@),
            r.terminated,
            r.failure,
        ),
{
    let mut out = BatchOutcome { written: Vec::new(), terminated: false, failure: None };
    process_events(handler, events, &mut out);
    proof {
        assert(out.written@.skip(0) =~= out.written@);
    }
    out
}

/// Recursive worker behind [`process_batch`], consuming the events in order.
fn process_events<H: Recieve>(handler: &mut H, events: Vec<SessionEvent>, out: &mut BatchOutcome)
    requires
        old(handler).inv(),
        !old(out).terminated,
        old(out).failure is None,
    ensures
        final(handler).inv(),
        final(out).written@.len() >= old(out).written@.len(),
        final(out).written@.subrange(0, old(out).written@.len() as int) == old(out).written@,
        batch_rel(
            *old(handler),
            events@,
            *final(handler),
            response_models(final(out).written@.skip(old(out).written@.len() as int)),
            final(out).terminated,
            final(out).failure,
        ),
    decreases events@.len(),
{
    let ghost pre = *handler;
    let ghost prev_written = out.written@;
    if events.len() == 0 {
        assert(response_models(out.written@.skip(prev_written.len() as int)) == Seq::<
            ResponseModel,
        >::empty());
        assert(out.written@.subrange(0, prev_written.len() as int) == prev_written);
        return;
    }
    let mut rest = events;
    let ev = rest.remove(0);
    proof {
        assert(ev == events@[0]);
        assert(rest@ =~= events@.skip(1));
    }
    let r = dispatch_event(handler, ev);
    let ghost mid = *handler;
    let ghost m = result_model(r);
    match r {
        Err(e) => {
            out.failure = Some(e);
            assert(event_rel(pre, events@[0], mid, m));
            assert(response_models(out.written@.skip(prev_written.len() as int)) == Seq::<
                ResponseModel,
            >::empty());
            assert(out.written@.subrange(0, prev_written.len() as int) == prev_written);
        },
        Ok(resp) => {
            let terminate = resp.terminate;
            let ghost resp_m = resp@;
            out.written.push(resp);
            if terminate {
                out.terminated = true;
                assert(event_rel(pre, events@[0], mid, m));
                assert(response_models(out.written@.skip(prev_written.len() as int)) =~= seq![
                    resp_m,
                ]);
                assert(out.written@.subrange(0, prev_written.len() as int) =~= prev_written);
            } else {
                let ghost after_push = out.written@;
                process_events(handler, rest, out);
                proof {
                    assert(event_rel(pre, events@[0], mid, m));
                    let full = out.written@.skip(prev_written.len() as int);
                    let tail = out.written@.skip(after_push.len() as int);
                    assert(out.written@.subrange(0, after_push.len() as int) == after_push);
                    assert(full.len() >= 1);
                    assert(out.written@[prev_written.len() as int] == after_push[prev_written.len() as int]);
                    assert(full[0] == out.written@[prev_written.len() as int]);
                    assert(response_models(full)[0] == full[0]@);
                    assert(response_models(full)[0] == resp_m);
                    assert(response_models(full).skip(1) =~= response_models(tail));
                    assert(batch_rel(
                        mid,
                        events@.skip(1),
                        *handler,
                        response_models(full).skip(1),
                        out.terminated,
                        out.failure,
                    ));
                    assert(out.written@.subrange(0, prev_written.len() as int) =~= prev_written);
                }
            }
        },
    }
}

} // verus!
