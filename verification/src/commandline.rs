//! The interactive-console terminal stage.
//!
//! Console lines go to the remote channel verbatim; remote payloads go to the
//! console verbatim.  It keeps no state and never fails.

use vstd::prelude::*;

use crate::eventloop::{
    none_model, to_serial_model, to_stdout_model, HandlerError, Recieve, Response, ResponseModel,
};

verus! {

/// Passes console lines to the remote channel and remote payloads to the
/// console, unchanged.
pub struct CommandLine();

impl CommandLine {
    /// A fresh console stage.
    pub fn new() -> (r: CommandLine)
        ensures
            r.inv(),
    {
        CommandLine()
    }
}

impl Recieve for CommandLine {
    open spec fn inv(&self) -> bool {
        true
    }

    open spec fn startup_ok(&self) -> bool {
        true
    }

    open spec fn startup_rel(pre: Self, post: Self, r: ResponseModel) -> bool {
        post == pre && r == none_model()
    }

    open spec fn stdin_rel(
        pre: Self,
        line: Seq<u8>,
        post: Self,
        r: Result<ResponseModel, HandlerError>,
    ) -> bool {
        post == pre && r == Ok::<ResponseModel, HandlerError>(to_serial_model(line))
    }

    open spec fn serial_rel(
        pre: Self,
        payload: Seq<u8>,
        post: Self,
        r: Result<ResponseModel, HandlerError>,
    ) -> bool {
        post == pre && r == Ok::<ResponseModel, HandlerError>(to_stdout_model(payload))
    }

    open spec fn shutdown_rel(pre: Self, post: Self, r: ResponseModel) -> bool {
        post == pre && r == none_model()
    }

    fn startup(&mut self) -> (r: Response) {
        Response::none()
    }

    fn recieve_stdin(&mut self, line: Vec<u8>) -> (r: Result<Response, HandlerError>) {
        Ok(Response::to_serial(line))
    }

    fn recieve_serial(&mut self, payload: Vec<u8>) -> (r: Result<Response, HandlerError>) {
        Ok(Response::to_stdout(payload))
    }

    fn shutdown(&mut self) -> (r: Response) {
        Response::none()
    }
}

} // verus!
