//! The file-listing terminal stage.
//!
//! On startup it asks the remote interpreter to enumerate its files by
//! sending a short script; the first remote payload then ends the session.
//! (Parsing the listing into records is not implemented; the raw reply is
//! simply the session's last traffic.)

use vstd::prelude::*;

use crate::eventloop::{
    none_model, terminate_model, to_serial_model, HandlerError, Recieve, Response, ResponseModel,
};

verus! {

/// The script sent to the remote interpreter to list its files:
/// `for k,v in pairs(file.list()) do print(k.."\031"..v) end\n`.
pub open spec fn list_script_spec() -> Seq<u8> {
    seq![
        102u8, 111u8, 114u8, 32u8, 107u8, 44u8, 118u8, 32u8, 105u8, 110u8, 32u8, 112u8, 97u8,
        105u8, 114u8, 115u8, 40u8, 102u8, 105u8, 108u8, 101u8, 46u8, 108u8, 105u8, 115u8, 116u8,
        40u8, 41u8, 41u8, 32u8, 100u8, 111u8, 32u8, 112u8, 114u8, 105u8, 110u8, 116u8, 40u8,
        107u8, 46u8, 46u8, 34u8, 92u8, 48u8, 51u8, 49u8, 34u8, 46u8, 46u8, 118u8, 41u8, 32u8,
        101u8, 110u8, 100u8, 10u8,
    ]
}

/// The listing script as bytes.
fn list_script() -> (r: Vec<u8>)
    ensures
        r@ == list_script_spec(),
{
    let v: Vec<u8> = vec![
        102u8, 111u8, 114u8, 32u8, 107u8, 44u8, 118u8, 32u8, 105u8, 110u8, 32u8, 112u8, 97u8,
        105u8, 114u8, 115u8, 40u8, 102u8, 105u8, 108u8, 101u8, 46u8, 108u8, 105u8, 115u8, 116u8,
        40u8, 41u8, 41u8, 32u8, 100u8, 111u8, 32u8, 112u8, 114u8, 105u8, 110u8, 116u8, 40u8,
        107u8, 46u8, 46u8, 34u8, 92u8, 48u8, 51u8, 49u8, 34u8, 46u8, 46u8, 118u8, 41u8, 32u8,
        101u8, 110u8, 100u8, 10u8,
    ];
    proof {
        assert(v@ =~= list_script_spec());
    }
    v
}

/// Requests the remote's file listing on startup and terminates on the first
/// reply.
pub struct List {
    /// Whether the listing was requested in long form (names and sizes).
    pub long_mode: bool,
}

impl List {
    /// A fresh listing stage.
    pub fn new(long_mode: bool) -> (r: List)
        ensures
            r.inv(),
            r.long_mode == long_mode,
    {
        List { long_mode }
    }
}

impl Recieve for List {
    open spec fn inv(&self) -> bool {
        true
    }

    open spec fn startup_ok(&self) -> bool {
        true
    }

    open spec fn startup_rel(pre: Self, post: Self, r: ResponseModel) -> bool {
        post == pre && r == to_serial_model(list_script_spec())
    }

    open spec fn stdin_rel(
        pre: Self,
        line: Seq<u8>,
        post: Self,
        r: Result<ResponseModel, HandlerError>,
    ) -> bool {
        post == pre && r == Ok::<ResponseModel, HandlerError>(none_model())
    }

    open spec fn serial_rel(
        pre: Self,
        payload: Seq<u8>,
        post: Self,
        r: Result<ResponseModel, HandlerError>,
    ) -> bool {
        post == pre && r == Ok::<ResponseModel, HandlerError>(terminate_model())
    }

    open spec fn shutdown_rel(pre: Self, post: Self, r: ResponseModel) -> bool {
        post == pre && r == none_model()
    }

    fn startup(&mut self) -> (r: Response) {
        Response::to_serial(list_script())
    }

    fn recieve_stdin(&mut self, line: Vec<u8>) -> (r: Result<Response, HandlerError>) {
        Ok(Response::none())
    }

    fn recieve_serial(&mut self, payload: Vec<u8>) -> (r: Result<Response, HandlerError>) {
        Ok(Response::terminate())
    }

    fn shutdown(&mut self) -> (r: Response) {
        Response::none()
    }
}

} // verus!
