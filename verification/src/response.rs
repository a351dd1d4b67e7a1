//! Responses from greetd to a greeter, and how one is read off a stream.

use crate::frame::ByteOrder;
use vstd::prelude::*;
use vstd::slice::slice_subrange;

verus! {

/// An error type for Response::Error. Serialized as snake_case.
#[derive(Debug)]
pub enum ErrorType {
    /// A generic error. See the error description for more details.
    Error,
    /// An error caused by failed authentication.
    AuthError,
}

/// A message type for a Response::AuthMessage. Serialized as snake_case.
#[derive(Debug)]
pub enum AuthMessageType {
    /// A question whose answer should be visible during input.
    Visible,
    /// A question whose answer should be kept secret during input.
    Secret,
    /// An information message.
    Info,
    /// An error message.
    Error,
}

/// A response from greetd to a greeter. The response type is internally tagged
/// with the "type" field, with the type written in snake_case.
///
/// Example serialization:
///
/// ```json
/// {
///    "type": "auth_message",
///    "message": "Password:",
///    "message_type": "secret"
/// }
/// ```
#[derive(Debug)]
pub enum Response {
    /// The request was successful.
    Success,
    /// The session was started, and greetd has nothing more to say.
    Finish,
    /// The request failed. See the type and/or description for more
    /// information about this failure.
    Error { error_type: ErrorType, description: String },
    /// An authentication message needs to be answered to continue through the
    /// authentication flow.
    ///
    /// An authentication message can consist of anything. While it will
    /// commonly just be a request for the users' password, it could also ask
    /// for TOTP codes, or whether or not you felt sad when Littlefoot's mother
    /// died in the original "Land Before Time". It is therefore important that
    /// no assumptions are made about the questions that will be asked, and
    /// attempts to automatically answer these questions should not be made.
    AuthMessage { auth_message_type: AuthMessageType, auth_message: String },
}

/// What to do next to read one message, given the bytes of it that have been read so far.
#[derive(Debug)]
pub enum ReadStep<'a> {
    /// Read exactly this many more bytes.
    Fill(usize),
    /// All of the message is there, and this is its payload.
    Parse(&'a [u8]),
}

/// What a `ReadStep` says.
pub enum ReadStepView {
    Fill(nat),
    Parse(Seq<u8>),
}

impl<'a> View for ReadStep<'a> {
    type V = ReadStepView;

    open spec fn view(&self) -> ReadStepView {
        match *self {
            ReadStep::Fill(n) => ReadStepView::Fill(n as nat),
            ReadStep::Parse(payload) => ReadStepView::Parse(payload@),
        }
    }
}

/// The step after `received`, in a message whose header announces `len` bytes: first the header is
/// filled, then the payload, and then there is nothing left to read.
pub open spec fn step_with_len(received: Seq<u8>, len: nat) -> ReadStepView {
    if received.len() < 4 {
        ReadStepView::Fill((4 - received.len()) as nat)
    } else if received.len() < 4 + len {
        ReadStepView::Fill((4 + len - received.len()) as nat)
    } else {
        ReadStepView::Parse(received.subrange(4, 4 + len as int))
    }
}

/// The step after `received`, where lengths are in the given byte order.
pub open spec fn step(order: ByteOrder, received: Seq<u8>) -> ReadStepView {
    step_with_len(received, crate::frame::order_value(order, received))
}

impl Response {
    /// The step after `received`, the bytes of the message that have been read so far. Starting
    /// from no bytes at all, this asks for the four bytes of the length, which are in the given
    /// byte order, and then for as many bytes as the length says.
    pub fn read_from(order: ByteOrder, received: &[u8]) -> (r: ReadStep<'_>)
        ensures
            r@ == step(order, received@),
            received@.len() < 4 ==> (r matches ReadStep::Fill(n) && n == 4 - received@.len()),
            received@.len() >= 4 ==> ({
                let b = received@;
                let len = if order is Little {
                    b[0] + b[1] * 0x100 + b[2] * 0x1_0000 + b[3] * 0x100_0000
                } else {
                    b[3] + b[2] * 0x100 + b[1] * 0x1_0000 + b[0] * 0x100_0000
                };
                match r {
                    ReadStep::Fill(n) => n > 0 && received@.len() + n == 4 + len,
                    ReadStep::Parse(payload) => received@.len() >= 4 + len && payload@
                        == received@.subrange(4, 4 + len),
                }
            }),
    {
        if received.len() < 4 {
            return ReadStep::Fill(4 - received.len());
        }
        let header: [u8; 4] = [received[0], received[1], received[2], received[3]];
        let need: usize = order.value(header) as usize;
        let have: usize = received.len() - 4;
        if have < need {
            ReadStep::Fill(need - have)
        } else {
            ReadStep::Parse(slice_subrange(received, 4, 4 + need))
        }
    }
}

} // verus!
