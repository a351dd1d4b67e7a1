//! The greeter's side of a greetd connection: which requests may be sent, and when.

use crate::frame::{write_msg, ByteOrder};
use crate::request::{Request, RequestView};
use crate::source::GreetdSource;
use vstd::prelude::*;

verus! {

/// Why a request was not sent. Each of these is a "would block" condition.
#[derive(Debug, Clone, Copy, PartialEq, Eq, Structural)]
pub enum GreetdError {
    /// A session was created before, and it has not failed since.
    MultipleSessions,
    /// The last request has not been answered yet.
    RequestInQueue,
    /// A session was started before.
    AlreadyStarted,
}

impl GreetdError {
    /// The text of the error.
    pub open spec fn text(self) -> Seq<char> {
        match self {
            GreetdError::MultipleSessions => "Cannot start multiple sessions"@,
            GreetdError::RequestInQueue => "greetd cannot process multiple events at once"@,
            GreetdError::AlreadyStarted => "Already started a session"@,
        }
    }

    /// The text of the error.
    pub fn message(&self) -> (text: &'static str)
        ensures
            text@ == self.text(),
            *self is MultipleSessions ==> text@ == "Cannot start multiple sessions"@,
            *self is RequestInQueue ==> text@ == "greetd cannot process multiple events at once"@,
            *self is AlreadyStarted ==> text@ == "Already started a session"@,
    {
        match *self {
            GreetdError::MultipleSessions => "Cannot start multiple sessions",
            GreetdError::RequestInQueue => "greetd cannot process multiple events at once",
            GreetdError::AlreadyStarted => "Already started a session",
        }
    }
}

/// What is known of a connection: whether a session has been created, whether a request waits for
/// its response, whether the session is being started, and the byte order of its messages.
pub struct ConnectionState {
    pub started_session: bool,
    pub request_in_queue: bool,
    pub finishing: bool,
    pub order: ByteOrder,
}

/// The three calls that send a request.
pub enum Call {
    CreateSession,
    AuthenticationResponse,
    StartSession,
}

impl ConnectionState {
    /// The state of a connection on which nothing has been sent yet.
    pub open spec fn fresh(order: ByteOrder) -> ConnectionState {
        ConnectionState { started_session: false, request_in_queue: false, finishing: false, order }
    }

    /// The error that a call is refused with, if it is refused.
    pub open spec fn refusal(self, call: Call) -> Option<GreetdError> {
        if call is CreateSession && self.started_session {
            Some(GreetdError::MultipleSessions)
        } else if call is StartSession && self.finishing {
            Some(GreetdError::AlreadyStarted)
        } else if self.request_in_queue {
            Some(GreetdError::RequestInQueue)
        } else {
            None
        }
    }

    /// The state after a call, be it refused or not. A call that is refused because of the queue
    /// leaves its own mark all the same.
    pub open spec fn after(self, call: Call) -> ConnectionState {
        match call {
            Call::CreateSession => ConnectionState {
                started_session: true,
                request_in_queue: self.request_in_queue || !self.started_session,
                ..self
            },
            Call::AuthenticationResponse => ConnectionState { request_in_queue: true, ..self },
            Call::StartSession => ConnectionState {
                finishing: true,
                request_in_queue: self.request_in_queue || !self.finishing,
                ..self
            },
        }
    }

    /// The state once the queued request has been answered.
    pub open spec fn answered(self) -> ConnectionState {
        ConnectionState { request_in_queue: false, ..self }
    }

    /// The state once the session has failed.
    pub open spec fn failed(self) -> ConnectionState {
        ConnectionState { started_session: false, ..self }
    }

    /// Whether a session is left behind, to be cancelled, when the connection is given up.
    pub open spec fn abandons_session(self) -> bool {
        self.started_session && !self.finishing
    }
}

/// What a call returns: its error where it is refused, else the message for `request`, to be
/// sent to greetd.
pub open spec fn call_returns(
    state: ConnectionState,
    call: Call,
    request: RequestView,
    r: Result<Vec<u8>, GreetdError>,
) -> bool {
    match state.refusal(call) {
        Some(error) => r == Err::<Vec<u8>, GreetdError>(error),
        None => r matches Ok(message) && message@ == crate::frame::framed(
            state.order,
            request.bytes(),
        ),
    }
}

/// A connection to greetd, as far as it decides what may be sent. The bytes that its calls return
/// are to be sent to greetd before anything else is done with it.
pub struct Greetd {
    started_session: bool,
    request_in_queue: bool,
    finishing: bool,
    order: ByteOrder,
}

impl View for Greetd {
    type V = ConnectionState;

    closed spec fn view(&self) -> ConnectionState {
        ConnectionState {
            started_session: self.started_session,
            request_in_queue: self.request_in_queue,
            finishing: self.finishing,
            order: self.order,
        }
    }
}

impl Greetd {
    /// A connection on which nothing has been sent yet. Its messages are in the byte order of the
    /// machine.
    pub fn new() -> (greetd: Greetd)
        ensures
            greetd@ == ConnectionState::fresh(greetd@.order),
            !greetd@.started_session && !greetd@.request_in_queue && !greetd@.finishing,
            crate::frame::is_native(greetd@.order),
    {
        Greetd::with_order(ByteOrder::native())
    }

    /// A connection on which nothing has been sent yet, with messages in the given byte order.
    pub fn with_order(order: ByteOrder) -> (greetd: Greetd)
        ensures
            greetd@ == ConnectionState::fresh(order),
            !greetd@.started_session && !greetd@.request_in_queue && !greetd@.finishing,
            greetd@.order == order,
    {
        Greetd { request_in_queue: false, finishing: false, started_session: false, order }
    }

    /// The byte order of the messages.
    pub fn byte_order(&self) -> (order: ByteOrder)
        ensures
            order == self@.order,
    {
        self.order
    }

    /// The message that initiates a login attempt for the given user.
    pub fn create_session(&mut self, username: &str) -> (r: Result<Vec<u8>, GreetdError>)
        ensures
            final(self)@ == old(self)@.after(Call::CreateSession),
            call_returns(
                old(self)@,
                Call::CreateSession,
                (RequestView::CreateSession { username: username@ }),
                r,
            ),
            old(self)@.started_session ==> r == Err::<Vec<u8>, GreetdError>(
                GreetdError::MultipleSessions,
            ) && final(self)@ == old(self)@,
            !old(self)@.started_session && old(self)@.request_in_queue ==> r == Err::<
                Vec<u8>,
                GreetdError,
            >(GreetdError::RequestInQueue),
            !old(self)@.started_session && !old(self)@.request_in_queue ==> (r matches Ok(message)
                && message@ == crate::frame::framed(
                old(self)@.order,
                (RequestView::CreateSession { username: username@ }).bytes(),
            )),
            final(self)@.started_session,
            !old(self)@.started_session ==> final(self)@.request_in_queue,
            final(self)@.finishing == old(self)@.finishing,
            final(self)@.order == old(self)@.order,
    {
        if self.started_session {
            return Err(GreetdError::MultipleSessions);
        }
        self.started_session = true;
        if self.request_in_queue {
            Err(GreetdError::RequestInQueue)
        } else {
            self.request_in_queue = true;
            Ok(write_msg(self.order, &Request::CreateSession { username }))
        }
    }

    /// The message that answers the last auth message.
    pub fn authentication_response(&mut self, response: Option<&str>) -> (r: Result<
        Vec<u8>,
        GreetdError,
    >)
        ensures
            final(self)@ == old(self)@.after(Call::AuthenticationResponse),
            call_returns(
                old(self)@,
                Call::AuthenticationResponse,
                (RequestView::PostAuthMessageResponse {
                    response: match response {
                        Some(text) => Some(text@),
                        None => None,
                    },
                }),
                r,
            ),
            old(self)@.request_in_queue ==> r == Err::<Vec<u8>, GreetdError>(
                GreetdError::RequestInQueue,
            ),
            !old(self)@.request_in_queue ==> (r matches Ok(message) && message@
                == crate::frame::framed(
                old(self)@.order,
                (RequestView::PostAuthMessageResponse {
                    response: match response {
                        Some(text) => Some(text@),
                        None => None,
                    },
                }).bytes(),
            )),
            final(self)@.request_in_queue,
            final(self)@.started_session == old(self)@.started_session,
            final(self)@.finishing == old(self)@.finishing,
            final(self)@.order == old(self)@.order,
    {
        if self.request_in_queue {
            Err(GreetdError::RequestInQueue)
        } else {
            self.request_in_queue = true;
            Ok(write_msg(self.order, &Request::PostAuthMessageResponse { response }))
        }
    }

    /// The message that starts the session with the given command.
    pub fn start_session(&mut self, cmd: &[&str]) -> (r: Result<Vec<u8>, GreetdError>)
        ensures
            final(self)@ == old(self)@.after(Call::StartSession),
            call_returns(
                old(self)@,
                Call::StartSession,
                (RequestView::StartSession { cmd: crate::request::texts(cmd@) }),
                r,
            ),
            old(self)@.finishing ==> r == Err::<Vec<u8>, GreetdError>(GreetdError::AlreadyStarted)
                && final(self)@ == old(self)@,
            !old(self)@.finishing && old(self)@.request_in_queue ==> r == Err::<
                Vec<u8>,
                GreetdError,
            >(GreetdError::RequestInQueue),
            !old(self)@.finishing && !old(self)@.request_in_queue ==> (r matches Ok(message)
                && message@ == crate::frame::framed(
                old(self)@.order,
                (RequestView::StartSession {
                    cmd: Seq::new(cmd@.len(), |i: int| cmd@[i]@),
                }).bytes(),
            )),
            final(self)@.finishing,
            !old(self)@.finishing ==> final(self)@.request_in_queue,
            final(self)@.started_session == old(self)@.started_session,
            final(self)@.order == old(self)@.order,
    {
        if self.finishing {
            return Err(GreetdError::AlreadyStarted);
        }
        self.finishing = true;
        if self.request_in_queue {
            Err(GreetdError::RequestInQueue)
        } else {
            self.request_in_queue = true;
            Ok(write_msg(self.order, &Request::StartSession { cmd }))
        }
    }

    /// The message to send when the connection is given up: a session that was created and not
    /// started is cancelled.
    pub fn closing_message(&self) -> (r: Option<Vec<u8>>)
        ensures
            match r {
                Some(message) => self@.abandons_session() && message@ == crate::frame::framed(
                    self@.order,
                    RequestView::CancelSession.bytes(),
                ),
                None => !self@.abandons_session(),
            },
            r is Some <==> self@.started_session && !self@.finishing,
            r matches Some(message) ==> message@ == crate::frame::framed(
                self@.order,
                vstd::utf8::encode_utf8("{\"type\":\"cancel_session\"}"@),
            ),
    {
        proof {
            crate::exact::law_cancel_text();
        }
        if self.started_session && !self.finishing {
            Some(write_msg(self.order, &Request::CancelSession))
        } else {
            None
        }
    }

    /// Whether the session is being started, so that the next success is the last response.
    pub(crate) fn is_finishing(&self) -> (r: bool)
        ensures
            r == self@.finishing,
    {
        self.finishing
    }

    /// Notes that the queued request has been answered.
    pub(crate) fn set_answered(&mut self)
        ensures
            final(self)@ == old(self)@.answered(),
    {
        self.request_in_queue = false;
    }

    /// Notes that the session has failed.
    pub(crate) fn set_failed(&mut self)
        ensures
            final(self)@ == old(self)@.failed(),
    {
        self.started_session = false;
    }

    /// An event source for the responses on this connection.
    pub fn event_source<S>(&self) -> (source: GreetdSource<S>)
        ensures
            source@ == None::<S>,
    {
        GreetdSource::new()
    }
}

} // verus!
