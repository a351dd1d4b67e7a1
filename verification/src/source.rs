//! How responses are handed on, and when the socket behind them has to be replaced.
//!
//! A response is dealt with step by step. `GreetdSource::process_events` says whether it can be
//! handed on at once or the session has to be cancelled first. After the cancelling,
//! `GreetdSource::reconnected` gives the response to hand on. `Delivery::delivered` ends the turn
//! and says what to ask of the event loop. Where sending or connecting fails, the turn is given up
//! where it stands.

use crate::frame::write_msg;
use crate::greetd::{ConnectionState, Greetd};
use crate::request::{Request, RequestView};
use crate::response::{ErrorType, Response};
use vstd::prelude::*;

verus! {

/// What is asked of the event loop after a response.
#[derive(Debug, Clone, Copy, PartialEq, Eq, Structural)]
pub enum PostAction {
    /// Listen on as before.
    Continue,
    /// Register the source anew.
    Reregister,
    /// Remove the source.
    Remove,
}

/// What a response leads to.
#[derive(Debug)]
pub enum Reaction {
    /// Hand `response` to the callback, then go on with `delivery`.
    Deliver { response: Response, delivery: Delivery },
    /// Send `message`, connect a new socket in place of the old one, then go on with `cancelled`.
    Cancel { message: Vec<u8>, cancelled: Cancelled },
}

/// What is left to do once a response has been handed to the callback.
#[derive(Debug)]
pub struct Delivery {
    post: PostAction,
    frees_queue: bool,
}

/// What a `Delivery` holds: what is asked of the event loop, and whether the queue is freed only
/// now.
pub struct DeliveryView {
    pub post: PostAction,
    pub frees_queue: bool,
}

impl View for Delivery {
    type V = DeliveryView;

    closed spec fn view(&self) -> DeliveryView {
        DeliveryView { post: self.post, frees_queue: self.frees_queue }
    }
}

/// A response that is to be handed on once its session has been cancelled and the socket has been
/// replaced.
#[derive(Debug)]
pub struct Cancelled {
    response: Response,
}

impl View for Cancelled {
    type V = Response;

    closed spec fn view(&self) -> Response {
        self.response
    }
}

/// What the source has to do with its sockets to be registered anew.
#[derive(Debug)]
pub enum Registration<S> {
    /// Unregister the old socket, then register the current one.
    Replace { old_fd: S },
    /// Update the registration of the current socket.
    Update,
}

/// `response` says that authentication failed.
pub open spec fn is_auth_error(response: Response) -> bool {
    response matches Response::Error { error_type: ErrorType::AuthError, .. }
}

/// The state once `response` has arrived: a failed authentication ends the session.
pub open spec fn after_arrival(state: ConnectionState, response: Response) -> ConnectionState {
    if is_auth_error(response) {
        state.failed()
    } else {
        state
    }
}

/// What `response` leads to, with the given state. A failed authentication cancels the session
/// before it is handed on. A success while the session is being started is handed on as the
/// finish, and nothing more is listened for. Every other response is handed on as it is.
pub open spec fn reaction_to(
    state: ConnectionState,
    response: Response,
    reaction: Reaction,
) -> bool {
    match reaction {
        Reaction::Cancel { message, cancelled } => {
            &&& is_auth_error(response)
            &&& message@ == crate::frame::framed(state.order, RequestView::CancelSession.bytes())
            &&& cancelled@ == response
        },
        Reaction::Deliver { response: passed, delivery } => {
            let last = response is Success && state.finishing;
            &&& !is_auth_error(response)
            &&& passed == if last { Response::Finish } else { response }
            &&& delivery@.post == if last { PostAction::Remove } else { PostAction::Continue }
            &&& delivery@.frees_queue
        },
    }
}

impl Delivery {
    /// Ends the turn: the response has been handed to the callback.
    pub fn delivered(self, greetd: &mut Greetd) -> (post: PostAction)
        ensures
            post == self@.post,
            final(greetd)@ == if self@.frees_queue {
                old(greetd)@.answered()
            } else {
                old(greetd)@
            },
            final(greetd)@.request_in_queue == (old(greetd)@.request_in_queue
                && !self@.frees_queue),
            final(greetd)@.started_session == old(greetd)@.started_session,
            final(greetd)@.finishing == old(greetd)@.finishing,
            final(greetd)@.order == old(greetd)@.order,
    {
        if self.frees_queue {
            greetd.set_answered();
        }
        self.post
    }
}

/// The event source for the responses of one connection. `S` is the type of its sockets.
pub struct GreetdSource<S> {
    old_fd: Option<S>,
}

impl<S> View for GreetdSource<S> {
    type V = Option<S>;

    /// The socket that was replaced and is still registered, if there is one.
    closed spec fn view(&self) -> Option<S> {
        self.old_fd
    }
}

impl<S> GreetdSource<S> {
    /// A source whose socket has not been replaced.
    pub(crate) fn new() -> (source: GreetdSource<S>)
        ensures
            source@ == None::<S>,
    {
        GreetdSource { old_fd: None }
    }

    /// What the given response leads to. Until it has been dealt with, its request stays in the
    /// queue.
    pub fn process_events(&self, greetd: &mut Greetd, response: Response) -> (reaction: Reaction)
        ensures
            reaction_to(old(greetd)@, response, reaction),
            final(greetd)@ == after_arrival(old(greetd)@, response),
            match response {
                Response::Error { error_type: ErrorType::AuthError, .. } => {
                    &&& reaction matches Reaction::Cancel { message, cancelled }
                    &&& cancelled@ == response
                    &&& message@ == crate::frame::framed(
                        old(greetd)@.order,
                        vstd::utf8::encode_utf8("{\"type\":\"cancel_session\"}"@),
                    )
                    &&& !final(greetd)@.started_session
                    &&& final(greetd)@.request_in_queue == old(greetd)@.request_in_queue
                    &&& final(greetd)@.finishing == old(greetd)@.finishing
                    &&& final(greetd)@.order == old(greetd)@.order
                },
                Response::Success => {
                    &&& reaction matches Reaction::Deliver { response: passed, delivery }
                    &&& old(greetd)@.finishing ==> passed is Finish && delivery@.post is Remove
                    &&& !old(greetd)@.finishing ==> passed is Success && delivery@.post is Continue
                    &&& delivery@.frees_queue
                    &&& final(greetd)@ == old(greetd)@
                },
                _ => {
                    &&& reaction matches Reaction::Deliver { response: passed, delivery }
                    &&& passed == response
                    &&& delivery@.post is Continue
                    &&& delivery@.frees_queue
                    &&& final(greetd)@ == old(greetd)@
                },
            },
    {
        proof {
            crate::exact::law_cancel_text();
        }
        let mut post = PostAction::Continue;
        let mut passed = response;
        match passed {
            Response::Success => {
                if greetd.is_finishing() {
                    passed = Response::Finish;
                    post = PostAction::Remove;
                }
            },
            Response::Error { error_type: ErrorType::AuthError, .. } => {
                greetd.set_failed();
                return Reaction::Cancel {
                    message: write_msg(greetd.byte_order(), &Request::CancelSession),
                    cancelled: Cancelled { response: passed },
                };
            },
            _ => {},
        }
        Reaction::Deliver { response: passed, delivery: Delivery { post, frees_queue: true } }
    }

    /// A new socket has taken the place of `old_socket`, on which the session was cancelled. The
    /// queue is free from here on, so that the callback may already send the next request. Gives
    /// the response to hand to the callback and what to go on with then.
    pub fn reconnected(
        &mut self,
        greetd: &mut Greetd,
        cancelled: Cancelled,
        old_socket: S,
    ) -> (r: (Response, Delivery))
        ensures
            final(self)@ == Some(old_socket),
            final(greetd)@ == old(greetd)@.answered(),
            r.0 == cancelled@,
            r.1@ == (DeliveryView { post: PostAction::Reregister, frees_queue: false }),
            r.1@.post is Reregister,
            !final(greetd)@.request_in_queue,
            final(greetd)@.started_session == old(greetd)@.started_session,
            final(greetd)@.finishing == old(greetd)@.finishing,
            final(greetd)@.order == old(greetd)@.order,
    {
        self.old_fd = Some(old_socket);
        greetd.set_answered();
        (cancelled.response, Delivery { post: PostAction::Reregister, frees_queue: false })
    }

    /// What to do to be registered anew.
    pub fn reregister(&mut self) -> (r: Registration<S>)
        ensures
            final(self)@ == None::<S>,
            r == match old(self)@ {
                Some(old_fd) => Registration::Replace { old_fd },
                None => Registration::Update,
            },
    {
        if let Some(old_fd) = self.old_fd.take() {
            Registration::Replace { old_fd }
        } else {
            Registration::Update
        }
    }
}

} // verus!
