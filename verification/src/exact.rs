//! What the texts, messages and reactions are, written out character by character, byte by byte
//! and flag by flag.

use crate::frame::ByteOrder;
use crate::greetd::{Call, ConnectionState, GreetdError};
use crate::request::{Request, RequestView};
use crate::response::{AuthMessageType, ErrorType, ReadStep, ReadStepView, Response};
use crate::source::{PostAction, Reaction};
use vstd::prelude::*;
use writeable::LengthHint;

verus! {

/// The text of a request to create a session: the type, and the user's name as a JSON string.
pub proof fn law_create_text(username: &str)
    ensures
        (Request::CreateSession { username })@.text()
            == "{\"type\":\"create_session\",\"username\":\""@ + crate::json::escaped(username@)
            + "\"}"@,
{
    reveal_strlit("{\"type\":\"");
    reveal_strlit("create_session");
    reveal_strlit("\"");
    reveal_strlit(",\"username\":\"");
    reveal_strlit("}");
    reveal_strlit("\"}");
    reveal_strlit("{\"type\":\"create_session\",\"username\":\"");
    assert((Request::CreateSession { username })@.text()
        =~= "{\"type\":\"create_session\",\"username\":\""@ + crate::json::escaped(username@)
        + "\"}"@);
}

/// The text of an answer: the type, and the answer as a JSON string where there is one.
pub proof fn law_answer_text(response: Option<&str>)
    ensures
        (Request::PostAuthMessageResponse { response })@.text() == match response {
            Some(text) => "{\"type\":\"post_auth_message_response\",\"response\":\""@
                + crate::json::escaped(text@) + "\"}"@,
            None => "{\"type\":\"post_auth_message_response\"}"@,
        },
{
    reveal_strlit("{\"type\":\"");
    reveal_strlit("post_auth_message_response");
    reveal_strlit("\"");
    reveal_strlit(",\"response\":\"");
    reveal_strlit("}");
    reveal_strlit("\"}");
    reveal_strlit("{\"type\":\"post_auth_message_response\",\"response\":\"");
    reveal_strlit("{\"type\":\"post_auth_message_response\"}");
    let text = (Request::PostAuthMessageResponse { response })@.text();
    match response {
        Some(answer) => {
            assert(text =~= "{\"type\":\"post_auth_message_response\",\"response\":\""@
                + crate::json::escaped(answer@) + "\"}"@);
        },
        None => {
            assert(text =~= "{\"type\":\"post_auth_message_response\"}"@);
        },
    }
}

/// The text of a request to start a session: the type, and the command as a JSON list.
pub proof fn law_start_text(cmd: &[&str])
    ensures
        (Request::StartSession { cmd })@.text() == "{\"type\":\"start_session\",\"cmd\":["@
            + crate::request::quoted_list(Seq::new(cmd@.len(), |i: int| cmd@[i]@)) + "]}"@,
{
    reveal_strlit("{\"type\":\"");
    reveal_strlit("start_session");
    reveal_strlit("\"");
    reveal_strlit(",\"cmd\":[");
    reveal_strlit("]");
    reveal_strlit("}");
    reveal_strlit("]}");
    reveal_strlit("{\"type\":\"start_session\",\"cmd\":[");
    assert(crate::request::texts(cmd@) =~= Seq::new(cmd@.len(), |i: int| cmd@[i]@));
    assert((Request::StartSession { cmd })@.text() =~= "{\"type\":\"start_session\",\"cmd\":["@
        + crate::request::quoted_list(Seq::new(cmd@.len(), |i: int| cmd@[i]@)) + "]}"@);
}

/// The text of a request to cancel the session.
pub proof fn law_cancel_text()
    ensures
        RequestView::CancelSession.text() == "{\"type\":\"cancel_session\"}"@,
        Request::CancelSession@ == RequestView::CancelSession,
{
    reveal_strlit("{\"type\":\"");
    reveal_strlit("cancel_session");
    reveal_strlit("\"");
    reveal_strlit("}");
    reveal_strlit("{\"type\":\"cancel_session\"}");
    assert(RequestView::CancelSession.text() =~= "{\"type\":\"cancel_session\"}"@);
}

/// What a request says is made of its own strings, whole and in order.
pub proof fn law_request_view(username: &str, response: Option<&str>, cmd: &[&str])
    ensures
        (Request::CreateSession { username })@ == (RequestView::CreateSession {
            username: username@,
        }),
        (Request::PostAuthMessageResponse { response })@ matches
            RequestView::PostAuthMessageResponse { response: answer } && match response {
            Some(text) => answer == Some(text@),
            None => answer is None,
        },
        (Request::StartSession { cmd })@ matches RequestView::StartSession { cmd: words }
            && words.len() == cmd@.len() && forall|i: int|
            0 <= i < cmd@.len() ==> #[trigger] words[i] == cmd@[i]@,
{
}

/// The texts of strings are those of each of them, in order.
pub proof fn law_texts(items: Seq<&str>)
    ensures
        crate::request::texts(items).len() == items.len(),
        forall|i: int|
            0 <= i < items.len() ==> #[trigger] crate::request::texts(items)[i] == items[i]@,
{
}

/// Texts are put together one after the other.
pub proof fn law_concatenated(items: Seq<Seq<char>>, item: Seq<char>)
    ensures
        crate::request::concatenated(Seq::empty()) == Seq::<char>::empty(),
        crate::request::concatenated(items.push(item)) == crate::request::concatenated(items)
            + item,
{
    assert(items.push(item).drop_last() =~= items);
}

/// A list holds each of its strings, escaped and in quotes, with commas between them.
pub proof fn law_list_text(items: Seq<Seq<char>>, item: Seq<char>)
    ensures
        crate::request::quoted_list(Seq::empty()) == Seq::<char>::empty(),
        crate::request::quoted_list(seq![item]) == seq!['"'] + crate::json::escaped(item) + seq![
            '"',
        ],
        items.len() > 0 ==> crate::request::quoted_list(items.push(item))
            == crate::request::quoted_list(items) + seq![',', '"'] + crate::json::escaped(item)
            + seq!['"'],
{
    reveal_strlit("\"");
    reveal_strlit(",\"");
    assert(items.push(item).drop_last() =~= items);
    assert(crate::request::quoted_list(seq![item]) =~= seq!['"'] + crate::json::escaped(item)
        + seq!['"']);
    if items.len() > 0 {
        assert(crate::request::quoted_list(items.push(item)) =~= crate::request::quoted_list(items)
            + seq![',', '"'] + crate::json::escaped(item) + seq!['"']);
    }
}

/// What stands for each character in a JSON string.
pub proof fn law_escape(c: char)
    ensures
        c == '"' ==> crate::json::escape(c) == seq!['\\', '"'],
        c == '\\' ==> crate::json::escape(c) == seq!['\\', '\\'],
        c == '\u{8}' ==> crate::json::escape(c) == seq!['\\', 'b'],
        c == '\t' ==> crate::json::escape(c) == seq!['\\', 't'],
        c == '\n' ==> crate::json::escape(c) == seq!['\\', 'n'],
        c == '\u{c}' ==> crate::json::escape(c) == seq!['\\', 'f'],
        c == '\r' ==> crate::json::escape(c) == seq!['\\', 'r'],
        (c as u32) < 0x20 && c != '\u{8}' && c != '\t' && c != '\n' && c != '\u{c}' && c != '\r'
            ==> ({
            let e = crate::json::escape(c);
            let low = (c as u32) as int % 16;
            &&& e.len() == 6
            &&& e[0] == '\\' && e[1] == 'u' && e[2] == '0' && e[3] == '0'
            &&& e[4] == if (c as u32) < 0x10 { '0' } else { '1' }
            &&& (e[5] as u32) as int == if low < 10 { 0x30 + low } else { 0x57 + low }
        }),
        (c as u32) >= 0x20 && c != '"' && c != '\\' ==> crate::json::escape(c) == seq![c],
{
    reveal_strlit("\\b");
    reveal_strlit("\\t");
    reveal_strlit("\\n");
    reveal_strlit("\\f");
    reveal_strlit("\\r");
    reveal_strlit("\\u00");
    reveal_strlit("0123456789abcdef");
    assert(crate::json::escape('\u{8}') =~= seq!['\\', 'b']);
    assert(crate::json::escape('\t') =~= seq!['\\', 't']);
    assert(crate::json::escape('\n') =~= seq!['\\', 'n']);
    assert(crate::json::escape('\u{c}') =~= seq!['\\', 'f']);
    assert(crate::json::escape('\r') =~= seq!['\\', 'r']);
}

/// A string is escaped character by character.
pub proof fn law_escaped(s: Seq<char>, c: char)
    ensures
        crate::json::escaped(Seq::empty()) == Seq::<char>::empty(),
        crate::json::escaped(s.push(c)) == crate::json::escaped(s) + crate::json::escape(c),
{
    assert(s.push(c).drop_last() =~= s);
}

/// The payload of a request is its text in UTF-8.
pub proof fn law_payload(request: RequestView)
    ensures
        request.bytes() == vstd::utf8::encode_utf8(request.text()),
{
}

/// An exact length hint has the length as both bounds, where it fits.
pub proof fn law_exact_hint(hint: LengthHint, n: nat)
    requires
        crate::hint::hints_exactly(hint, n),
    ensures
        n <= usize::MAX ==> hint.0 == n && hint.1 == Some(hint.0),
        n > usize::MAX ==> hint.0 == usize::MAX && hint.1 is None,
{
}

/// The bytes of a number are its digits to the base 256: the first one counts least in
/// little-endian order and most in big-endian order.
pub proof fn law_bytes_of_number(n: u32)
    ensures
        ({
            let b = crate::frame::order_bytes(ByteOrder::Little, n);
            b.len() == 4 && b[0] + b[1] * 0x100 + b[2] * 0x1_0000 + b[3] * 0x100_0000 == n
        }),
        ({
            let b = crate::frame::order_bytes(ByteOrder::Big, n);
            b.len() == 4 && b[3] + b[2] * 0x100 + b[1] * 0x1_0000 + b[0] * 0x100_0000 == n
        }),
{
    crate::frame::lemma_weights(n);
}

/// The number that bytes stand for is the sum of them, each with the weight of its place.
pub proof fn law_number_of_bytes(b: Seq<u8>)
    ensures
        crate::frame::order_value(ByteOrder::Little, b) == b[0] + b[1] * 0x100 + b[2] * 0x1_0000
            + b[3] * 0x100_0000,
        crate::frame::order_value(ByteOrder::Big, b) == b[3] + b[2] * 0x100 + b[1] * 0x1_0000
            + b[0] * 0x100_0000,
{
}

/// A message is the length of its payload in four bytes, then the payload and nothing else.
pub proof fn law_message_layout(payload: Seq<u8>)
    ensures
        ({
            let m = crate::frame::framed(ByteOrder::Little, payload);
            &&& m.len() == 4 + payload.len()
            &&& m.skip(4) == payload
            &&& m[0] + m[1] * 0x100 + m[2] * 0x1_0000 + m[3] * 0x100_0000 == payload.len()
                % 0x1_0000_0000
        }),
        ({
            let m = crate::frame::framed(ByteOrder::Big, payload);
            &&& m.len() == 4 + payload.len()
            &&& m.skip(4) == payload
            &&& m[3] + m[2] * 0x100 + m[1] * 0x1_0000 + m[0] * 0x100_0000 == payload.len()
                % 0x1_0000_0000
        }),
{
    let n = (payload.len() % 0x1_0000_0000) as u32;
    law_bytes_of_number(n);
    assert(crate::frame::framed(ByteOrder::Little, payload).skip(4) =~= payload);
    assert(crate::frame::framed(ByteOrder::Big, payload).skip(4) =~= payload);
}

/// What is read next: the rest of the four bytes of the length, then the rest of as many bytes as
/// they say, and those are the payload.
pub proof fn law_read_step(order: ByteOrder, received: Seq<u8>)
    ensures
        received.len() < 4 ==> crate::response::step(order, received) == ReadStepView::Fill(
            (4 - received.len()) as nat,
        ),
        received.len() >= 4 ==> ({
            let b = received;
            let len = if order is Little {
                b[0] + b[1] * 0x100 + b[2] * 0x1_0000 + b[3] * 0x100_0000
            } else {
                b[3] + b[2] * 0x100 + b[1] * 0x1_0000 + b[0] * 0x100_0000
            };
            match crate::response::step(order, received) {
                ReadStepView::Fill(n) => n > 0 && received.len() + n == 4 + len,
                ReadStepView::Parse(payload) => received.len() >= 4 + len && payload
                    == received.subrange(4, 4 + len),
            }
        }),
{
    law_number_of_bytes(received);
}

/// What a step says is its own number or its own bytes.
pub proof fn law_read_step_view(n: usize, payload: &[u8])
    ensures
        ReadStep::Fill(n)@ == ReadStepView::Fill(n as nat),
        ReadStep::Parse(payload)@ == ReadStepView::Parse(payload@),
{
}

/// Which calls are refused, and with which error.
pub proof fn law_refusals(state: ConnectionState)
    ensures
        state.started_session ==> state.refusal(Call::CreateSession) == Some(
            GreetdError::MultipleSessions,
        ),
        state.finishing ==> state.refusal(Call::StartSession) == Some(GreetdError::AlreadyStarted),
        state.request_in_queue ==> {
            &&& !state.started_session ==> state.refusal(Call::CreateSession) == Some(
                GreetdError::RequestInQueue,
            )
            &&& !state.finishing ==> state.refusal(Call::StartSession) == Some(
                GreetdError::RequestInQueue,
            )
            &&& state.refusal(Call::AuthenticationResponse) == Some(GreetdError::RequestInQueue)
        },
        !state.request_in_queue ==> {
            &&& !state.started_session ==> state.refusal(Call::CreateSession) is None
            &&& !state.finishing ==> state.refusal(Call::StartSession) is None
            &&& state.refusal(Call::AuthenticationResponse) is None
        },
{
}

/// What each call changes: it marks what it asks for, and fills the queue unless that mark was
/// there before.
pub proof fn law_marks(state: ConnectionState)
    ensures
        ({
            let after = state.after(Call::CreateSession);
            &&& after.started_session
            &&& after.request_in_queue == (state.request_in_queue || !state.started_session)
            &&& after.finishing == state.finishing
            &&& after.order == state.order
        }),
        ({
            let after = state.after(Call::AuthenticationResponse);
            &&& after.request_in_queue
            &&& after.started_session == state.started_session
            &&& after.finishing == state.finishing
            &&& after.order == state.order
        }),
        ({
            let after = state.after(Call::StartSession);
            &&& after.finishing
            &&& after.request_in_queue == (state.request_in_queue || !state.finishing)
            &&& after.started_session == state.started_session
            &&& after.order == state.order
        }),
{
}

/// An answer empties the queue, a failure ends the session, and neither changes anything else.
/// A session is abandoned where it was asked for and its start was not.
pub proof fn law_answers_and_failures(state: ConnectionState, order: ByteOrder)
    ensures
        !state.answered().request_in_queue,
        state.answered().started_session == state.started_session,
        state.answered().finishing == state.finishing,
        state.answered().order == state.order,
        !state.failed().started_session,
        state.failed().request_in_queue == state.request_in_queue,
        state.failed().finishing == state.finishing,
        state.failed().order == state.order,
        state.abandons_session() <==> state.started_session && !state.finishing,
        !ConnectionState::fresh(order).started_session,
        !ConnectionState::fresh(order).request_in_queue,
        !ConnectionState::fresh(order).finishing,
        ConnectionState::fresh(order).order == order,
{
}

/// A call that is let through sends the request that it was given, whole: after the four bytes of
/// the length stands the text of that very request.
pub proof fn law_call_sends_its_request(
    state: ConnectionState,
    call: Call,
    request: RequestView,
    r: Result<Vec<u8>, GreetdError>,
)
    requires
        crate::greetd::call_returns(state, call, request, r),
    ensures
        r is Ok <==> !state.request_in_queue && !(call is CreateSession && state.started_session)
            && !(call is StartSession && state.finishing),
        r matches Ok(message) ==> {
            &&& message@.skip(4) == vstd::utf8::encode_utf8(request.text())
            &&& vstd::utf8::decode_utf8(message@.skip(4)) == request.text()
            &&& state.order is Little ==> message@[0] + message@[1] * 0x100 + message@[2] * 0x1_0000
                + message@[3] * 0x100_0000 == (message@.len() - 4) % 0x1_0000_0000
            &&& state.order is Big ==> message@[3] + message@[2] * 0x100 + message@[1] * 0x1_0000
                + message@[0] * 0x100_0000 == (message@.len() - 4) % 0x1_0000_0000
        },
        r matches Err(error) ==> {
            &&& error is MultipleSessions <==> call is CreateSession && state.started_session
            &&& error is AlreadyStarted <==> call is StartSession && state.finishing
        },
{
    law_message_layout(request.bytes());
    vstd::utf8::encode_utf8_decode_utf8(request.text());
}

/// From a message that was sent for a request, no other request can be read.
pub proof fn law_message_tells_its_request(
    state: ConnectionState,
    call: Call,
    request: RequestView,
    other: RequestView,
    r: Result<Vec<u8>, GreetdError>,
)
    requires
        crate::greetd::call_returns(state, call, request, r),
        r matches Ok(message) && vstd::utf8::decode_utf8(message@.skip(4)) == other.text(),
    ensures
        other == request,
{
    law_call_sends_its_request(state, call, request, r);
    crate::laws::law_text_determines_request(other, request);
}

/// The text of each error.
pub proof fn law_error_texts()
    ensures
        GreetdError::MultipleSessions.text() == "Cannot start multiple sessions"@,
        GreetdError::RequestInQueue.text() == "greetd cannot process multiple events at once"@,
        GreetdError::AlreadyStarted.text() == "Already started a session"@,
{
}

/// A response that is handed on ends the listening exactly where it is a success while the session
/// is being started, and listening goes on as before for every other one.
pub proof fn law_when_listening_ends(
    state: ConnectionState,
    response: Response,
    reaction: Reaction,
)
    requires
        crate::source::reaction_to(state, response, reaction),
    ensures
        reaction matches Reaction::Deliver { response: passed, delivery } ==> {
            &&& delivery@.post == PostAction::Remove <==> response is Success && state.finishing
            &&& delivery@.post == PostAction::Continue <==> !(response is Success
                && state.finishing)
            &&& delivery@.frees_queue
            &&& passed == if response is Success && state.finishing {
                Response::Finish
            } else {
                response
            }
        },
{
}

/// A question of greetd is handed on as it is, whatever its kind and text, and listening goes on.
pub proof fn law_questions_are_handed_on(
    state: ConnectionState,
    auth_message_type: AuthMessageType,
    auth_message: String,
    reaction: Reaction,
)
    requires
        crate::source::reaction_to(
            state,
            (Response::AuthMessage { auth_message_type, auth_message }),
            reaction,
        ),
    ensures
        reaction matches Reaction::Deliver { response, delivery } && response == (
        Response::AuthMessage { auth_message_type, auth_message }) && delivery@.post
            == PostAction::Continue && delivery@.frees_queue,
        crate::source::after_arrival(
            state,
            (Response::AuthMessage { auth_message_type, auth_message }),
        ) == state,
{
}

/// An error cancels the session exactly where its type says that authentication failed, whatever
/// its description says, and only then is the session over.
pub proof fn law_only_auth_errors_cancel(
    state: ConnectionState,
    error_type: ErrorType,
    description: String,
    reaction: Reaction,
)
    requires
        crate::source::reaction_to(
            state,
            (Response::Error { error_type, description }),
            reaction,
        ),
    ensures
        reaction is Cancel <==> error_type == ErrorType::AuthError,
        reaction matches Reaction::Cancel { message, cancelled } ==> cancelled@ == (
        Response::Error { error_type, description }) && message@.skip(4)
            == vstd::utf8::encode_utf8("{\"type\":\"cancel_session\"}"@) && message@
            == crate::frame::framed(
            state.order,
            vstd::utf8::encode_utf8("{\"type\":\"cancel_session\"}"@),
        ),
        reaction matches Reaction::Deliver { response, delivery } ==> response == (
        Response::Error { error_type, description }) && delivery@.post == PostAction::Continue
            && delivery@.frees_queue,
        ({
            let after = crate::source::after_arrival(
                state,
                (Response::Error { error_type, description }),
            );
            &&& after.started_session == (state.started_session && error_type
                != ErrorType::AuthError)
            &&& after.request_in_queue == state.request_in_queue
            &&& after.finishing == state.finishing
            &&& after.order == state.order
        }),
{
    law_cancel_text();
    law_message_layout(RequestView::CancelSession.bytes());
}

/// Nothing but an error cancels a session or changes what is known of the connection on arrival.
pub proof fn law_other_responses_never_cancel(
    state: ConnectionState,
    response: Response,
    reaction: Reaction,
)
    requires
        response is Success || response is Finish || response is AuthMessage,
        crate::source::reaction_to(state, response, reaction),
    ensures
        reaction is Deliver,
        crate::source::after_arrival(state, response) == state,
{
}

} // verus!
