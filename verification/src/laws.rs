//! What holds across the calls of the library.

use crate::frame::ByteOrder;
use crate::greetd::{Call, ConnectionState, GreetdError};
use crate::request::RequestView;
use crate::response::{ReadStepView, Response};
use crate::source::Reaction;
use vstd::prelude::*;

verus! {

/// A number is read back from its bytes, in either byte order.
pub proof fn law_length_read_back(order: ByteOrder, n: u32)
    ensures
        crate::frame::order_bytes(order, n).len() == 4,
        crate::frame::order_value(order, crate::frame::order_bytes(order, n)) == n,
{
    crate::frame::lemma_weights(n);
}

/// Four bytes are the bytes of the number that is read from them, in either byte order.
pub proof fn law_length_bytes_unique(order: ByteOrder, b: Seq<u8>)
    requires
        b.len() == 4,
    ensures
        crate::frame::order_value(order, b) <= u32::MAX,
        crate::frame::order_bytes(order, crate::frame::order_value(order, b) as u32) == b,
{
    let little = if order is Little { b } else { seq![b[3], b[2], b[1], b[0]] };
    let (b0, b1, b2, b3) = (little[0] as u32, little[1] as u32, little[2] as u32, little[3] as u32);
    let n = (b0 + b1 * 0x100 + b2 * 0x1_0000 + b3 * 0x100_0000) as u32;
    assert(n % 0x100 == b0 && n / 0x100 % 0x100 == b1 && n / 0x1_0000 % 0x100 == b2 && n
        / 0x100_0000 == b3) by (bit_vector)
        requires
            b0 < 0x100,
            b1 < 0x100,
            b2 < 0x100,
            b3 < 0x100,
            n == (b0 + b1 * 0x100 + b2 * 0x1_0000 + b3 * 0x100_0000) as u32,
    ;
    assert(crate::frame::order_value(order, b) == n);
    assert(crate::frame::order_bytes(order, n) =~= b);
}

/// A payload is read back from behind any header that announces its length, whatever follows it on
/// the stream.
pub proof fn law_announced_payload_read_back(header: Seq<u8>, payload: Seq<u8>, rest: Seq<u8>)
    requires
        header.len() == 4,
    ensures
        crate::response::step_with_len(header + payload + rest, payload.len())
            == ReadStepView::Parse(payload),
{
    let stream = header + payload + rest;
    assert(stream.subrange(4, 4 + payload.len() as int) =~= payload);
}

/// A payload is read back from its message, whatever follows the message on the stream.
pub proof fn law_payload_read_back(order: ByteOrder, payload: Seq<u8>, rest: Seq<u8>)
    requires
        payload.len() <= u32::MAX,
    ensures
        crate::response::step(order, crate::frame::framed(order, payload) + rest)
            == ReadStepView::Parse(payload),
{
    lemma_first_message(order, payload, rest);
}

/// While a message has not been read to its end, reading goes on, and never past that end: first
/// up to the end of the length, then up to the end of the payload.
pub proof fn law_read_stops_at_end(order: ByteOrder, payload: Seq<u8>, k: nat)
    requires
        payload.len() <= u32::MAX,
        k < 4 + payload.len(),
    ensures
        crate::frame::framed(order, payload).len() == 4 + payload.len(),
        crate::response::step(order, crate::frame::framed(order, payload).take(k as int))
            == ReadStepView::Fill(
            if k < 4 {
                (4 - k) as nat
            } else {
                (4 + payload.len() - k) as nat
            },
        ),
{
    let header = crate::frame::order_bytes(order, payload.len() as u32);
    let message = crate::frame::framed(order, payload);
    law_length_read_back(order, payload.len() as u32);
    if k >= 4 {
        assert(forall|i: int| 0 <= i < 4 ==> message.take(k as int)[i] == header[i]);
    }
}

/// What reading one message off `stream` gives, when `k` bytes have been read: how many bytes have
/// been read in the end, and the payload. Nothing, where the stream ends too early.
pub open spec fn read_one(order: ByteOrder, stream: Seq<u8>, k: nat) -> Option<(nat, Seq<u8>)>
    decreases stream.len() - k,
{
    match crate::response::step(order, stream.take(k as int)) {
        ReadStepView::Fill(n) => if 0 < n && k + n <= stream.len() {
            read_one(order, stream, k + n)
        } else {
            None
        },
        ReadStepView::Parse(payload) => Some((k, payload)),
    }
}

/// Off any stream, the four bytes of the length are read and then as many bytes as they announce,
/// which are the payload, and no more. Where the stream does not hold that many, nothing is read.
pub proof fn law_one_message_is_read(order: ByteOrder, stream: Seq<u8>)
    ensures
        ({
            let len = crate::frame::order_value(order, stream);
            if 4 <= stream.len() && 4 + len <= stream.len() {
                read_one(order, stream, 0) == Some((4 + len, stream.subrange(4, 4 + len as int)))
            } else {
                read_one(order, stream, 0) is None
            }
        }),
{
    let len = crate::frame::order_value(order, stream);
    reveal_with_fuel(read_one, 3);
    if 4 <= stream.len() {
        assert(forall|i: int| 0 <= i < 4 ==> stream.take(4)[i] == stream[i]);
        if 4 + len <= stream.len() {
            let message = stream.take(4 + len as int);
            assert(forall|i: int| 0 <= i < 4 ==> message[i] == stream[i]);
            assert(message.subrange(4, 4 + len as int) =~= stream.subrange(4, 4 + len as int));
        }
    }
}

/// The messages with the given payloads, one after the other.
pub open spec fn row(order: ByteOrder, payloads: Seq<Seq<u8>>) -> Seq<u8>
    decreases payloads.len(),
{
    if payloads.len() == 0 {
        Seq::empty()
    } else {
        crate::frame::framed(order, payloads[0]) + row(order, payloads.drop_first())
    }
}

/// What reading `count` messages off `stream` gives, each from where the last one ended.
pub open spec fn read_row(order: ByteOrder, stream: Seq<u8>, count: nat) -> Option<Seq<Seq<u8>>>
    decreases count,
{
    if count == 0 {
        Some(Seq::empty())
    } else {
        match read_one(order, stream, 0) {
            Some((k, payload)) => match read_row(
                order,
                stream.skip(k as int),
                (count - 1) as nat,
            ) {
                Some(rest) => Some(seq![payload] + rest),
                None => None,
            },
            None => None,
        }
    }
}

/// A message at the start of a stream: the length, the payload and what follows.
proof fn lemma_first_message(order: ByteOrder, payload: Seq<u8>, rest: Seq<u8>)
    requires
        payload.len() <= u32::MAX,
    ensures
        ({
            let stream = crate::frame::framed(order, payload) + rest;
            &&& crate::frame::order_value(order, stream) == payload.len()
            &&& stream.len() == 4 + payload.len() + rest.len()
            &&& stream.subrange(4, 4 + payload.len() as int) == payload
            &&& stream.skip(4 + payload.len() as int) == rest
        }),
{
    let header = crate::frame::order_bytes(order, payload.len() as u32);
    let stream = crate::frame::framed(order, payload) + rest;
    law_length_read_back(order, payload.len() as u32);
    assert(stream[0] == header[0] && stream[1] == header[1] && stream[2] == header[2] && stream[3]
        == header[3]);
    assert(stream.subrange(4, 4 + payload.len() as int) =~= payload);
    assert(stream.skip(4 + payload.len() as int) =~= rest);
}

/// Messages that stand one after the other are read back one by one and in order, whatever their
/// payloads hold.
pub proof fn law_row_read_back(order: ByteOrder, payloads: Seq<Seq<u8>>)
    requires
        forall|i: int| 0 <= i < payloads.len() ==> (#[trigger] payloads[i]).len() <= u32::MAX,
    ensures
        read_row(order, row(order, payloads), payloads.len()) == Some(payloads),
    decreases payloads.len(),
{
    if payloads.len() == 0 {
        assert(payloads =~= Seq::empty());
    } else {
        let first = payloads[0];
        let others = payloads.drop_first();
        assert(forall|i: int|
            0 <= i < others.len() ==> #[trigger] others[i] == payloads[i + 1]);
        law_row_read_back(order, others);
        lemma_first_message(order, first, row(order, others));
        law_one_message_is_read(order, row(order, payloads));
        assert(seq![first] + others =~= payloads);
    }
}

/// The text of a request is read back from its message, in the byte order that it was written in
/// and whatever follows it on the stream.
pub proof fn law_request_read_back(order: ByteOrder, request: RequestView, rest: Seq<u8>)
    requires
        request.bytes().len() <= u32::MAX,
    ensures
        crate::response::step(order, crate::frame::framed(order, request.bytes()) + rest)
            == ReadStepView::Parse(request.bytes()),
        vstd::utf8::decode_utf8(request.bytes()) == request.text(),
{
    vstd::utf8::encode_utf8_decode_utf8(request.text());
    law_payload_read_back(order, request.bytes(), rest);
}

/// The strings of a list after the first, each after a comma.
spec fn list_rest(items: Seq<Seq<char>>) -> Seq<char>
    decreases items.len(),
{
    if items.len() == 0 {
        Seq::empty()
    } else {
        seq![',', '"'] + crate::json::escaped(items[0]) + seq!['"'] + list_rest(items.drop_first())
    }
}

proof fn lemma_list_rest_last(items: Seq<Seq<char>>)
    requires
        items.len() > 0,
    ensures
        list_rest(items) == list_rest(items.drop_last()) + seq![',', '"'] + crate::json::escaped(
            items.last(),
        ) + seq!['"'],
    decreases items.len(),
{
    if items.len() == 1 {
        assert(items.drop_first() =~= Seq::<Seq<char>>::empty());
        assert(items.drop_last() =~= Seq::<Seq<char>>::empty());
        assert(list_rest(Seq::<Seq<char>>::empty()) == Seq::<char>::empty());
    } else {
        lemma_list_rest_last(items.drop_first());
        assert(items.drop_first().drop_last() =~= items.drop_last().drop_first());
    }
    assert(list_rest(items) =~= list_rest(items.drop_last()) + seq![',', '"']
        + crate::json::escaped(items.last()) + seq!['"']);
}

proof fn lemma_list_first(items: Seq<Seq<char>>)
    requires
        items.len() > 0,
    ensures
        crate::request::quoted_list(items) == seq!['"'] + crate::json::escaped(items[0]) + seq!['"']
            + list_rest(items.drop_first()),
    decreases items.len(),
{
    reveal_strlit("\"");
    reveal_strlit(",\"");
    if items.len() == 1 {
        assert(items.drop_first() =~= Seq::<Seq<char>>::empty());
        assert(list_rest(Seq::<Seq<char>>::empty()) == Seq::<char>::empty());
    } else {
        lemma_list_first(items.drop_last());
        lemma_list_rest_last(items.drop_first());
        assert(items.drop_last().drop_first() =~= items.drop_first().drop_last());
    }
    assert(crate::request::quoted_list(items) =~= seq!['"'] + crate::json::escaped(items[0]) + seq![
        '"',
    ] + list_rest(items.drop_first()));
}

proof fn lemma_list_rest_unique(a: Seq<Seq<char>>, b: Seq<Seq<char>>)
    requires
        list_rest(a) == list_rest(b),
    ensures
        a == b,
    decreases a.len(),
{
    if a.len() > 0 && b.len() > 0 {
        let a_rest = list_rest(a.drop_first());
        let b_rest = list_rest(b.drop_first());
        let inner = list_rest(a).skip(2);
        assert(inner =~= crate::json::escaped(a[0]) + seq!['"'] + a_rest);
        assert(inner =~= crate::json::escaped(b[0]) + seq!['"'] + b_rest);
        crate::json::law_string_ends_at_its_quote(a[0], b[0], a_rest, b_rest);
        lemma_list_rest_unique(a.drop_first(), b.drop_first());
        assert(a =~= seq![a[0]] + a.drop_first());
        assert(b =~= seq![b[0]] + b.drop_first());
    } else {
        assert(a =~= b);
    }
}

/// Two lists of strings are the same where their texts are.
proof fn lemma_list_unique(a: Seq<Seq<char>>, b: Seq<Seq<char>>)
    requires
        crate::request::quoted_list(a) == crate::request::quoted_list(b),
    ensures
        a == b,
{
    if a.len() > 0 {
        lemma_list_first(a);
    }
    if b.len() > 0 {
        lemma_list_first(b);
    }
    if a.len() > 0 && b.len() > 0 {
        let a_rest = list_rest(a.drop_first());
        let b_rest = list_rest(b.drop_first());
        let inner = crate::request::quoted_list(a).skip(1);
        assert(inner =~= crate::json::escaped(a[0]) + seq!['"'] + a_rest);
        assert(inner =~= crate::json::escaped(b[0]) + seq!['"'] + b_rest);
        crate::json::law_string_ends_at_its_quote(a[0], b[0], a_rest, b_rest);
        lemma_list_rest_unique(a.drop_first(), b.drop_first());
        assert(a =~= seq![a[0]] + a.drop_first());
        assert(b =~= seq![b[0]] + b.drop_first());
    } else {
        assert(a =~= b);
    }
}

/// Requests with the same text are the same request.
pub proof fn law_text_determines_request(a: RequestView, b: RequestView)
    requires
        a.text() == b.text(),
    ensures
        a == b,
{
    reveal_strlit("{\"type\":\"");
    reveal_strlit("\"");
    reveal_strlit("}");
    reveal_strlit("]");
    reveal_strlit("start_session");
    reveal_strlit("create_session");
    reveal_strlit("post_auth_message_response");
    reveal_strlit("cancel_session");
    reveal_strlit(",\"cmd\":[");
    reveal_strlit(",\"username\":\"");
    reveal_strlit(",\"response\":\"");
    let text = a.text();
    assert(text[9] == a.tag()[0] && text[10] == a.tag()[1]);
    assert(text[9] == b.tag()[0] && text[10] == b.tag()[1]);
    assert(a.tag() == b.tag());
    let start = 10 + a.tag().len() as int;
    assert(text.subrange(start, text.len() - 1) =~= a.fields());
    assert(text.subrange(start, text.len() - 1) =~= b.fields());
    let fields = a.fields();
    match (a, b) {
        (
            RequestView::CreateSession { username: x },
            RequestView::CreateSession { username: y },
        ) => {
            assert(fields.skip(13) =~= crate::json::escaped(x) + seq!['"'] + Seq::empty());
            assert(fields.skip(13) =~= crate::json::escaped(y) + seq!['"'] + Seq::empty());
            crate::json::law_string_ends_at_its_quote(x, y, Seq::empty(), Seq::empty());
        },
        (
            RequestView::PostAuthMessageResponse { response: Some(x) },
            RequestView::PostAuthMessageResponse { response: Some(y) },
        ) => {
            assert(fields.skip(13) =~= crate::json::escaped(x) + seq!['"'] + Seq::empty());
            assert(fields.skip(13) =~= crate::json::escaped(y) + seq!['"'] + Seq::empty());
            crate::json::law_string_ends_at_its_quote(x, y, Seq::empty(), Seq::empty());
        },
        (RequestView::StartSession { cmd: x }, RequestView::StartSession { cmd: y }) => {
            let list = fields.subrange(8, fields.len() - 1);
            assert(crate::request::quoted_list(x) =~= list);
            assert(crate::request::quoted_list(y) =~= list);
            lemma_list_unique(x, y);
        },
        _ => {},
    }
}

/// How many pieces a sink takes that answers the writes one by one as given, until it first refuses.
pub open spec fn taken(answers: Seq<bool>) -> nat
    decreases answers.len(),
{
    if answers.len() == 0 || !answers[0] {
        0
    } else {
        1 + taken(answers.drop_first())
    }
}

/// The first pieces of a text are a prefix of it.
proof fn lemma_pieces_prefix(pieces: Seq<Seq<char>>, k: nat)
    requires
        k <= pieces.len(),
    ensures
        crate::request::concatenated(pieces.take(k as int)).is_prefix_of(
            crate::request::concatenated(pieces),
        ),
    decreases pieces.len(),
{
    let text = crate::request::concatenated(pieces);
    if k == pieces.len() {
        assert(pieces.take(k as int) =~= pieces);
        assert(text.subrange(0, text.len() as int) =~= text);
    } else {
        let before = crate::request::concatenated(pieces.drop_last());
        let first = crate::request::concatenated(pieces.take(k as int));
        lemma_pieces_prefix(pieces.drop_last(), k);
        assert(pieces.drop_last().take(k as int) =~= pieces.take(k as int));
        assert(text == before + pieces.last());
        assert(first =~= text.subrange(0, first.len() as int));
    }
}

proof fn lemma_taken(answers: Seq<bool>)
    ensures
        taken(answers) <= answers.len(),
        taken(answers) == answers.len() <==> (forall|i: int|
            0 <= i < answers.len() ==> #[trigger] answers[i]),
        taken(answers) < answers.len() ==> !answers[taken(answers) as int],
    decreases answers.len(),
{
    if answers.len() > 0 && answers[0] {
        let rest = answers.drop_first();
        lemma_taken(rest);
        assert(forall|i: int| 0 <= i < rest.len() ==> #[trigger] rest[i] == answers[i + 1]);
        if forall|i: int| 0 <= i < rest.len() ==> #[trigger] rest[i] {
            assert forall|i: int| 0 <= i < answers.len() implies #[trigger] answers[i] by {
                if i > 0 {
                    assert(rest[i - 1]);
                }
            }
        } else {
            let i = choose|i: int| 0 <= i < rest.len() && !#[trigger] rest[i];
            assert(!answers[i + 1]);
        }
    }
}

/// A request that is written piece by piece to any sink, up to the first write that the sink
/// refuses, leaves a prefix of its text there. It leaves all of it where no write is refused, and
/// only there is every piece taken.
pub proof fn law_any_sink_gets_a_prefix(
    request: RequestView,
    pieces: Seq<Seq<char>>,
    answers: Seq<bool>,
)
    requires
        crate::request::concatenated(pieces) == request.text(),
        answers.len() == pieces.len(),
    ensures
        ({
            let left = crate::request::concatenated(pieces.take(taken(answers) as int));
            let all_taken = forall|i: int| 0 <= i < answers.len() ==> #[trigger] answers[i];
            &&& left.is_prefix_of(request.text())
            &&& all_taken <==> taken(answers) == pieces.len()
            &&& all_taken ==> left == request.text()
            &&& !all_taken ==> !answers[taken(answers) as int]
        }),
{
    lemma_taken(answers);
    lemma_pieces_prefix(pieces, taken(answers));
    if taken(answers) == pieces.len() {
        assert(pieces.take(taken(answers) as int) =~= pieces);
    }
}

/// Something that happens to a connection.
pub enum Event {
    /// One of the calls is made.
    Called(Call),
    /// A response arrives.
    Arrived(Response),
    /// The response has been handed on, or the socket has been replaced because of it.
    Answered,
}

/// The state after an event.
pub open spec fn after_event(state: ConnectionState, event: Event) -> ConnectionState {
    match event {
        Event::Called(call) => state.after(call),
        Event::Arrived(response) => crate::source::after_arrival(state, response),
        Event::Answered => state.answered(),
    }
}

/// The state after a series of events.
pub open spec fn after_events(state: ConnectionState, events: Seq<Event>) -> ConnectionState
    decreases events.len(),
{
    if events.len() == 0 {
        state
    } else {
        after_event(after_events(state, events.drop_last()), events.last())
    }
}

/// The event is the arrival of a failed authentication.
pub open spec fn is_failure(event: Event) -> bool {
    event matches Event::Arrived(response) && crate::source::is_auth_error(response)
}

/// On a new connection, every call is let through.
pub proof fn law_new_connection_is_free(order: ByteOrder, call: Call)
    ensures
        ConnectionState::fresh(order).refusal(call) is None,
{
}

/// All messages of a connection are in one byte order.
pub proof fn law_one_byte_order(state: ConnectionState, events: Seq<Event>)
    ensures
        after_events(state, events).order == state.order,
    decreases events.len(),
{
    if events.len() > 0 {
        law_one_byte_order(state, events.drop_last());
    }
}

/// The same request makes the same message, whatever has happened on the connection in between.
pub proof fn law_same_request_same_message(
    state: ConnectionState,
    events: Seq<Event>,
    call: Call,
    request: RequestView,
    r: Result<Vec<u8>, GreetdError>,
    later: Result<Vec<u8>, GreetdError>,
)
    requires
        crate::greetd::call_returns(state, call, request, r),
        crate::greetd::call_returns(after_events(state, events), call, request, later),
    ensures
        r is Ok && later is Ok ==> r->Ok_0@ == later->Ok_0@,
{
    law_one_byte_order(state, events);
}

/// Once a request has been sent, no other is let through until it has been answered.
pub proof fn law_one_request_at_a_time(state: ConnectionState, first: Call, events: Seq<Event>, next: Call)
    requires
        state.refusal(first) is None,
        forall|i: int| 0 <= i < events.len() ==> !(#[trigger] events[i] is Answered),
    ensures
        after_events(state.after(first), events).request_in_queue,
        after_events(state.after(first), events).refusal(next) is Some,
    decreases events.len(),
{
    if events.len() > 0 {
        let before = events.drop_last();
        assert(forall|i: int| 0 <= i < before.len() ==> #[trigger] before[i] == events[i]);
        law_one_request_at_a_time(state, first, before, next);
        assert(!(events[events.len() - 1] is Answered));
    }
}

/// A session that is asked for or started a second time, or an answer that is refused, changes
/// nothing.
pub proof fn law_refusal_changes_nothing(state: ConnectionState, call: Call)
    requires
        state.refusal(call) is Some,
        state.refusal(call) == Some(GreetdError::RequestInQueue) ==> call
            is AuthenticationResponse,
    ensures
        state.after(call) == state,
{
}

/// Once an answer has been handed on, a question of greetd can be answered.
pub proof fn law_answer_frees_the_queue(state: ConnectionState)
    ensures
        state.answered().refusal(Call::AuthenticationResponse) is None,
{
}

/// Once a session has been asked for, no other is created until authentication has failed.
pub proof fn law_one_session(state: ConnectionState, events: Seq<Event>)
    requires
        forall|i: int| 0 <= i < events.len() ==> !is_failure(#[trigger] events[i]),
    ensures
        after_events(state.after(Call::CreateSession), events).refusal(Call::CreateSession) == Some(
            GreetdError::MultipleSessions,
        ),
    decreases events.len(),
{
    if events.len() > 0 {
        let before = events.drop_last();
        assert(forall|i: int| 0 <= i < before.len() ==> #[trigger] before[i] == events[i]);
        law_one_session(state, before);
        assert(!is_failure(events[events.len() - 1]));
    }
}

/// After a failed authentication has been dealt with, there is no session to cancel, and a new one
/// can be created.
pub proof fn law_new_session_after_failure(state: ConnectionState, response: Response)
    requires
        crate::source::is_auth_error(response),
    ensures
        after_events(state, seq![Event::Arrived(response), Event::Answered]).refusal(
            Call::CreateSession,
        ) is None,
        !after_events(
            state,
            seq![Event::Arrived(response), Event::Answered],
        ).abandons_session(),
{
    let events = seq![Event::Arrived(response), Event::Answered];
    assert(events.drop_last() =~= seq![Event::Arrived(response)]);
    assert(events.drop_last().drop_last() =~= Seq::<Event>::empty());
    reveal_with_fuel(after_events, 3);
}

/// Once the start of a session has been asked for, it cannot be asked for again, a success ends
/// the conversation, and nothing is cancelled when the connection is given up.
pub proof fn law_start_is_final(state: ConnectionState, events: Seq<Event>)
    ensures
        ({
            let later = after_events(state.after(Call::StartSession), events);
            &&& later.refusal(Call::StartSession) == Some(GreetdError::AlreadyStarted)
            &&& !later.abandons_session()
            &&& forall|reaction: Reaction|
                #[trigger] crate::source::reaction_to(later, Response::Success, reaction) ==> (
                reaction matches Reaction::Deliver { response, delivery } && response is Finish
                    && delivery@.post is Remove)
        }),
    decreases events.len(),
{
    if events.len() > 0 {
        law_start_is_final(state, events.drop_last());
    }
}

/// A session that was asked for is cancelled when the connection is given up, unless
/// authentication has failed or the start of the session has been asked for.
pub proof fn law_session_is_cancelled(state: ConnectionState, events: Seq<Event>)
    requires
        !state.finishing,
        forall|i: int|
            0 <= i < events.len() ==> !is_failure(#[trigger] events[i]) && events[i]
                != Event::Called(Call::StartSession),
    ensures
        after_events(state.after(Call::CreateSession), events).abandons_session(),
    decreases events.len(),
{
    if events.len() > 0 {
        let before = events.drop_last();
        assert(forall|i: int| 0 <= i < before.len() ==> #[trigger] before[i] == events[i]);
        law_session_is_cancelled(state, before);
        let last = events[events.len() - 1];
        assert(!is_failure(last) && last != Event::Called(Call::StartSession));
    }
}

/// As long as no session is asked for, there is none to cancel when the connection is given up.
pub proof fn law_nothing_to_cancel(state: ConnectionState, events: Seq<Event>)
    requires
        !state.started_session,
        forall|i: int|
            0 <= i < events.len() ==> #[trigger] events[i] != Event::Called(Call::CreateSession),
    ensures
        !after_events(state, events).started_session,
        !after_events(state, events).abandons_session(),
    decreases events.len(),
{
    if events.len() > 0 {
        let before = events.drop_last();
        assert(forall|i: int| 0 <= i < before.len() ==> #[trigger] before[i] == events[i]);
        law_nothing_to_cancel(state, before);
        assert(events[events.len() - 1] != Event::Called(Call::CreateSession));
    }
}

/// Only the call that asks for the start of the session makes a later success the last response.
pub proof fn law_only_start_finishes(state: ConnectionState, events: Seq<Event>)
    requires
        forall|i: int|
            0 <= i < events.len() ==> #[trigger] events[i] != Event::Called(Call::StartSession),
    ensures
        after_events(state, events).finishing == state.finishing,
    decreases events.len(),
{
    if events.len() > 0 {
        let before = events.drop_last();
        assert(forall|i: int| 0 <= i < before.len() ==> #[trigger] before[i] == events[i]);
        law_only_start_finishes(state, before);
        assert(events[events.len() - 1] != Event::Called(Call::StartSession));
    }
}

/// Every response reaches the callback as it is, but for a success while the session is being
/// started.
pub proof fn law_responses_pass_through(state: ConnectionState, response: Response, reaction: Reaction)
    requires
        crate::source::reaction_to(state, response, reaction),
        !(response is Success && state.finishing),
    ensures
        match reaction {
            Reaction::Deliver { response: passed, .. } => passed == response,
            Reaction::Cancel { cancelled, .. } => cancelled@ == response,
        },
{
}

} // verus!
