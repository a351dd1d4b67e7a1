//! Requests from a greeter to greetd, and their JSON text.

use crate::hint::{hint_add, hint_add_assign, hint_mul, str_write_len, str_write_to};
use crate::json::{escaped_len, push_escaped};
use vstd::prelude::*;
use writeable::LengthHint;

verus! {

/// A request from a greeter to greetd. The request type is internally tagged
/// with the "type" field, with the type written in snake_case.
///
/// Example serialization:
///
/// ```json
/// {
///    "type": "create_session",
///    "username": "bob"
/// }
/// ```
#[derive(Debug)]
pub enum Request<'a> {
    /// CreateSession initiates a login attempt for the given user.
    /// CreateSession returns either a Response::AuthMessage,
    /// Response::Success or Response::Error.
    ///
    /// If an auth message is returned, it should be answered with a
    /// Request::PostAuthMessageResponse. If a success is returned, the session
    /// can then be started with Request::StartSession.
    ///
    /// If a login flow needs to be aborted at any point, send
    /// Request::CancelSession. Note that the session is cancelled
    /// automatically on error.
    CreateSession { username: &'a str },
    /// PostAuthMessageResponse responds to the last auth message, and returns
    /// either a Response::AuthMessage, Response::Success or Response::Error.
    ///
    /// If an auth message is returned, it should be answered with a
    /// Request::PostAuthMessageResponse. If a success is returned, the session
    /// can then be started with Request::StartSession.
    PostAuthMessageResponse { response: Option<&'a str> },
    /// Start a successfully logged in session. This will fail if the session
    /// has pending messages or has encountered an error.
    StartSession { cmd: &'a [&'a str] },
    /// Cancel a session. This can only be done if the session has not been
    /// started. Cancel does not have to be called if an error has been
    /// encountered in its setup or login flow.
    CancelSession,
}

/// What a `Request` says: the request with its strings as character sequences.
pub enum RequestView {
    CreateSession { username: Seq<char> },
    PostAuthMessageResponse { response: Option<Seq<char>> },
    StartSession { cmd: Seq<Seq<char>> },
    CancelSession,
}

impl<'a> View for Request<'a> {
    type V = RequestView;

    open spec fn view(&self) -> RequestView {
        match *self {
            Request::CreateSession { username } => RequestView::CreateSession {
                username: username@,
            },
            Request::PostAuthMessageResponse { response } => RequestView::PostAuthMessageResponse {
                response: match response {
                    Some(text) => Some(text@),
                    None => None,
                },
            },
            Request::StartSession { cmd } => RequestView::StartSession { cmd: texts(cmd@) },
            Request::CancelSession => RequestView::CancelSession,
        }
    }
}

/// The character sequences of a sequence of strings.
pub open spec fn texts(items: Seq<&str>) -> Seq<Seq<char>> {
    Seq::new(items.len(), |i: int| items[i]@)
}

/// The strings, escaped and in double quotes, separated by commas.
pub open spec fn quoted_list(items: Seq<Seq<char>>) -> Seq<char>
    decreases items.len(),
{
    if items.len() == 0 {
        Seq::empty()
    } else if items.len() == 1 {
        "\""@ + crate::json::escaped(items[0]) + "\""@
    } else {
        quoted_list(items.drop_last()) + ",\""@ + crate::json::escaped(items.last()) + "\""@
    }
}

impl RequestView {
    /// The value of the "type" field.
    pub open spec fn tag(self) -> Seq<char> {
        match self {
            RequestView::StartSession { .. } => "start_session"@,
            RequestView::CreateSession { .. } => "create_session"@,
            RequestView::PostAuthMessageResponse { .. } => "post_auth_message_response"@,
            RequestView::CancelSession => "cancel_session"@,
        }
    }

    /// The fields after the "type" field, each after a comma.
    pub open spec fn fields(self) -> Seq<char> {
        match self {
            RequestView::StartSession { cmd } => ",\"cmd\":["@ + quoted_list(cmd) + "]"@,
            RequestView::CreateSession { username } => ",\"username\":\""@ + crate::json::escaped(
                username,
            ) + "\""@,
            RequestView::PostAuthMessageResponse { response: Some(text) } => ",\"response\":\""@
                + crate::json::escaped(text) + "\""@,
            RequestView::PostAuthMessageResponse { response: None } => Seq::empty(),
            RequestView::CancelSession => Seq::empty(),
        }
    }

    /// The text of the request: a JSON object whose first field is "type".
    pub open spec fn text(self) -> Seq<char> {
        "{\"type\":\""@ + self.tag() + "\""@ + self.fields() + "}"@
    }

    /// The text of the request in UTF-8, which is what travels to greetd.
    pub open spec fn bytes(self) -> Seq<u8> {
        vstd::utf8::encode_utf8(self.text())
    }
}

/// The texts, one after the other.
pub open spec fn concatenated(items: Seq<Seq<char>>) -> Seq<char>
    decreases items.len(),
{
    if items.len() == 0 {
        Seq::empty()
    } else {
        concatenated(items.drop_last()) + items.last()
    }
}

/// Adds a piece of text.
pub(crate) fn push_piece<'a>(piece: &'a str, pieces: &mut Vec<&'a str>)
    ensures
        concatenated(texts(final(pieces)@)) == concatenated(texts(old(pieces)@)) + piece@,
{
    let ghost before = texts(pieces@);
    pieces.push(piece);
    assert(texts(pieces@).drop_last() =~= before);
}

impl<'a> Request<'a> {
    /// The text of the request in pieces, in the order in which they are written.
    pub fn pieces(&self) -> (pieces: Vec<&'a str>)
        ensures
            concatenated(texts(pieces@)) == self@.text(),
    {
        let mut pieces: Vec<&'a str> = Vec::new();
        push_piece("{\"type\":\"", &mut pieces);
        push_piece(
            match *self {
                Request::StartSession { .. } => "start_session",
                Request::CreateSession { .. } => "create_session",
                Request::PostAuthMessageResponse { .. } => "post_auth_message_response",
                Request::CancelSession => "cancel_session",
            },
            &mut pieces,
        );
        push_piece("\"", &mut pieces);
        let ghost head = concatenated(texts(pieces@));
        match *self {
            Request::StartSession { cmd } => {
                push_piece(",\"cmd\":[", &mut pieces);
                let ghost before = concatenated(texts(pieces@));
                let mut i: usize = 0;
                while i < cmd.len()
                    invariant
                        i <= cmd@.len(),
                        concatenated(texts(pieces@)) == before + quoted_list(
                            texts(cmd@).take(i as int),
                        ),
                    decreases cmd@.len() - i,
                {
                    let ghost done = texts(cmd@).take(i as int);
                    let ghost more = texts(cmd@).take(i + 1);
                    proof {
                        assert(more.drop_last() =~= done);
                        assert(more.last() == cmd@[i as int]@);
                    }
                    if i == 0 {
                        push_piece("\"", &mut pieces);
                    } else {
                        push_piece(",\"", &mut pieces);
                    }
                    push_escaped(cmd[i], &mut pieces);
                    push_piece("\"", &mut pieces);
                    assert(concatenated(texts(pieces@)) =~= before + quoted_list(more));
                    i += 1;
                }
                assert(texts(cmd@).take(i as int) =~= texts(cmd@));
                push_piece("]", &mut pieces);
            },
            Request::CreateSession { username } => {
                push_piece(",\"username\":\"", &mut pieces);
                push_escaped(username, &mut pieces);
                push_piece("\"", &mut pieces);
            },
            Request::CancelSession => {},
            Request::PostAuthMessageResponse { response } => {
                if let Some(res) = response {
                    push_piece(",\"response\":\"", &mut pieces);
                    push_escaped(res, &mut pieces);
                    push_piece("\"", &mut pieces);
                }
            },
        }
        assert(concatenated(texts(pieces@)) =~= head + self@.fields());
        push_piece("}", &mut pieces);
        assert(concatenated(texts(pieces@)) =~= self@.text());
        pieces
    }

    /// Appends the text of the request to `sink`, piece by piece.
    pub fn write_to(&self, sink: &mut String) -> (r: Result<(), core::fmt::Error>)
        ensures
            r is Ok,
            final(sink)@ == old(sink)@ + self@.text(),
    {
        let ghost start = sink@;
        let pieces = self.pieces();
        let mut i: usize = 0;
        while i < pieces.len()
            invariant
                i <= pieces@.len(),
                sink@ == start + concatenated(texts(pieces@).take(i as int)),
            decreases pieces@.len() - i,
        {
            proof {
                let more = texts(pieces@).take(i + 1);
                assert(more.drop_last() =~= texts(pieces@).take(i as int));
                assert(more.last() == pieces@[i as int]@);
            }
            str_write_to(pieces[i], sink)?;
            i += 1;
            assert(sink@ =~= start + concatenated(texts(pieces@).take(i as int)));
        }
        assert(texts(pieces@).take(i as int) =~= texts(pieces@));
        Ok(())
    }

    /// The exact number of bytes that `write_to` appends.
    pub fn write_len(&self) -> (len: LengthHint)
        ensures
            crate::hint::hints_exactly(len, self@.bytes().len()),
            vstd::utf8::encode_utf8(self@.text()).len() <= usize::MAX ==> len.0
                == vstd::utf8::encode_utf8(self@.text()).len() && len.1 == Some(len.0),
            vstd::utf8::encode_utf8(self@.text()).len() > usize::MAX ==> len.0 == usize::MAX
                && len.1 is None,
    {
        match *self {
            Request::CancelSession => {
                proof {
                    lemma_len_cancel();
                }
                str_write_len("{\"type\":\"cancel_session\"}")
            },
            Request::CreateSession { username } => {
                proof {
                    lemma_len_create(username@);
                }
                hint_add(
                    str_write_len("{\"type\":\"create_session\",\"username\":\"\"}"),
                    escaped_len(username),
                )
            },
            Request::PostAuthMessageResponse { response } => {
                proof {
                    lemma_len_post(self@->PostAuthMessageResponse_response);
                }
                let mut len = str_write_len("{\"type\":\"post_auth_message_response\"}");
                if let Some(res) = response {
                    hint_add_assign(
                        &mut len,
                        hint_add(str_write_len(",\"response\":\"\""), escaped_len(res)),
                    );
                }
                len
            },
            Request::StartSession { cmd } => {
                proof {
                    lemma_len_start(texts(cmd@));
                }
                let mut len = str_write_len("{\"type\":\"start_session\",\"cmd\":[]}");
                let add_len = cmd.len();
                if add_len != 0 {
                    let separators = hint_mul(LengthHint::exact(3), add_len - 1);
                    assert(crate::hint::hints_exactly(separators, (3 * (add_len - 1)) as nat));
                    hint_add_assign(&mut len, hint_add(separators, LengthHint::exact(2)));
                }
                let ghost fixed = vstd::utf8::encode_utf8(
                    "{\"type\":\"start_session\",\"cmd\":[]}"@,
                ).len() + quotes_len(cmd@.len());
                assert(crate::hint::hints_exactly(len, fixed));
                let mut i: usize = 0;
                while i < cmd.len()
                    invariant
                        i <= cmd@.len(),
                        crate::hint::hints_exactly(len, fixed + bytes_len(texts(cmd@).take(i as int))),
                    decreases cmd@.len() - i,
                {
                    proof {
                        let more = texts(cmd@).take(i + 1);
                        assert(more.drop_last() =~= texts(cmd@).take(i as int));
                        assert(more.last() == cmd@[i as int]@);
                    }
                    hint_add_assign(&mut len, escaped_len(cmd[i]));
                    i += 1;
                }
                assert(texts(cmd@).take(i as int) =~= texts(cmd@));
                len
            },
        }
    }

    /// The text of the request as a string of its own.
    pub fn to_string(&self) -> (text: String)
        ensures
            text@ == self@.text(),
    {
        let mut text = String::new();
        let _ = self.write_to(&mut text);
        text
    }
}

/// The number of bytes of all the strings together, escaped.
spec fn bytes_len(items: Seq<Seq<char>>) -> nat
    decreases items.len(),
{
    if items.len() == 0 {
        0
    } else {
        bytes_len(items.drop_last()) + vstd::utf8::encode_utf8(
            crate::json::escaped(items.last()),
        ).len()
    }
}

/// The number of quotes and commas around `n` strings in a list.
spec fn quotes_len(n: nat) -> nat {
    if n == 0 {
        0
    } else {
        (3 * n - 1) as nat
    }
}

proof fn lemma_len_list(items: Seq<Seq<char>>)
    ensures
        vstd::utf8::encode_utf8(quoted_list(items)).len() == bytes_len(items) + quotes_len(
            items.len(),
        ),
    decreases items.len(),
{
    reveal_strlit("\"");
    reveal_strlit(",\"");
    crate::utf8::lemma_len_ascii("\""@);
    crate::utf8::lemma_len_ascii(",\""@);
    if items.len() == 1 {
        let item = crate::json::escaped(items[0]);
        crate::utf8::lemma_len_concat("\""@, item);
        crate::utf8::lemma_len_concat("\""@ + item, "\""@);
        assert(bytes_len(items.drop_last()) == 0);
    } else if items.len() > 1 {
        let shorter = quoted_list(items.drop_last());
        let item = crate::json::escaped(items.last());
        lemma_len_list(items.drop_last());
        crate::utf8::lemma_len_concat(shorter, ",\""@);
        crate::utf8::lemma_len_concat(shorter + ",\""@, item);
        crate::utf8::lemma_len_concat(shorter + ",\""@ + item, "\""@);
    }
}

/// The number of bytes of a request's text, field by field.
proof fn lemma_len_text(request: RequestView)
    ensures
        vstd::utf8::is_ascii_chars(request.tag()),
        request.bytes().len() == 11 + request.tag().len() + vstd::utf8::encode_utf8(
            request.fields(),
        ).len(),
{
    reveal_strlit("{\"type\":\"");
    reveal_strlit("\"");
    reveal_strlit("}");
    reveal_strlit("start_session");
    reveal_strlit("create_session");
    reveal_strlit("post_auth_message_response");
    reveal_strlit("cancel_session");
    let head = "{\"type\":\""@;
    crate::utf8::lemma_len_ascii(head);
    crate::utf8::lemma_len_ascii(request.tag());
    crate::utf8::lemma_len_ascii("\""@);
    crate::utf8::lemma_len_ascii("}"@);
    crate::utf8::lemma_len_concat(head, request.tag());
    crate::utf8::lemma_len_concat(head + request.tag(), "\""@);
    crate::utf8::lemma_len_concat(head + request.tag() + "\""@, request.fields());
    crate::utf8::lemma_len_concat(head + request.tag() + "\""@ + request.fields(), "}"@);
}

proof fn lemma_len_cancel()
    ensures
        RequestView::CancelSession.bytes().len() == vstd::utf8::encode_utf8(
            "{\"type\":\"cancel_session\"}"@,
        ).len(),
{
    lemma_len_text(RequestView::CancelSession);
    reveal_strlit("cancel_session");
    reveal_strlit("{\"type\":\"cancel_session\"}");
    crate::utf8::lemma_len_ascii("{\"type\":\"cancel_session\"}"@);
}

proof fn lemma_len_create(username: Seq<char>)
    ensures
        (RequestView::CreateSession { username }).bytes().len() == vstd::utf8::encode_utf8(
            "{\"type\":\"create_session\",\"username\":\"\"}"@,
        ).len() + vstd::utf8::encode_utf8(crate::json::escaped(username)).len(),
{
    lemma_len_text(RequestView::CreateSession { username });
    reveal_strlit("create_session");
    reveal_strlit(",\"username\":\"");
    reveal_strlit("\"");
    reveal_strlit("{\"type\":\"create_session\",\"username\":\"\"}");
    crate::utf8::lemma_len_ascii("{\"type\":\"create_session\",\"username\":\"\"}"@);
    crate::utf8::lemma_len_ascii(",\"username\":\""@);
    crate::utf8::lemma_len_ascii("\""@);
    crate::utf8::lemma_len_concat(",\"username\":\""@, crate::json::escaped(username));
    crate::utf8::lemma_len_concat(
        ",\"username\":\""@ + crate::json::escaped(username),
        "\""@,
    );
}

proof fn lemma_len_post(response: Option<Seq<char>>)
    ensures
        (RequestView::PostAuthMessageResponse { response }).bytes().len() == vstd::utf8::encode_utf8(
            "{\"type\":\"post_auth_message_response\"}"@,
        ).len() + (match response {
            Some(text) => vstd::utf8::encode_utf8(",\"response\":\"\""@).len()
                + vstd::utf8::encode_utf8(crate::json::escaped(text)).len(),
            None => 0,
        }),
{
    lemma_len_text(RequestView::PostAuthMessageResponse { response });
    reveal_strlit("post_auth_message_response");
    reveal_strlit(",\"response\":\"");
    reveal_strlit(",\"response\":\"\"");
    reveal_strlit("\"");
    reveal_strlit("{\"type\":\"post_auth_message_response\"}");
    crate::utf8::lemma_len_ascii("{\"type\":\"post_auth_message_response\"}"@);
    crate::utf8::lemma_len_ascii(",\"response\":\""@);
    crate::utf8::lemma_len_ascii(",\"response\":\"\""@);
    crate::utf8::lemma_len_ascii("\""@);
    crate::utf8::lemma_len_ascii(Seq::empty());
    if let Some(text) = response {
        crate::utf8::lemma_len_concat(",\"response\":\""@, crate::json::escaped(text));
        crate::utf8::lemma_len_concat(
            ",\"response\":\""@ + crate::json::escaped(text),
            "\""@,
        );
    }
}

proof fn lemma_len_start(cmd: Seq<Seq<char>>)
    ensures
        (RequestView::StartSession { cmd }).bytes().len() == vstd::utf8::encode_utf8(
            "{\"type\":\"start_session\",\"cmd\":[]}"@,
        ).len() + quotes_len(cmd.len()) + bytes_len(cmd),
{
    lemma_len_text(RequestView::StartSession { cmd });
    lemma_len_list(cmd);
    reveal_strlit("start_session");
    reveal_strlit(",\"cmd\":[");
    reveal_strlit("]");
    reveal_strlit("{\"type\":\"start_session\",\"cmd\":[]}");
    crate::utf8::lemma_len_ascii("{\"type\":\"start_session\",\"cmd\":[]}"@);
    crate::utf8::lemma_len_ascii(",\"cmd\":["@);
    crate::utf8::lemma_len_ascii("]"@);
    crate::utf8::lemma_len_concat(",\"cmd\":["@, quoted_list(cmd));
    crate::utf8::lemma_len_concat(",\"cmd\":["@ + quoted_list(cmd), "]"@);
}

} // verus!
