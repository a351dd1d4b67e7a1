//! JSON strings, and what the text of a request is in terms of JSON.

use crate::hint::{hint_add_assign, str_write_len};
use crate::request::{push_piece, RequestView};
use vstd::prelude::*;
use writeable::LengthHint;

verus! {

/// The values that the fields of a request have: strings and lists of strings.
pub enum Value {
    Text(Seq<char>),
    List(Seq<Seq<char>>),
}

/// The character may not stand in a JSON string as it is.
pub open spec fn needs_escape(c: char) -> bool {
    c == '"' || c == '\\' || (c as u32) < 0x20
}

/// No character of the string needs an escape.
pub open spec fn is_plain(s: Seq<char>) -> bool {
    forall|i: int| 0 <= i < s.len() ==> !needs_escape(#[trigger] s[i])
}

/// The character in a JSON string.
pub open spec fn escape(c: char) -> Seq<char> {
    if c == '"' || c == '\\' {
        seq!['\\', c]
    } else if c == '\u{8}' {
        "\\b"@
    } else if c == '\t' {
        "\\t"@
    } else if c == '\n' {
        "\\n"@
    } else if c == '\u{c}' {
        "\\f"@
    } else if c == '\r' {
        "\\r"@
    } else if (c as u32) < 0x20 {
        "\\u00"@ + seq![
            "0123456789abcdef"@[(c as u32) as int / 16],
            "0123456789abcdef"@[(c as u32) as int % 16],
        ]
    } else {
        seq![c]
    }
}

/// The string, character by character, as it stands in a JSON string.
pub open spec fn escaped(s: Seq<char>) -> Seq<char>
    decreases s.len(),
{
    if s.len() == 0 {
        Seq::empty()
    } else {
        escaped(s.drop_last()) + escape(s.last())
    }
}

/// The parts, with a comma between each two.
pub open spec fn joined(parts: Seq<Seq<char>>) -> Seq<char>
    decreases parts.len(),
{
    if parts.len() == 0 {
        Seq::empty()
    } else if parts.len() == 1 {
        parts[0]
    } else {
        joined(parts.drop_last()) + ","@ + parts.last()
    }
}

/// A string in compact JSON.
pub open spec fn string_text(s: Seq<char>) -> Seq<char> {
    "\""@ + escaped(s) + "\""@
}

/// A value in compact JSON.
pub open spec fn value_text(value: Value) -> Seq<char> {
    match value {
        Value::Text(s) => string_text(s),
        Value::List(items) => "["@ + joined(items.map_values(|s: Seq<char>| string_text(s)))
            + "]"@,
    }
}

/// A field of an object in compact JSON.
pub open spec fn field_text(field: (Seq<char>, Value)) -> Seq<char> {
    string_text(field.0) + ":"@ + value_text(field.1)
}

/// An object in compact JSON, its fields in the given order.
pub open spec fn object_text(fields: Seq<(Seq<char>, Value)>) -> Seq<char> {
    "{"@ + joined(fields.map_values(|field: (Seq<char>, Value)| field_text(field))) + "}"@
}

impl RequestView {
    /// The request as an object: its type in the field "type", then its own field.
    pub open spec fn object(self) -> Seq<(Seq<char>, Value)> {
        let tag = ("type"@, Value::Text(self.tag()));
        match self {
            RequestView::CreateSession { username } => seq![
                tag,
                ("username"@, Value::Text(username)),
            ],
            RequestView::PostAuthMessageResponse { response: Some(text) } => seq![
                tag,
                ("response"@, Value::Text(text)),
            ],
            RequestView::StartSession { cmd } => seq![tag, ("cmd"@, Value::List(cmd))],
            _ => seq![tag],
        }
    }
}

/// Escaping leaves plain strings as they are.
proof fn lemma_plain(s: Seq<char>)
    requires
        is_plain(s),
    ensures
        escaped(s) == s,
    decreases s.len(),
{
    if s.len() > 0 {
        let rest = s.drop_last();
        assert forall|i: int| 0 <= i < rest.len() implies !needs_escape(#[trigger] rest[i]) by {
            assert(s[i] == rest[i]);
        }
        lemma_plain(rest);
        assert(!needs_escape(s[s.len() - 1]));
        assert(escaped(s) =~= s);
    }
}

/// Two strings in a row are escaped one after the other.
proof fn lemma_escaped_concat(a: Seq<char>, b: Seq<char>)
    ensures
        escaped(a + b) == escaped(a) + escaped(b),
    decreases b.len(),
{
    if b.len() == 0 {
        assert(a + b =~= a);
        assert(escaped(a) + escaped(b) =~= escaped(a));
    } else {
        assert((a + b).drop_last() =~= a + b.drop_last());
        lemma_escaped_concat(a, b.drop_last());
        assert(escaped(a + b) =~= escaped(a) + escaped(b));
    }
}

/// Adds the pieces that stand in a JSON string for a character that needs an escape.
fn push_escape<'a>(c: char, pieces: &mut Vec<&'a str>)
    requires
        needs_escape(c),
    ensures
        crate::request::concatenated(crate::request::texts(final(pieces)@)) == crate::request::concatenated(crate::request::texts(old(pieces)@)) + escape(c),
{
    let ghost start = crate::request::concatenated(crate::request::texts(pieces@));
    if c == '"' {
        push_piece("\\\"", pieces);
        proof {
            reveal_strlit("\\\"");
        }
    } else if c == '\\' {
        push_piece("\\\\", pieces);
        proof {
            reveal_strlit("\\\\");
        }
    } else if c == '\u{8}' {
        push_piece("\\b", pieces);
    } else if c == '\t' {
        push_piece("\\t", pieces);
    } else if c == '\n' {
        push_piece("\\n", pieces);
    } else if c == '\u{c}' {
        push_piece("\\f", pieces);
    } else if c == '\r' {
        push_piece("\\r", pieces);
    } else {
        let code: usize = c as usize;
        let digits: &'static str = "0123456789abcdef";
        proof {
            reveal_strlit("0123456789abcdef");
        }
        push_piece("\\u00", pieces);
        push_piece(digits.substring_ascii(code / 16, code / 16 + 1), pieces);
        push_piece(digits.substring_ascii(code % 16, code % 16 + 1), pieces);
    }
    assert(crate::request::concatenated(crate::request::texts(pieces@)) =~= start + escape(c));
}

/// The character may not stand in a JSON string as it is.
fn is_special(c: char) -> (r: bool)
    ensures
        r == needs_escape(c),
{
    c == '"' || c == '\\' || (c as u32) < 0x20
}

/// Adds the pieces of the string, as it stands in a JSON string: the stretches of it that need no
/// escape, and the escapes between them.
pub(crate) fn push_escaped<'a>(s: &'a str, pieces: &mut Vec<&'a str>)
    ensures
        crate::request::concatenated(crate::request::texts(final(pieces)@)) == crate::request::concatenated(crate::request::texts(old(pieces)@)) + escaped(s@),
{
    let ghost before = crate::request::concatenated(crate::request::texts(pieces@));
    let n = s.unicode_len();
    let mut start: usize = 0;
    let mut i: usize = 0;
    for c in chars: s.chars()
        invariant
            n == s@.len(),
            chars.seq() == s@,
            i == chars.index(),
            start <= i <= n,
            is_plain(s@.subrange(start as int, i as int)),
            crate::request::concatenated(crate::request::texts(pieces@)) == before + escaped(s@.take(start as int)),
    {
        assert(c == s@[i as int]);
        if is_special(c) {
            let run = s.substring_char(start, i);
            push_piece(run, pieces);
            push_escape(c, pieces);
            proof {
                lemma_plain(run@);
                lemma_escaped_concat(s@.take(start as int), run@);
                assert(s@.take(i as int) =~= s@.take(start as int) + run@);
                assert(s@.take(i + 1).drop_last() =~= s@.take(i as int));
                assert(crate::request::concatenated(crate::request::texts(pieces@)) =~= before + escaped(s@.take(i + 1)));
            }
            start = i + 1;
        }
        i += 1;
    }
    let run = s.substring_char(start, i);
    proof {
        lemma_plain(run@);
        lemma_escaped_concat(s@.take(start as int), run@);
        assert(s@ =~= s@.take(start as int) + run@);
    }
    push_piece(run, pieces);
    assert(crate::request::concatenated(crate::request::texts(pieces@)) =~= before + escaped(s@));
}

/// How many bytes longer a character is in a JSON string.
spec fn escape_growth(c: char) -> nat {
    (escape(c).len() - 1) as nat
}

/// How many bytes longer a string is in a JSON string.
spec fn escaped_growth(s: Seq<char>) -> nat
    decreases s.len(),
{
    if s.len() == 0 {
        0
    } else {
        escaped_growth(s.drop_last()) + escape_growth(s.last())
    }
}

/// An escape is made of ASCII characters: two, or six for a control character without a letter of
/// its own.
proof fn lemma_escape_len(c: char)
    ensures
        !needs_escape(c) ==> escape(c) == seq![c],
        needs_escape(c) ==> {
            &&& vstd::utf8::is_ascii_chars(seq![c])
            &&& vstd::utf8::is_ascii_chars(escape(c))
            &&& escape(c)[0] == '\\'
            &&& escape(c).len() == if c == '"' || c == '\\' || c == '\u{8}' || c == '\t' || c
                == '\n' || c == '\u{c}' || c == '\r' {
                2nat
            } else {
                6
            }
        },
{
    reveal_strlit("\\b");
    reveal_strlit("\\t");
    reveal_strlit("\\n");
    reveal_strlit("\\f");
    reveal_strlit("\\r");
    reveal_strlit("\\u00");
    reveal_strlit("0123456789abcdef");
}

proof fn lemma_escaped_len(s: Seq<char>)
    ensures
        vstd::utf8::encode_utf8(escaped(s)).len() == vstd::utf8::encode_utf8(s).len()
            + escaped_growth(s),
    decreases s.len(),
{
    if s.len() > 0 {
        let rest = s.drop_last();
        let c = s.last();
        lemma_escaped_len(rest);
        crate::utf8::lemma_len_concat(escaped(rest), escape(c));
        assert(s =~= rest + seq![c]);
        crate::utf8::lemma_len_concat(rest, seq![c]);
        lemma_escape_len(c);
        if needs_escape(c) {
            crate::utf8::lemma_len_ascii(escape(c));
            crate::utf8::lemma_len_ascii(seq![c]);
        }
    }
}

/// The exact number of bytes of the string as it stands in a JSON string.
pub fn escaped_len(s: &str) -> (len: LengthHint)
    ensures
        crate::hint::hints_exactly(len, vstd::utf8::encode_utf8(escaped(s@)).len()),
        vstd::utf8::encode_utf8(escaped(s@)).len() <= usize::MAX ==> len.0
            == vstd::utf8::encode_utf8(escaped(s@)).len() && len.1 == Some(len.0),
        vstd::utf8::encode_utf8(escaped(s@)).len() > usize::MAX ==> len.0 == usize::MAX && len.1
            is None,
{
    let mut len = str_write_len(s);
    let ghost bare = vstd::utf8::encode_utf8(s@).len();
    let ghost mut i: int = 0;
    for c in chars: s.chars()
        invariant
            chars.seq() == s@,
            i == chars.index(),
            0 <= i <= s@.len(),
            crate::hint::hints_exactly(len, bare + escaped_growth(s@.take(i))),
    {
        assert(c == s@[i]);
        proof {
            lemma_escape_len(c);
            assert(s@.take(i + 1).drop_last() =~= s@.take(i));
        }
        if is_special(c) {
            if c == '"' || c == '\\' || c == '\u{8}' || c == '\t' || c == '\n' || c == '\u{c}' || c
                == '\r' {
                hint_add_assign(&mut len, LengthHint::exact(1));
            } else {
                hint_add_assign(&mut len, LengthHint::exact(5));
            }
        }
        proof {
            i = i + 1;
        }
    }
    proof {
        assert(s@.take(i) =~= s@);
        lemma_escaped_len(s@);
    }
    len
}

/// A list of strings in JSON is the list of the escaped strings in quotes.
proof fn lemma_list(items: Seq<Seq<char>>)
    ensures
        joined(items.map_values(|s: Seq<char>| string_text(s))) == crate::request::quoted_list(
            items,
        ),
    decreases items.len(),
{
    let parts = items.map_values(|s: Seq<char>| string_text(s));
    reveal_strlit("\"");
    reveal_strlit(",");
    reveal_strlit(",\"");
    if items.len() > 0 {
        let rest = items.drop_last();
        lemma_list(rest);
        assert(parts.drop_last() =~= rest.map_values(|s: Seq<char>| string_text(s)));
        assert(joined(parts) =~= crate::request::quoted_list(items));
    }
}

/// The text of a request is the compact JSON of its object.
pub proof fn law_text_is_json(request: RequestView)
    ensures
        request.text() == object_text(request.object()),
{
    let object = request.object();
    let parts = object.map_values(|field: (Seq<char>, Value)| field_text(field));
    reveal_strlit("\"");
    reveal_strlit("{");
    reveal_strlit("}");
    reveal_strlit(":");
    reveal_strlit(",");
    reveal_strlit("[");
    reveal_strlit("]");
    reveal_strlit("type");
    reveal_strlit("username");
    reveal_strlit("response");
    reveal_strlit("cmd");
    reveal_strlit("{\"type\":\"");
    reveal_strlit(",\"cmd\":[");
    reveal_strlit(",\"username\":\"");
    reveal_strlit(",\"response\":\"");
    reveal_strlit("start_session");
    reveal_strlit("create_session");
    reveal_strlit("post_auth_message_response");
    reveal_strlit("cancel_session");
    lemma_plain("type"@);
    lemma_plain("username"@);
    lemma_plain("response"@);
    lemma_plain("cmd"@);
    assert(is_plain(request.tag()));
    lemma_plain(request.tag());
    assert(parts[0] == "\""@ + "type"@ + "\""@ + ":"@ + ("\""@ + request.tag() + "\""@));
    if object.len() == 1 {
        assert(joined(parts) == parts[0]);
    } else {
        assert(parts.drop_last() =~= seq![parts[0]]);
        assert(joined(parts.drop_last()) == parts[0]);
        assert(joined(parts) == parts[0] + ","@ + parts[1]);
        if let RequestView::StartSession { cmd } = request {
            lemma_list(cmd);
        }
    }
    assert(object_text(object) =~= request.text());
}

/// What stands for a character tells which one it is, and where it ends.
proof fn lemma_escape_unique(c: char, d: char, x: Seq<char>, y: Seq<char>)
    requires
        escape(c) + x == escape(d) + y,
    ensures
        c == d,
        x == y,
{
    reveal_strlit("\\b");
    reveal_strlit("\\t");
    reveal_strlit("\\n");
    reveal_strlit("\\f");
    reveal_strlit("\\r");
    reveal_strlit("\\u00");
    reveal_strlit("0123456789abcdef");
    let text = escape(c) + x;
    lemma_escape_len(c);
    lemma_escape_len(d);
    assert(text[0] == escape(c)[0] && text[0] == escape(d)[0]);
    if needs_escape(c) && needs_escape(d) {
        assert(text[1] == escape(c)[1] && text[1] == escape(d)[1]);
        assert(escape(c).len() == escape(d).len());
        if escape(c).len() == 6 {
            assert(text[4] == escape(c)[4] && text[4] == escape(d)[4]);
            assert(text[5] == escape(c)[5] && text[5] == escape(d)[5]);
        }
    }
    assert(c == d);
    assert(x =~= text.skip(escape(c).len() as int));
    assert(y =~= text.skip(escape(c).len() as int));
}

/// An escaped string starts with the escape of its first character.
proof fn lemma_escaped_first(s: Seq<char>)
    requires
        s.len() > 0,
    ensures
        escaped(s) == escape(s[0]) + escaped(s.drop_first()),
{
    let first = seq![s[0]];
    assert(s =~= first + s.drop_first());
    lemma_escaped_concat(first, s.drop_first());
    assert(first.drop_last() =~= Seq::<char>::empty());
    assert(escaped(Seq::<char>::empty()) == Seq::<char>::empty());
    assert(escaped(first) =~= escape(s[0]));
}

/// The text of a string tells which one it is, and where it ends: at the first quote that is no
/// part of an escape.
pub proof fn law_string_ends_at_its_quote(a: Seq<char>, b: Seq<char>, x: Seq<char>, y: Seq<char>)
    requires
        escaped(a) + seq!['"'] + x == escaped(b) + seq!['"'] + y,
    ensures
        a == b,
        x == y,
    decreases a.len(),
{
    let text = escaped(a) + seq!['"'] + x;
    if a.len() > 0 {
        lemma_escaped_first(a);
        lemma_escape_len(a[0]);
        assert(text[0] == escape(a[0])[0]);
    }
    if b.len() > 0 {
        lemma_escaped_first(b);
        lemma_escape_len(b[0]);
        assert(text[0] == escape(b[0])[0]);
    }
    if a.len() == 0 || b.len() == 0 {
        assert(a.len() == 0 && b.len() == 0);
        assert(a =~= b);
        assert(x =~= text.skip(1));
        assert(y =~= text.skip(1));
    } else {
        let a_rest = escaped(a.drop_first()) + seq!['"'] + x;
        let b_rest = escaped(b.drop_first()) + seq!['"'] + y;
        assert(text =~= escape(a[0]) + a_rest);
        assert(text =~= escape(b[0]) + b_rest);
        lemma_escape_unique(a[0], b[0], a_rest, b_rest);
        law_string_ends_at_its_quote(a.drop_first(), b.drop_first(), x, y);
        assert(a =~= seq![a[0]] + a.drop_first());
        assert(b =~= seq![b[0]] + b.drop_first());
    }
}

} // verus!
