use vstd::prelude::*;

use crate::message::{push_char, ChatMessage};

verus! {

/// The lower-case hexadecimal digit of `n` (for `n < 16`).
pub open spec fn hex_digit(n: int) -> char {
    if n < 10 {
        (n + 48) as char
    } else {
        (n + 87) as char
    }
}

/// Control characters that have a short escape (`\b \t \n \f \r`).
pub open spec fn has_short_escape(v: int) -> bool {
    v == 8 || v == 9 || v == 10 || v == 12 || v == 13
}

/// The letter of a short escape.
pub open spec fn short_escape_letter(v: int) -> char {
    if v == 8 {
        'b'
    } else if v == 9 {
        't'
    } else if v == 10 {
        'n'
    } else if v == 12 {
        'f'
    } else {
        'r'
    }
}

/// How one character is written inside a quoted string: quote and backslash
/// are escaped, control characters use a short escape or `\u00XX`, all else
/// stands as it is.
pub open spec fn escape_char(c: char) -> Seq<char> {
    if c == '"' {
        seq!['\\', '"']
    } else if c == '\\' {
        seq!['\\', '\\']
    } else if has_short_escape(c as u32 as int) {
        seq!['\\', short_escape_letter(c as u32 as int)]
    } else if (c as u32) < 32 {
        seq!['\\', 'u', '0', '0', hex_digit((c as u32 as int) / 16), hex_digit((c as u32 as int) % 16)]
    } else {
        seq![c]
    }
}

/// The escaped body of a quoted string.
pub open spec fn escape(s: Seq<char>) -> Seq<char>
    decreases s.len(),
{
    if s.len() == 0 {
        Seq::empty()
    } else {
        escape_char(s[0]) + escape(s.drop_first())
    }
}

/// A quoted string literal.
pub open spec fn quote(s: Seq<char>) -> Seq<char> {
    seq!['"'] + escape(s) + seq!['"']
}

pub open spec fn username_key() -> Seq<char> {
    seq!['{', '"', 'u', 's', 'e', 'r', 'n', 'a', 'm', 'e', '"', ':']
}

pub open spec fn content_key() -> Seq<char> {
    seq![',', '"', 'c', 'o', 'n', 't', 'e', 'n', 't', '"', ':']
}

/// The wire text of an envelope: `{"username":<quoted>,"content":<quoted>}`.
pub open spec fn encode_spec(username: Seq<char>, content: Seq<char>) -> Seq<char> {
    username_key() + quote(username) + content_key() + quote(content) + seq!['}']
}

/// Why a frame did not decode.
#[derive(Clone, Copy, Debug, PartialEq, Eq)]
pub enum DecodeError {
    /// The text is not a JSON object with string members `username` and
    /// `content`.
    Malformed,
}

fn hex_char(n: u32) -> (c: char)
    requires
        n < 16,
    ensures
        c == hex_digit(n as int),
{
    if n < 10 {
        (n as u8 + 48) as char
    } else {
        (n as u8 + 87) as char
    }
}

proof fn lemma_escape_push(s: Seq<char>, c: char)
    ensures
        escape(s.push(c)) == escape(s) + escape_char(c),
    decreases s.len(),
{
    if s.len() == 0 {
        assert(s.push(c).drop_first() =~= Seq::<char>::empty());
        assert(s.push(c)[0] == c);
        assert(escape(Seq::<char>::empty()) == Seq::<char>::empty());
        assert(escape(s) == Seq::<char>::empty());
        assert(escape(s.push(c)) =~= escape_char(c) + escape(s.push(c).drop_first()));
        assert(escape(s.push(c)) =~= escape_char(c));
    } else {
        assert(s.push(c).drop_first() =~= s.drop_first().push(c));
        lemma_escape_push(s.drop_first(), c);
        assert(escape(s.push(c)) =~= escape(s) + escape_char(c));
    }
}

fn push_escaped_char(out: &mut String, c: char)
    ensures
        final(out)@ == old(out)@ + escape_char(c),
{
    let v = c as u32;
    if c == '"' {
        push_char(out, '\\');
        push_char(out, '"');
    } else if c == '\\' {
        push_char(out, '\\');
        push_char(out, '\\');
    } else if v == 8 {
        push_char(out, '\\');
        push_char(out, 'b');
    } else if v == 9 {
        push_char(out, '\\');
        push_char(out, 't');
    } else if v == 10 {
        push_char(out, '\\');
        push_char(out, 'n');
    } else if v == 12 {
        push_char(out, '\\');
        push_char(out, 'f');
    } else if v == 13 {
        push_char(out, '\\');
        push_char(out, 'r');
    } else if v < 32 {
        push_char(out, '\\');
        push_char(out, 'u');
        push_char(out, '0');
        push_char(out, '0');
        push_char(out, hex_char(v / 16));
        push_char(out, hex_char(v % 16));
    } else {
        push_char(out, c);
    }
    assert(final(out)@ =~= old(out)@ + escape_char(c));
}

fn push_quoted(out: &mut String, s: &str)
    ensures
        final(out)@ == old(out)@ + quote(s@),
{
    let ghost start = out@;
    push_char(out, '"');
    let len = s.unicode_len();
    let mut i: usize = 0;
    while i < len
        invariant
            len == s@.len(),
            i <= len,
            out@ == start + seq!['"'] + escape(s@.take(i as int)),
        decreases len - i,
    {
        let c = s.get_char(i);
        proof {
            lemma_escape_push(s@.take(i as int), c);
            assert(s@.take(i as int).push(c) =~= s@.take(i as int + 1));
        }
        push_escaped_char(out, c);
    i = i + 1;
    }
    assert(s@.take(len as int) =~= s@);
    push_char(out, '"');
    assert(out@ =~= start + quote(s@));
}

/// The wire text of a message.
pub fn encode(m: &ChatMessage) -> (r: String)
    ensures
        r@ == encode_spec(m.username@, m.content@),
{
    let mut r = String::new();
    r.append("{\"username\":");
    push_quoted(&mut r, m.username.as_str());
    r.append(",\"content\":");
    push_quoted(&mut r, m.content.as_str());
    push_char(&mut r, '}');
    proof {
        reveal_strlit("{\"username\":");
        reveal_strlit(",\"content\":");
        assert(r@ =~= encode_spec(m.username@, m.content@));
    }
    r
}

/// The username and content that a JSON text holds, when it is an object
/// whose `username` and `content` members are strings: JSON whitespace,
/// every string escape, any member order and other members are allowed.
/// Where a member repeats, its last value counts.
pub uninterp spec fn json_envelope(text: Seq<char>) -> Option<(Seq<char>, Seq<char>)>;

/// Relies on `serde_json::from_str` (into a `serde_json::Value`), and on
/// `Value::get` and `Value::as_str` to pick the two string members out of
/// the object it parsed. serde_json reads back what it writes, and the wire
/// text `encode_spec` describes is what it writes for an object with these
/// two members.
#[verifier::external_body]
fn read_envelope(text: &str) -> (r: Option<(String, String)>)
    ensures
        match json_envelope(text@) {
            Some((u, c)) => r is Some && (r->0).0@ == u && (r->0).1@ == c,
            None => r is None,
        },
        forall|u: Seq<char>, c: Seq<char>|
            #[trigger] encode_spec(u, c) == text@ ==> r is Some && (r->0).0@ == u && (r->0).1@
                == c,
{
    let value: serde_json::Value = serde_json::from_str(text).ok()?;
    let username = value.get("username")?.as_str()?;
    let content = value.get("content")?.as_str()?;
    Some((username.to_string(), content.to_string()))
}

/// Reads a frame's text as an envelope. It succeeds exactly on a JSON
/// object with string members `username` and `content`, and then gives
/// those two strings; the wire text of an envelope reads back as that
/// envelope.
pub fn decode(text: &str) -> (r: Result<ChatMessage, DecodeError>)
    ensures
        match json_envelope(text@) {
            Some((u, c)) => r is Ok && r->Ok_0.username@ == u && r->Ok_0.content@ == c,
            None => r is Err,
        },
        forall|u: Seq<char>, c: Seq<char>|
            #[trigger] encode_spec(u, c) == text@ ==> r is Ok && r->Ok_0.username@ == u
                && r->Ok_0.content@ == c,
{
    match read_envelope(text) {
        Some((username, content)) => Ok(ChatMessage { username, content }),
        None => Err(DecodeError::Malformed),
    }
}

} // verus!
