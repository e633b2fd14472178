use vstd::prelude::*;

verus! {

/// One chat envelope: who speaks, and what they say.
#[derive(Clone, Debug, PartialEq, Eq)]
pub struct ChatMessage {
    pub username: String,
    pub content: String,
}

/// The text a message shows as: `username: content`.
pub open spec fn display_text(username: Seq<char>, content: Seq<char>) -> Seq<char> {
    username + seq![':', ' '] + content
}

/// Relies on `String::push`: appends one character.
#[verifier::external_body]
pub(crate) fn push_char(s: &mut String, c: char)
    ensures
        final(s)@ == old(s)@.push(c),
{
    s.push(c)
}

/// Whether two texts are the same sequence of characters.
pub(crate) fn same_text(a: &str, b: &str) -> (r: bool)
    ensures
        r == (a@ == b@),
{
    let n = a.unicode_len();
    if n != b.unicode_len() {
        return false;
    }
    let mut i: usize = 0;
    while i < n
        invariant
            n == a@.len(),
            n == b@.len(),
            i <= n,
            a@.take(i as int) == b@.take(i as int),
        decreases n - i,
    {
        if a.get_char(i) != b.get_char(i) {
            return false;
        }
        assert(a@.take(i as int + 1) =~= a@.take(i as int).push(a@[i as int]));
        assert(b@.take(i as int + 1) =~= b@.take(i as int).push(b@[i as int]));
        i = i + 1;
    }
    assert(a@.take(n as int) =~= a@);
    assert(b@.take(n as int) =~= b@);
    true
}

impl ChatMessage {
    pub fn new(username: String, content: String) -> (m: ChatMessage)
        ensures
            m.username@ == username@,
            m.content@ == content@,
    {
        ChatMessage { username, content }
    }

    /// The identification envelope a client sends first: its name, no content.
    pub fn identification(username: String) -> (m: ChatMessage)
        ensures
            m.username@ == username@,
            m.content@ == Seq::<char>::empty(),
    {
        ChatMessage { username, content: String::new() }
    }

    /// The human-readable form of the message.
    pub fn to_display_string(&self) -> (r: String)
        ensures
            r@ == display_text(self.username@, self.content@),
    {
        let mut r = self.username.clone();
        r.append(": ");
        r.append(self.content.as_str());
        proof {
            reveal_strlit(": ");
        }
        r
    }
}

} // verus!
