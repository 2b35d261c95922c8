//! Player chat: the line a message becomes, in vanilla's `<Name> message`
//! shape.
//!
//! A client renders a literal string through its legacy formatter, so a
//! section sign a player typed would be a formatting instruction rather than
//! a character: it could recolour their own text or draw a line that reads
//! as a server notice. Every section sign is dropped from what a player
//! typed before it is shown.
use crate::screen::{styled, Styled, Text};
use crate::text::{is_space, push_char, push_str, space};
use vstd::prelude::*;

verus! {

/// The section sign that starts a legacy formatting code.
pub open spec fn section() -> char {
    '\u{a7}'
}

/// `s` with every section sign removed, and every other character kept in
/// order.
pub open spec fn stripped(s: Seq<char>) -> Seq<char>
    decreases s.len(),
{
    if s.len() == 0 {
        seq![]
    } else if s.last() == section() {
        stripped(s.drop_last())
    } else {
        stripped(s.drop_last()).push(s.last())
    }
}

/// `message` with its formatting codes' section signs dropped.
pub fn strip_formatting(message: &str) -> (s: String)
    ensures
        s@ == stripped(message@),
{
    let mut out = String::new();
    let n = message.unicode_len();
    let mut i: usize = 0;
    while i < n
        invariant
            i <= n,
            n == message@.len(),
            out@ == stripped(message@.take(i as int)),
        decreases n - i,
    {
        let c = message.get_char(i);
        assert(message@.take(i + 1).drop_last() =~= message@.take(i as int));
        if c != '\u{a7}' {
            push_char(&mut out, c);
        }
        i += 1;
    }
    assert(message@.take(n as int) =~= message@);
    out
}

/// The chat line for one message, as a client draws it.
pub open spec fn chat_line(speaker: Seq<char>, message: Seq<char>) -> Styled {
    styled(seq!['<'] + speaker + "> "@ + stripped(message), None, false)
}

/// The chat line for one message, exactly as a client draws it.
pub fn line(speaker: &str, message: &str) -> (t: Text)
    ensures
        t@ == chat_line(speaker@, message@),
{
    let mut s = String::new();
    push_char(&mut s, '<');
    push_str(&mut s, speaker);
    push_str(&mut s, "> ");
    let body = strip_formatting(message);
    push_str(&mut s, body.as_str());
    assert(s@ =~= seq!['<'] + speaker@ + "> "@ + stripped(message@));
    Text::text(s)
}

/// Whether every character of `s` is white space.
pub open spec fn blank(s: Seq<char>) -> bool {
    forall|i: int| 0 <= i < s.len() ==> is_space(#[trigger] s[i])
}

/// What a message sent by `speaker` puts in chat: nothing when it is white
/// space only, which a client will happily send, and its line otherwise.
pub fn message_line(speaker: &str, message: &str) -> (t: Option<Text>)
    ensures
        match t {
            Some(l) => !blank(message@) && l@ == chat_line(speaker@, message@),
            None => blank(message@),
        },
{
    let n = message.unicode_len();
    let mut i: usize = 0;
    while i < n
        invariant
            i <= n,
            n == message@.len(),
            forall|k: int| 0 <= k < i ==> is_space(#[trigger] message@[k]),
        decreases n - i,
    {
        if !space(message.get_char(i)) {
            return Some(line(speaker, message));
        }
        i += 1;
    }
    None
}

/// Nothing a player typed can leave a section sign in their line.
pub proof fn law_stripped_text_has_no_section_sign(s: Seq<char>)
    ensures
        !stripped(s).contains(section()),
    decreases s.len(),
{
    if s.len() > 0 {
        law_stripped_text_has_no_section_sign(s.drop_last());
        let t = stripped(s.drop_last());
        if s.last() != section() {
            assert forall|i: int| 0 <= i < t.push(s.last()).len() implies t.push(s.last())[i]
                != section() by {
                if i < t.len() {
                    assert(t.push(s.last())[i] == t[i]);
                    if t[i] == section() {
                        assert(t.contains(section()));
                    }
                }
            }
        }
    }
}

/// Stripping twice is stripping once.
pub proof fn law_stripping_is_idempotent(s: Seq<char>)
    ensures
        stripped(stripped(s)) == stripped(s),
{
    law_stripped_text_has_no_section_sign(s);
    law_plain_messages_are_untouched(stripped(s));
}

/// A message with no section sign in it is shown exactly as it was typed.
pub proof fn law_plain_messages_are_untouched(s: Seq<char>)
    requires
        !s.contains(section()),
    ensures
        stripped(s) == s,
    decreases s.len(),
{
    if s.len() > 0 {
        assert(!s.drop_last().contains(section())) by {
            if s.drop_last().contains(section()) {
                let i = choose|i: int| 0 <= i < s.drop_last().len() && s.drop_last()[i] == section();
                assert(s[i] == section());
            }
        }
        law_plain_messages_are_untouched(s.drop_last());
        assert(s.last() != section()) by {
            assert(s[s.len() - 1] == s.last());
        }
        assert(s.drop_last().push(s.last()) =~= s);
    }
}

} // verus!
