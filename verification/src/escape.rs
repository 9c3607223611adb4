//! Text inside a quoted string of a message: what has to be escaped, and how.

use vstd::prelude::*;
use vstd::string::StringExecFns;
use crate::text::{push_chars, to_chars};

verus! {

/// The character for a hexadecimal digit, in lower case.
pub open spec fn hex_char(d: nat) -> char {
    if d < 10 {
        ('0' as nat + d) as char
    } else {
        ('a' as nat + d - 10) as char
    }
}

/// The value of a hexadecimal digit in lower case.
pub open spec fn hex_value(c: char) -> Option<nat> {
    if '0' <= c <= '9' {
        Some((c as u32 - '0' as u32) as nat)
    } else if 'a' <= c <= 'f' {
        Some((c as u32 - 'a' as u32 + 10) as nat)
    } else {
        None
    }
}

/// Whether `c` cannot stand in a quoted string as it is: the double quote,
/// the backslash and the control characters.
pub open spec fn needs_escape(c: char) -> bool {
    c == '"' || c == '\\' || (c as u32) < 0x20
}

/// What stands for `c` in a quoted string: a backslash before a double quote
/// or a backslash, `\u00` and two hexadecimal digits for a control character,
/// and any other character itself.
pub open spec fn escape_char(c: char) -> Seq<char> {
    if c == '"' || c == '\\' {
        seq!['\\', c]
    } else if (c as u32) < 0x20 {
        seq!['\\', 'u', '0', '0', hex_char(c as u32 as nat / 16), hex_char(c as u32 as nat % 16)]
    } else {
        seq![c]
    }
}

/// What stands for `s` in a quoted string.
pub open spec fn escaped(s: Seq<char>) -> Seq<char>
    decreases s.len(),
{
    if s.len() == 0 {
        Seq::empty()
    } else {
        escape_char(s.first()) + escaped(s.drop_first())
    }
}

/// `c` before `rest`, where there is a rest.
pub open spec fn before(c: char, rest: Option<Seq<char>>) -> Option<Seq<char>> {
    match rest {
        Some(tail) => Some(seq![c] + tail),
        None => None,
    }
}

/// The text that `t` stands for in a quoted string, if `t` is well formed: it
/// holds no bare double quote and no control character, and each backslash
/// begins one of the three forms that `escape_char` writes.
pub open spec fn unescaped(t: Seq<char>) -> Option<Seq<char>>
    decreases t.len(),
{
    if t.len() == 0 {
        Some(Seq::empty())
    } else if t[0] == '"' || (t[0] as u32) < 0x20 {
        None
    } else if t[0] != '\\' {
        before(t[0], unescaped(t.skip(1)))
    } else if t.len() >= 2 && (t[1] == '"' || t[1] == '\\') {
        before(t[1], unescaped(t.skip(2)))
    } else if t.len() >= 6 && t[1] == 'u' && t[2] == '0' && t[3] == '0' {
        match (hex_value(t[4]), hex_value(t[5])) {
            (Some(high), Some(low)) => if high * 16 + low < 0x20 {
                before(((high * 16 + low) as u32) as char, unescaped(t.skip(6)))
            } else {
                None
            },
            _ => None,
        }
    } else {
        None
    }
}

/// Escaping can be undone: the escaped text is well formed and stands for
/// the text that was escaped. So two texts that differ are escaped
/// differently, and no escaped text ends a quoted string early.
pub proof fn lemma_escape_round_trip(s: Seq<char>)
    ensures
        unescaped(escaped(s)) == Some(s),
    decreases s.len(),
{
    if s.len() > 0 {
        let c = s.first();
        let rest = s.drop_first();
        lemma_escape_round_trip(rest);
        assert(escaped(s).skip(escape_char(c).len() as int) =~= escaped(rest));
        if (c as u32) < 0x20 {
            let high = c as u32 as nat / 16;
            let low = c as u32 as nat % 16;
            assert(((high * 16 + low) as u32) as char == c) by {
                vstd::utf8::char_u32_cast(c, c as u32);
            }
        }
    }
}

/// Text that holds nothing to escape is escaped as itself.
pub proof fn lemma_escape_plain(s: Seq<char>)
    requires
        forall|i: int| 0 <= i < s.len() ==> !needs_escape(s[i]),
    ensures
        escaped(s) == s,
    decreases s.len(),
{
    if s.len() > 0 {
        lemma_escape_plain(s.drop_first());
    }
}

/// Escaped text holds no control character: a line feed in particular.
pub proof fn lemma_escaped_holds_no_control(s: Seq<char>)
    ensures
        forall|i: int| 0 <= i < escaped(s).len() ==> (#[trigger] escaped(s)[i] as u32) >= 0x20,
    decreases s.len(),
{
    if s.len() > 0 {
        let head = escape_char(s.first());
        let tail = escaped(s.drop_first());
        lemma_escaped_holds_no_control(s.drop_first());
        assert forall|i: int| 0 <= i < escaped(s).len() implies (#[trigger] escaped(s)[i] as u32)
            >= 0x20 by {
            if i >= head.len() {
                assert(escaped(s)[i] == tail[i - head.len()]);
            }
        }
    }
}

/// Escaping goes piece by piece.
pub proof fn lemma_escaped_concat(a: Seq<char>, b: Seq<char>)
    ensures
        escaped(a + b) == escaped(a) + escaped(b),
    decreases a.len(),
{
    if a.len() > 0 {
        lemma_escaped_concat(a.drop_first(), b);
        assert((a + b).drop_first() =~= a.drop_first() + b);
    }
}

fn hex_digit(d: u8) -> (c: char)
    requires
        d < 16,
    ensures
        c == hex_char(d as nat),
{
    if d < 10 {
        (48u8 + d) as char
    } else {
        (87u8 + d) as char
    }
}

/// Appends to `out` what stands for `s` in a quoted string.
pub fn push_escaped(out: &mut String, s: &str)
    ensures
        final(out)@ == old(out)@ + escaped(s@),
{
    let chars = to_chars(s);
    let mut i: usize = 0;
    while i < chars.len()
        invariant
            i <= chars@.len(),
            chars@ == s@,
            out@ == old(out)@ + escaped(chars@.take(i as int)),
        decreases chars@.len() - i,
    {
        let c = chars[i];
        proof {
            lemma_escaped_concat(chars@.take(i as int), seq![c]);
            assert(chars@.take(i as int) + seq![c] =~= chars@.take(i + 1));
            assert(escaped(seq![c]) =~= escape_char(c)) by {
                assert(seq![c].drop_first() =~= Seq::<char>::empty());
                assert(escaped(Seq::<char>::empty()) =~= Seq::<char>::empty());
            }
        }
        if c == '"' || c == '\\' {
            let pair: [char; 2] = ['\\', c];
            push_chars(out, pair.as_slice());
        } else if (c as u32) < 0x20 {
            let code: u32 = c as u32;
            let form: [char; 6] = [
                '\\',
                'u',
                '0',
                '0',
                hex_digit((code / 16) as u8),
                hex_digit((code % 16) as u8),
            ];
            push_chars(out, form.as_slice());
        } else {
            let one: [char; 1] = [c];
            push_chars(out, one.as_slice());
        }
        i = i + 1;
    }
    assert(chars@.take(i as int) =~= chars@);
}

/// What stands for `s` in a quoted string.
pub fn escape(s: &str) -> (out: String)
    ensures
        out@ == escaped(s@),
{
    let mut out = String::new();
    push_escaped(&mut out, s);
    out
}

} // verus!
