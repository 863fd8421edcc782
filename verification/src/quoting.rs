//! Strings as JSON writes them: between double quotes, with the characters
//! that JSON cannot hold as they are written as escapes.

use vstd::prelude::*;
use vstd::string::*;
use crate::text::push_char;

verus! {

/// The sixteen digits of the escapes for control characters.
pub open spec fn hex_digits() -> Seq<char> {
    "0123456789abcdef"@
}

/// Whether `c` has to be written as an escape: the double quote, the
/// backslash and the control characters below the space.
pub open spec fn needs_escape(c: char) -> bool {
    c == '"' || c == '\\' || (c as u32) < 0x20
}

/// One character as it stands inside a JSON string. The double quote and
/// the backslash get a backslash in front; backspace, tab, line feed, form
/// feed and carriage return have a letter; the other control characters are
/// written as `\u00` and two digits; every other character stands for
/// itself.
pub open spec fn escaped_char(c: char) -> Seq<char> {
    if c == '"' {
        seq!['\\', '"']
    } else if c == '\\' {
        seq!['\\', '\\']
    } else if c == '\u{8}' {
        seq!['\\', 'b']
    } else if c == '\t' {
        seq!['\\', 't']
    } else if c == '\n' {
        seq!['\\', 'n']
    } else if c == '\u{c}' {
        seq!['\\', 'f']
    } else if c == '\r' {
        seq!['\\', 'r']
    } else if (c as u32) < 0x20 {
        seq![
            '\\',
            'u',
            '0',
            '0',
            hex_digits()[(c as u32 / 16) as int],
            hex_digits()[(c as u32 % 16) as int],
        ]
    } else {
        seq![c]
    }
}

/// The characters of `s` as they stand inside a JSON string.
pub open spec fn escaped(s: Seq<char>) -> Seq<char>
    decreases s.len(),
{
    if s.len() == 0 {
        Seq::empty()
    } else {
        escaped_char(s[0]) + escaped(s.drop_first())
    }
}

/// `s` as a JSON string.
pub open spec fn quoted(s: Seq<char>) -> Seq<char> {
    seq!['"'] + escaped(s) + seq!['"']
}

/// The sixteen digits are sixteen different characters, none of them a
/// letter that an escape uses in their place.
proof fn lemma_hex_digits()
    ensures
        hex_digits().len() == 16,
        forall|i: int, j: int|
            0 <= i < 16 && 0 <= j < 16 && hex_digits()[i] == hex_digits()[j] ==> i == j,
{
    reveal_strlit("0123456789abcdef");
    let d = hex_digits();
    assert(d.len() == 16);
    assert(d[0] == '0' && d[1] == '1' && d[2] == '2' && d[3] == '3');
    assert(d[4] == '4' && d[5] == '5' && d[6] == '6' && d[7] == '7');
    assert(d[8] == '8' && d[9] == '9' && d[10] == 'a' && d[11] == 'b');
    assert(d[12] == 'c' && d[13] == 'd' && d[14] == 'e' && d[15] == 'f');
}

/// What one character is written as begins with a backslash exactly when
/// the character needs an escape; without one it is the character alone.
pub proof fn lemma_escaped_char_shape(c: char)
    ensures
        escaped_char(c).len() >= 1,
        escaped_char(c)[0] == '\\' <==> needs_escape(c),
        !needs_escape(c) ==> escaped_char(c) == seq![c],
        needs_escape(c) ==> escaped_char(c).len() >= 2,
{
}

/// What stands first in a text tells what character was written: two
/// texts that are equal begin with the same character, and go on alike.
pub proof fn lemma_escaped_char_injective(c: char, x: Seq<char>, d: char, y: Seq<char>)
    requires
        escaped_char(c) + x == escaped_char(d) + y,
    ensures
        c == d,
        x == y,
{
    lemma_hex_digits();
    lemma_escaped_char_shape(c);
    lemma_escaped_char_shape(d);
    let left = escaped_char(c) + x;
    let right = escaped_char(d) + y;
    assert(left[0] == escaped_char(c)[0]);
    assert(right[0] == escaped_char(d)[0]);
    if needs_escape(c) {
        assert(needs_escape(d));
        assert(left[1] == escaped_char(c)[1]);
        assert(right[1] == escaped_char(d)[1]);
        if escaped_char(c)[1] == 'u' {
            assert(escaped_char(d)[1] == 'u');
            assert(escaped_char(c).len() == 6 && escaped_char(d).len() == 6);
            assert(left[4] == escaped_char(c)[4] && left[5] == escaped_char(c)[5]);
            assert(right[4] == escaped_char(d)[4] && right[5] == escaped_char(d)[5]);
            let ch: int = (c as u32 / 16) as int;
            let cl: int = (c as u32 % 16) as int;
            let dh: int = (d as u32 / 16) as int;
            let dl: int = (d as u32 % 16) as int;
            assert(hex_digits()[ch] == hex_digits()[dh]);
            assert(hex_digits()[cl] == hex_digits()[dl]);
            assert(ch == dh && cl == dl);
            assert(c as u32 == d as u32);
        }
    }
    assert(c == d);
    assert(x =~= left.skip(escaped_char(c).len() as int));
    assert(y =~= right.skip(escaped_char(d).len() as int));
}

/// Writing a string and then one more character is writing the string with
/// that character at its end.
pub proof fn lemma_escaped_push(s: Seq<char>, c: char)
    ensures
        escaped(s.push(c)) == escaped(s) + escaped_char(c),
    decreases s.len(),
{
    if s.len() == 0 {
        assert(s.push(c).drop_first() =~= Seq::<char>::empty());
        assert(escaped(s.push(c).drop_first()) =~= Seq::<char>::empty());
        assert(escaped(s.push(c)) =~= escaped_char(c));
        assert(escaped(s) + escaped_char(c) =~= escaped_char(c));
    } else {
        assert(s.push(c).drop_first() =~= s.drop_first().push(c));
        lemma_escaped_push(s.drop_first(), c);
        assert(escaped(s.push(c)) =~= escaped(s) + escaped_char(c));
    }
}

/// A string without characters that need an escape is written as it
/// stands.
pub proof fn lemma_escaped_plain(s: Seq<char>)
    requires
        forall|i: int| 0 <= i < s.len() ==> !needs_escape(#[trigger] s[i]),
    ensures
        escaped(s) == s,
        quoted(s) == seq!['"'] + s + seq!['"'],
    decreases s.len(),
{
    if s.len() > 0 {
        let rest = s.drop_first();
        assert forall|i: int| 0 <= i < rest.len() implies !needs_escape(#[trigger] rest[i]) by {
            assert(rest[i] == s[i + 1]);
        }
        lemma_escaped_plain(rest);
        assert(!needs_escape(s[0]));
        assert(escaped(s) =~= s);
    } else {
        assert(escaped(s) =~= s);
    }
}

/// Two strings that are written alike are the same string.
pub proof fn lemma_escaped_injective(a: Seq<char>, b: Seq<char>)
    requires
        escaped(a) == escaped(b),
    ensures
        a == b,
    decreases a.len(),
{
    if a.len() == 0 {
        if b.len() > 0 {
            lemma_escaped_char_shape(b[0]);
            assert(escaped(b).len() >= 1);
        }
        assert(a =~= b);
    } else if b.len() == 0 {
        lemma_escaped_char_shape(a[0]);
        assert(escaped(a).len() >= 1);
    } else {
        lemma_escaped_char_injective(a[0], escaped(a.drop_first()), b[0], escaped(b.drop_first()));
        lemma_escaped_injective(a.drop_first(), b.drop_first());
        assert(a =~= seq![a[0]] + a.drop_first());
        assert(b =~= seq![b[0]] + b.drop_first());
    }
}

/// Two strings that are alike as JSON strings are the same string.
pub proof fn lemma_quoted_injective(a: Seq<char>, b: Seq<char>)
    requires
        quoted(a) == quoted(b),
    ensures
        a == b,
{
    let qa = quoted(a);
    let qb = quoted(b);
    assert(qa.len() == escaped(a).len() + 2);
    assert(qb.len() == escaped(b).len() + 2);
    assert(escaped(a) =~= qa.subrange(1, 1 + escaped(a).len() as int));
    assert(escaped(b) =~= qb.subrange(1, 1 + escaped(b).len() as int));
    lemma_escaped_injective(a, b);
}

/// Appends one character as it stands inside a JSON string.
fn append_escaped_char(out: &mut String, c: char)
    ensures
        final(out)@ == old(out)@ + escaped_char(c),
{
    proof {
        reveal_strlit("0123456789abcdef");
    }
    let ghost before = out@;
    if c == '"' {
        push_char(out, '\\');
        push_char(out, '"');
    } else if c == '\\' {
        push_char(out, '\\');
        push_char(out, '\\');
    } else if c == '\u{8}' {
        push_char(out, '\\');
        push_char(out, 'b');
    } else if c == '\t' {
        push_char(out, '\\');
        push_char(out, 't');
    } else if c == '\n' {
        push_char(out, '\\');
        push_char(out, 'n');
    } else if c == '\u{c}' {
        push_char(out, '\\');
        push_char(out, 'f');
    } else if c == '\r' {
        push_char(out, '\\');
        push_char(out, 'r');
    } else if (c as u32) < 0x20 {
        let code: u32 = c as u32;
        let high: usize = (code / 16) as usize;
        let low: usize = (code % 16) as usize;
        push_char(out, '\\');
        push_char(out, 'u');
        push_char(out, '0');
        push_char(out, '0');
        push_char(out, "0123456789abcdef".get_char(high));
        push_char(out, "0123456789abcdef".get_char(low));
    } else {
        push_char(out, c);
    }
    assert(out@ =~= before + escaped_char(c));
}

/// Appends `s` as a JSON string.
pub fn append_quoted(out: &mut String, s: &str)
    ensures
        final(out)@ == old(out)@ + quoted(s@),
{
    let ghost before = out@;
    push_char(out, '"');
    let n: usize = s.unicode_len();
    let mut i: usize = 0;
    proof {
        assert(s@.take(0) =~= Seq::<char>::empty());
        assert(out@ =~= before + seq!['"'] + escaped(s@.take(0)));
    }
    while i < n
        invariant
            i <= n,
            n == s@.len(),
            out@ == before + seq!['"'] + escaped(s@.take(i as int)),
        decreases n - i,
    {
        let c = s.get_char(i);
        proof {
            lemma_escaped_push(s@.take(i as int), c);
            assert(s@.take(i + 1) =~= s@.take(i as int).push(c));
        }
        append_escaped_char(out, c);
        assert(out@ =~= before + seq!['"'] + escaped(s@.take(i + 1)));
        i = i + 1;
    }
    proof {
        assert(s@.take(n as int) =~= s@);
    }
    push_char(out, '"');
    assert(out@ =~= before + quoted(s@));
}

/// `s` as a JSON string.
pub fn quote(s: &str) -> (text: String)
    ensures
        text@ == quoted(s@),
{
    let mut text = String::new();
    append_quoted(&mut text, s);
    assert(text@ =~= quoted(s@));
    text
}

} // verus!
