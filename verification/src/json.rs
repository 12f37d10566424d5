//! Compact JSON text.
//!
//! The text of a JSON value is modelled as a sequence of characters. The spec
//! functions of this module say what the text of a string, an array and an
//! object is; the executable writers append exactly that text to a `String`.
//! Nothing is printed between the tokens: no space, no line break.
//!
//! A string is written with the shortest escape for each character that JSON
//! does not allow bare: `\"` and `\\`, the five short forms `\b`, `\f`, `\n`,
//! `\r`, `\t`, and `\u00XX` with lower-case hex digits for every other
//! character below U+0020. All other characters, U+007F and everything
//! outside ASCII included, stand for themselves.
//!
//! The module also says how such a string is read, and proves that reading
//! gives back what was written and stops where the string ends.
use vstd::prelude::*;
use vstd::std_specs::iter::IteratorSpec;

verus! {

/// `String::push` of the standard library: the string afterwards holds the
/// characters it held before, followed by `ch`. Taken on trust from the
/// documentation of std ("Appends the given char to the end of this String").
pub assume_specification[ String::push ](s: &mut String, ch: char)
    ensures
        final(s)@ == old(s)@.push(ch),
;

// Writing.

/// The lower-case hexadecimal digit for `n`.
pub open spec fn hex_digit(n: int) -> char
    recommends
        0 <= n < 16,
{
    seq!['0', '1', '2', '3', '4', '5', '6', '7', '8', '9', 'a', 'b', 'c', 'd', 'e', 'f'][n]
}

/// Whether `c` may not stand bare inside a JSON string.
pub open spec fn needs_escape(c: char) -> bool {
    c == '"' || c == '\\' || (c as u32) < 0x20
}

/// Whether every character of `s` may stand bare inside a JSON string.
pub open spec fn is_plain(s: Seq<char>) -> bool {
    forall|i: int| 0 <= i < s.len() ==> !needs_escape(#[trigger] s[i])
}

/// The text that stands for the character `c` inside a JSON string.
pub open spec fn escape_char(c: char) -> Seq<char> {
    if c == '"' {
        seq!['\\', '"']
    } else if c == '\\' {
        seq!['\\', '\\']
    } else if c == '\u{08}' {
        seq!['\\', 'b']
    } else if c == '\u{0c}' {
        seq!['\\', 'f']
    } else if c == '\n' {
        seq!['\\', 'n']
    } else if c == '\r' {
        seq!['\\', 'r']
    } else if c == '\t' {
        seq!['\\', 't']
    } else if (c as u32) < 0x20 {
        seq!['\\', 'u', '0', '0', hex_digit((c as u32) as int / 16), hex_digit((c as u32) as int % 16)]
    } else {
        seq![c]
    }
}

/// The text between the quotes of the JSON string for `s`: the escapes of its
/// characters, in order.
pub open spec fn escape(s: Seq<char>) -> Seq<char>
    decreases s.len(),
{
    if s.len() == 0 {
        Seq::empty()
    } else {
        escape(s.drop_last()) + escape_char(s.last())
    }
}

/// The JSON string for `s`, quotes included.
pub open spec fn json_string(s: Seq<char>) -> Seq<char> {
    seq!['"'] + escape(s) + seq!['"']
}

/// One member of an object: the key as a JSON string, a colon, the text of
/// the value.
pub open spec fn json_member(key: Seq<char>, value: Seq<char>) -> Seq<char> {
    json_string(key) + seq![':'] + value
}

/// The texts `items`, in order, with one comma between neighbours.
pub open spec fn comma_separated(items: Seq<Seq<char>>) -> Seq<char>
    decreases items.len(),
{
    if items.len() == 0 {
        Seq::empty()
    } else if items.len() == 1 {
        items[0]
    } else {
        comma_separated(items.drop_last()) + seq![','] + items.last()
    }
}

/// The JSON array whose elements have the texts `items`.
pub open spec fn json_array(items: Seq<Seq<char>>) -> Seq<char> {
    seq!['['] + comma_separated(items) + seq![']']
}

/// The JSON object whose members have the texts `members`.
pub open spec fn json_object(members: Seq<Seq<char>>) -> Seq<char> {
    seq!['{'] + comma_separated(members) + seq!['}']
}

// Reading.

/// The number that the hexadecimal digit `c` stands for, if it is one in
/// lower case.
pub open spec fn hex_value(c: char) -> Option<int> {
    if '0' as u32 <= c as u32 <= '9' as u32 {
        Some(c as u32 - '0' as u32)
    } else if 'a' as u32 <= c as u32 <= 'f' as u32 {
        Some(c as u32 - 'a' as u32 + 10)
    } else {
        None
    }
}

/// Reads the escape at the head of `t`: the character it stands for, and how
/// many characters of `t` it takes. `None` where `t` does not begin with an
/// escape as `escape_char` writes them.
pub open spec fn read_escape(t: Seq<char>) -> Option<(char, int)> {
    if t.len() == 0 {
        None
    } else if t[0] != '\\' {
        if needs_escape(t[0]) {
            None
        } else {
            Some((t[0], 1))
        }
    } else if t.len() < 2 {
        None
    } else if t[1] == '"' {
        Some(('"', 2))
    } else if t[1] == '\\' {
        Some(('\\', 2))
    } else if t[1] == 'b' {
        Some(('\u{08}', 2))
    } else if t[1] == 'f' {
        Some(('\u{0c}', 2))
    } else if t[1] == 'n' {
        Some(('\n', 2))
    } else if t[1] == 'r' {
        Some(('\r', 2))
    } else if t[1] == 't' {
        Some(('\t', 2))
    } else if t[1] == 'u' && t.len() >= 6 && t[2] == '0' && t[3] == '0' {
        match (hex_value(t[4]), hex_value(t[5])) {
            (Some(high), Some(low)) => Some(((high * 16 + low) as u8 as char, 6)),
            _ => None,
        }
    } else {
        None
    }
}

/// Reads the inside of a JSON string from the head of `t`, up to the first
/// quote that no backslash guards: the characters that the escapes before
/// that quote stand for, and how many characters of `t` they take. `None`
/// where no such quote comes, or where something before it is not an escape
/// as `escape_char` writes them.
pub open spec fn read_string_body(t: Seq<char>) -> Option<(Seq<char>, int)>
    decreases t.len(),
{
    if t.len() == 0 {
        None
    } else if t[0] == '"' {
        Some((Seq::empty(), 0))
    } else {
        match read_escape(t) {
            None => None,
            Some((c, n)) => {
                if 0 < n <= t.len() {
                    match read_string_body(t.skip(n)) {
                        None => None,
                        Some((rest, m)) => Some((seq![c] + rest, n + m)),
                    }
                } else {
                    None
                }
            },
        }
    }
}

/// Reads the JSON string at the head of `t`: the text it stands for, and how
/// many characters of `t` it takes, the two quotes included.
pub open spec fn read_string(t: Seq<char>) -> Option<(Seq<char>, int)> {
    if t.len() > 0 && t[0] == '"' {
        match read_string_body(t.skip(1)) {
            None => None,
            Some((text, n)) => Some((text, n + 2)),
        }
    } else {
        None
    }
}

// What holds of the two.

/// A single text stands alone, without a comma.
pub proof fn lemma_comma_separated_one(item: Seq<char>)
    ensures
        comma_separated(seq![item]) == item,
{
}

/// Each further text is set off from those before it by one comma.
pub proof fn lemma_comma_separated_push(items: Seq<Seq<char>>, next: Seq<char>)
    requires
        items.len() > 0,
    ensures
        comma_separated(items.push(next)) == comma_separated(items) + seq![','] + next,
{
    assert(items.push(next).drop_last() =~= items);
}

/// Every escape is one, two or six characters long; it is the character
/// itself exactly where the character needs no escape, and begins with a
/// backslash where it does.
pub proof fn lemma_escape_char_shape(c: char)
    ensures
        escape_char(c).len() == 1 || escape_char(c).len() == 2 || escape_char(c).len() == 6,
        !needs_escape(c) <==> escape_char(c) == seq![c],
        needs_escape(c) ==> escape_char(c)[0] == '\\',
{
    if !needs_escape(c) {
        assert(c != '\u{08}' && c != '\u{0c}' && c != '\n' && c != '\r' && c != '\t');
    } else {
        assert(escape_char(c).len() >= 2);
        assert(seq![c].len() == 1);
    }
}

/// The escape of a one-character text is the escape of the character.
pub proof fn lemma_escape_one(c: char)
    ensures
        escape(seq![c]) == escape_char(c),
{
    assert(seq![c].drop_last() =~= Seq::<char>::empty());
    assert(escape(seq![c]) =~= escape_char(c)) by {
        reveal_with_fuel(escape, 2);
    }
}

/// Escaping goes character by character: the escape of a concatenation is the
/// concatenation of the escapes.
pub proof fn lemma_escape_concat(a: Seq<char>, b: Seq<char>)
    ensures
        escape(a + b) == escape(a) + escape(b),
    decreases b.len(),
{
    if b.len() == 0 {
        assert(a + b =~= a);
        assert(escape(a) + escape(b) =~= escape(a));
    } else {
        lemma_escape_concat(a, b.drop_last());
        assert((a + b).drop_last() =~= a + b.drop_last());
        assert((a + b).last() == b.last());
        assert(escape(a + b) =~= escape(a) + escape(b));
    }
}

/// A text without a quote, a backslash or a control character is its own
/// escape: it goes between the quotes unchanged.
pub proof fn lemma_escape_plain(s: Seq<char>)
    requires
        is_plain(s),
    ensures
        escape(s) == s,
    decreases s.len(),
{
    if s.len() > 0 {
        lemma_escape_plain(s.drop_last());
        assert(!needs_escape(s.last()));
        assert(s.drop_last() + seq![s.last()] =~= s);
    }
}

/// The escape of a character, with anything behind it, is read back as that
/// character, and the reading stops where the escape ends.
pub proof fn lemma_read_escape(c: char, behind: Seq<char>)
    ensures
        read_escape(escape_char(c) + behind) == Some((c, escape_char(c).len() as int)),
{
    let e = escape_char(c);
    let t = e + behind;
    assert(forall|i: int| 0 <= i < e.len() ==> t[i] == e[i]);
    if (c as u32) < 0x20 && c != '\u{08}' && c != '\u{0c}' && c != '\n' && c != '\r' && c
        != '\t' {
        let code = (c as u32) as int;
        let high = code / 16;
        let low = code % 16;
        assert(0 <= high < 2 && 0 <= low < 16);
        assert(e.len() == 6);
        assert(t[0] == '\\' && t[1] == 'u' && t[2] == '0' && t[3] == '0');
        assert(t[4] == hex_digit(high) && t[5] == hex_digit(low));
        assert(hex_value(hex_digit(high)) == Some(high));
        assert(hex_value(hex_digit(low)) == Some(low));
        assert(high * 16 + low == code);
        assert((code as u8) as char == c);
    } else if needs_escape(c) {
        assert(e.len() == 2);
        assert(t[0] == e[0] && t[1] == e[1]);
    } else {
        assert(e.len() == 1);
        assert(t[0] == c);
    }
}

/// What `escape` writes is read back as it was given, and the reading stops
/// at the quote behind it: no character of the text is lost, added or
/// changed, and none of them ends the string early, whatever follows.
pub proof fn lemma_read_string_body(s: Seq<char>, behind: Seq<char>)
    ensures
        read_string_body(escape(s) + seq!['"'] + behind) == Some((s, escape(s).len() as int)),
    decreases s.len(),
{
    let t = escape(s) + seq!['"'] + behind;
    if s.len() == 0 {
        assert(escape(s) =~= Seq::<char>::empty());
        assert(t[0] == '"');
    } else {
        let c = s[0];
        let rest = s.drop_first();
        assert(s =~= seq![c] + rest);
        lemma_escape_concat(seq![c], rest);
        lemma_escape_one(c);
        let tail = escape(rest) + seq!['"'] + behind;
        assert(t =~= escape_char(c) + tail);
        lemma_read_escape(c, tail);
        lemma_escape_char_shape(c);
        let n = escape_char(c).len() as int;
        assert(t[0] == escape_char(c)[0]);
        assert(t[0] != '"');
        assert(t.skip(n) =~= tail);
        lemma_read_string_body(rest, behind);
        assert(escape(s).len() == n + escape(rest).len());
    }
}

/// The JSON string for a text is read back as that text, whatever follows
/// the string.
pub proof fn lemma_read_string(s: Seq<char>, behind: Seq<char>)
    ensures
        read_string(json_string(s) + behind) == Some((s, json_string(s).len() as int)),
{
    let t = json_string(s) + behind;
    assert(t[0] == '"');
    assert(t.skip(1) =~= escape(s) + seq!['"'] + behind);
    lemma_read_string_body(s, behind);
}

/// Two texts with the same escape are the same text.
pub proof fn lemma_escape_injective(a: Seq<char>, b: Seq<char>)
    requires
        escape(a) == escape(b),
    ensures
        a == b,
{
    lemma_read_string_body(a, Seq::empty());
    lemma_read_string_body(b, Seq::empty());
}

// The writers.

/// The lower-case hexadecimal digit for `n`.
fn hex_digit_of(n: u8) -> (c: char)
    requires
        n < 16,
    ensures
        c == hex_digit(n as int),
{
    match n {
        0 => '0',
        1 => '1',
        2 => '2',
        3 => '3',
        4 => '4',
        5 => '5',
        6 => '6',
        7 => '7',
        8 => '8',
        9 => '9',
        10 => 'a',
        11 => 'b',
        12 => 'c',
        13 => 'd',
        14 => 'e',
        _ => 'f',
    }
}

/// Appends to `out` what stands for `c` inside a JSON string.
pub fn write_escaped_char(out: &mut String, c: char)
    ensures
        final(out)@ == old(out)@ + escape_char(c),
{
    let code: u32 = c as u32;
    if c == '"' {
        out.push('\\');
        out.push('"');
    } else if c == '\\' {
        out.push('\\');
        out.push('\\');
    } else if c == '\u{08}' {
        out.push('\\');
        out.push('b');
    } else if c == '\u{0c}' {
        out.push('\\');
        out.push('f');
    } else if c == '\n' {
        out.push('\\');
        out.push('n');
    } else if c == '\r' {
        out.push('\\');
        out.push('r');
    } else if c == '\t' {
        out.push('\\');
        out.push('t');
    } else if code < 0x20 {
        let high: u8 = (code / 16) as u8;
        let low: u8 = (code % 16) as u8;
        out.push('\\');
        out.push('u');
        out.push('0');
        out.push('0');
        out.push(hex_digit_of(high));
        out.push(hex_digit_of(low));
    } else {
        out.push(c);
    }
    assert(out@ =~= old(out)@ + escape_char(c));
}

/// Appends to `out` the escapes of the characters of `text`, without quotes.
pub fn write_escaped(out: &mut String, text: &str)
    ensures
        final(out)@ == old(out)@ + escape(text@),
{
    let mut rest = text.chars();
    let ghost mut done: Seq<char> = Seq::empty();
    assert(old(out)@ + escape(done) =~= old(out)@);
    loop
        invariant
            rest.obeys_prophetic_iter_laws(),
            rest.decrease() is Some,
            done + rest.remaining() == text@,
            out@ == old(out)@ + escape(done),
        decreases rest.decrease()->0,
    {
        match rest.next() {
            None => {
                assert(done =~= text@);
                return ;
            },
            Some(c) => {
                write_escaped_char(out, c);
                proof {
                    assert(done.push(c).drop_last() =~= done);
                    assert(out@ =~= old(out)@ + escape(done.push(c)));
                    assert(done.push(c) + rest.remaining() =~= text@);
                    done = done.push(c);
                }
            },
        }
    }
}

/// Appends to `out` the JSON string for `text`, quotes included.
pub fn write_string(out: &mut String, text: &str)
    ensures
        final(out)@ == old(out)@ + json_string(text@),
{
    out.push('"');
    write_escaped(out, text);
    out.push('"');
    assert(out@ =~= old(out)@ + json_string(text@));
}

/// Appends to `out` the key of an object's member and the colon behind it;
/// the text of the member's value goes next.
pub fn write_key(out: &mut String, key: &str)
    ensures
        final(out)@ == old(out)@ + json_string(key@) + seq![':'],
{
    write_string(out, key);
    out.push(':');
    assert(out@ =~= old(out)@ + json_string(key@) + seq![':']);
}

/// Appends to `out` a member whose value is a string.
pub fn write_string_member(out: &mut String, key: &str, value: &str)
    ensures
        final(out)@ == old(out)@ + json_member(key@, json_string(value@)),
{
    write_key(out, key);
    write_string(out, value);
    assert(out@ =~= old(out)@ + json_member(key@, json_string(value@)));
}

/// The JSON string for `text`, quotes included.
pub fn to_json_string(text: &str) -> (out: String)
    ensures
        out@ == json_string(text@),
{
    let mut out = String::new();
    write_string(&mut out, text);
    assert(out@ =~= json_string(text@));
    out
}

} // verus!
