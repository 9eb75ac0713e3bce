//! JSON string literals: how `serde_json` writes a text as one, and how such a
//! literal reads back as the text.

use vstd::prelude::*;

verus! {

/// The lower-case hexadecimal digit of a value below sixteen.
pub open spec fn hex_digit(d: nat) -> char {
    if d < 10 {
        ((d + 48) as u32) as char
    } else {
        ((d + 87) as u32) as char
    }
}

/// What a character becomes inside a JSON string literal as `serde_json`
/// writes it: `"` and `\` and the control characters below U+0020 are escaped
/// (the usual short forms where JSON has one, `\u00XX` otherwise); every other
/// character stands for itself.
pub open spec fn json_char_spec(c: char) -> Seq<char> {
    if c == '"' {
        seq!['\\', '"']
    } else if c == '\\' {
        seq!['\\', '\\']
    } else if c == '\u{8}' {
        seq!['\\', 'b']
    } else if c == '\t' {
        seq!['\\', 't']
    } else if c == '\n' {
        seq!['\\', 'n']
    } else if c == '\u{c}' {
        seq!['\\', 'f']
    } else if c == '\r' {
        seq!['\\', 'r']
    } else if (c as u32) < 0x20 {
        seq![
            '\\',
            'u',
            '0',
            '0',
            hex_digit((c as u32 / 16) as nat),
            hex_digit((c as u32 % 16) as nat),
        ]
    } else {
        seq![c]
    }
}

/// The characters of a JSON string literal between its quotes.
pub open spec fn json_contents_spec(s: Seq<char>) -> Seq<char>
    decreases s.len(),
{
    if s.len() == 0 {
        Seq::empty()
    } else {
        json_contents_spec(s.drop_last()) + json_char_spec(s.last())
    }
}

/// The JSON string literal of a text, as `serde_json::to_string` writes it.
pub open spec fn json_literal_spec(s: Seq<char>) -> Seq<char> {
    seq!['"'] + json_contents_spec(s) + seq!['"']
}

/// The value of a hexadecimal digit.
pub open spec fn hex_value(c: char) -> Option<nat> {
    if '0' <= c && c <= '9' {
        Some((c as u32 - 48) as nat)
    } else if 'a' <= c && c <= 'f' {
        Some((c as u32 - 87) as nat)
    } else if 'A' <= c && c <= 'F' {
        Some((c as u32 - 55) as nat)
    } else {
        None
    }
}

/// The character of a two-character escape such as `\n`.
pub open spec fn short_escape(e: char) -> Option<char> {
    if e == '"' {
        Some('"')
    } else if e == '\\' {
        Some('\\')
    } else if e == '/' {
        Some('/')
    } else if e == 'b' {
        Some('\u{8}')
    } else if e == 'f' {
        Some('\u{c}')
    } else if e == 'n' {
        Some('\n')
    } else if e == 'r' {
        Some('\r')
    } else if e == 't' {
        Some('\t')
    } else {
        None
    }
}

/// The value of the four hexadecimal digits of a `\uXXXX` escape.
pub open spec fn hex4_value(t: Seq<char>) -> Option<nat> {
    match (hex_value(t[0]), hex_value(t[1]), hex_value(t[2]), hex_value(t[3])) {
        (Some(a), Some(b), Some(c), Some(d)) => Some(a * 4096 + b * 256 + c * 16 + d),
        _ => None,
    }
}

/// Reading the characters between the quotes of a JSON string literal (RFC
/// 8259): escapes stand for their characters; a bare `"` or control character
/// makes the literal invalid. `\u` escapes of surrogate code points, which
/// JSON uses in pairs for characters beyond U+FFFF, are not read here.
pub open spec fn json_unescape_spec(t: Seq<char>) -> Option<Seq<char>>
    decreases t.len(),
{
    if t.len() == 0 {
        Some(Seq::empty())
    } else if t[0] == '\\' {
        if t.len() < 2 {
            None
        } else {
            match short_escape(t[1]) {
                Some(ch) => match json_unescape_spec(t.skip(2)) {
                    Some(r) => Some(seq![ch] + r),
                    None => None,
                },
                None => if t[1] == 'u' && t.len() >= 6 {
                    match hex4_value(t.subrange(2, 6)) {
                        Some(v) => if v < 0xd800 || (0xe000 <= v && v <= 0xffff) {
                            match json_unescape_spec(t.skip(6)) {
                                Some(r) => Some(seq![(v as u32) as char] + r),
                                None => None,
                            }
                        } else {
                            None
                        },
                        None => None,
                    }
                } else {
                    None
                },
            }
        }
    } else if t[0] == '"' || (t[0] as u32) < 0x20 {
        None
    } else {
        match json_unescape_spec(t.skip(1)) {
            Some(r) => Some(seq![t[0]] + r),
            None => None,
        }
    }
}

/// Reading a JSON string literal: a quote, the characters, a quote.
pub open spec fn json_decode_spec(lit: Seq<char>) -> Option<Seq<char>> {
    if lit.len() >= 2 && lit[0] == '"' && lit[lit.len() - 1] == '"' {
        json_unescape_spec(lit.subrange(1, lit.len() - 1))
    } else {
        None
    }
}

proof fn lemma_json_contents_append(a: Seq<char>, b: Seq<char>)
    ensures
        json_contents_spec(a + b) == json_contents_spec(a) + json_contents_spec(b),
    decreases b.len(),
{
    if b.len() == 0 {
        assert(a + b == a);
    } else {
        lemma_json_contents_append(a, b.drop_last());
        assert((a + b).drop_last() == a + b.drop_last());
        assert((a + b).last() == b.last());
    }
}

proof fn lemma_json_contents_first(s: Seq<char>)
    requires
        s.len() > 0,
    ensures
        json_contents_spec(s) == json_char_spec(s[0]) + json_contents_spec(s.drop_first()),
{
    let one = seq![s[0]];
    assert(s == one + s.drop_first());
    lemma_json_contents_append(one, s.drop_first());
    assert(one.drop_last() == Seq::<char>::empty());
    assert(json_contents_spec(one) == json_contents_spec(Seq::<char>::empty()) + json_char_spec(
        s[0],
    ));
    assert(json_contents_spec(Seq::<char>::empty()) + json_char_spec(s[0]) == json_char_spec(s[0]));
}

proof fn lemma_hex_digit_value(d: nat)
    requires
        d < 16,
    ensures
        hex_value(hex_digit(d)) == Some(d),
{
}

proof fn lemma_unescape_control(c: char, r: Seq<char>, rest: Seq<char>)
    requires
        (c as u32) < 0x20,
        c != '\u{8}' && c != '\t' && c != '\n' && c != '\u{c}' && c != '\r',
        json_unescape_spec(r) == Some(rest),
    ensures
        json_unescape_spec(json_char_spec(c) + r) == Some(seq![c] + rest),
{
    let hi = (c as u32 / 16) as nat;
    let lo = (c as u32 % 16) as nat;
    lemma_hex_digit_value(hi);
    lemma_hex_digit_value(lo);
    let e = json_char_spec(c);
    assert(c != '"' && c != '\\');
    assert(e == seq!['\\', 'u', '0', '0', hex_digit(hi), hex_digit(lo)]);
    let t = e + r;
    assert(t[0] == '\\');
    assert(t[1] == 'u');
    assert(short_escape(t[1]) is None);
    let h = t.subrange(2, 6);
    assert(h == seq!['0', '0', hex_digit(hi), hex_digit(lo)]);
    assert(hex_value('0') == Some(0nat));
    assert(hex4_value(h) == Some(hi * 16 + lo));
    let v = hi * 16 + lo;
    assert(v == c as u32);
    assert(v < 0xd800);
    assert(((v as u32) as char) == c);
    assert(t.skip(6) == r);
}

/// The characters that `serde_json` writes between the quotes read back as
/// the text.
pub proof fn lemma_json_unescape_contents(s: Seq<char>)
    ensures
        json_unescape_spec(json_contents_spec(s)) == Some(s),
    decreases s.len(),
{
    if s.len() == 0 {
        assert(json_contents_spec(s) == Seq::<char>::empty());
    } else {
        let c = s[0];
        let rest = s.drop_first();
        lemma_json_contents_first(s);
        lemma_json_unescape_contents(rest);
        let e = json_char_spec(c);
        let r = json_contents_spec(rest);
        let t = e + r;
        assert(t.skip(e.len() as int) == r);
        assert(t[0] == e[0]);
        if e.len() >= 2 {
            assert(t[1] == e[1]);
        }
        if c == '"' || c == '\\' || c == '\u{8}' || c == '\t' || c == '\n' || c == '\u{c}' || c
            == '\r' {
            assert(t.skip(2) == r);
            assert(json_unescape_spec(t) == Some(seq![c] + rest));
        } else if (c as u32) < 0x20 {
            lemma_unescape_control(c, r, rest);
                } else {
            assert(e == seq![c]);
            assert(t.skip(1) == r);
            assert(json_unescape_spec(t) == Some(seq![c] + rest));
        }
        assert(s == seq![c] + rest);
    }
}

/// A JSON string literal as `serde_json` writes it reads back as the text.
pub proof fn law_json_literal_round_trip(s: Seq<char>)
    ensures
        json_decode_spec(json_literal_spec(s)) == Some(s),
{
    let lit = json_literal_spec(s);
    let body = json_contents_spec(s);
    assert(lit.subrange(1, lit.len() - 1) == body);
    lemma_json_unescape_contents(s);
}

} // verus!
