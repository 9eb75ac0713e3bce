//! Text helpers: HTML escaping, joining and decimal rendering.

use vstd::prelude::*;

verus! {

/// The entity that stands for one character in HTML text and attribute values.
pub open spec fn escape_char_spec(c: char) -> Seq<char> {
    if c == '&' {
        "&amp;"@
    } else if c == '<' {
        "&lt;"@
    } else if c == '>' {
        "&gt;"@
    } else if c == '"' {
        "&quot;"@
    } else {
        seq![c]
    }
}

/// HTML escaping of a whole text: each character replaced by its entity.
pub open spec fn escape_spec(s: Seq<char>) -> Seq<char>
    decreases s.len(),
{
    if s.len() == 0 {
        Seq::empty()
    } else {
        escape_spec(s.drop_last()) + escape_char_spec(s.last())
    }
}

/// Appends one character to a string: `String::push`, whose documentation says
/// that it appends the given `char` to the end of the string.
#[verifier::external_body]
pub(crate) fn push_char(out: &mut String, c: char)
    ensures
        final(out)@ == old(out)@.push(c),
{
    out.push(c)
}

/// HTML-escapes `&`, `<`, `>` and `"`.
pub fn escape(s: &str) -> (r: String)
    ensures
        r@ == escape_spec(s@),
        forall|k: int| 0 <= k < r@.len() ==> r@[k] != '<' && r@[k] != '>' && r@[k] != '"',
{
    proof {
        lemma_escape_is_inert(s@);
    }
    let n = s.unicode_len();
    let mut out = String::new();
    let mut i: usize = 0;
    while i < n
        invariant
            n == s@.len(),
            i <= n,
            out@ == escape_spec(s@.take(i as int)),
        decreases n - i,
    {
        let c = s.get_char(i);
        if c == '&' {
            out.append("&amp;");
        } else if c == '<' {
            out.append("&lt;");
        } else if c == '>' {
            out.append("&gt;");
        } else if c == '"' {
            out.append("&quot;");
        } else {
            push_char(&mut out, c);
        }
        assert(s@.take(i + 1).drop_last() == s@.take(i as int));
        i = i + 1;
    }
    assert(s@.take(n as int) == s@);
    out
}

/// `part` occurs in `r`.
pub open spec fn contains_text(r: Seq<char>, part: Seq<char>) -> bool {
    exists|a: Seq<char>, b: Seq<char>| r == a + part + b
}

/// Whether `part` occurs in `text`.
pub fn text_contains(text: &str, part: &str) -> (r: bool)
    ensures
        r == contains_text(text@, part@),
{
    let n = text.unicode_len();
    let m = part.unicode_len();
    if m > n {
        assert forall|a: Seq<char>, b: Seq<char>| text@ != a + part@ + b by {
            if text@ == a + part@ + b {
                assert((a + part@ + b).len() == a.len() + m + b.len());
            }
        }
        return false;
    }
    let mut i: usize = 0;
    loop
        invariant
            n == text@.len(),
            m == part@.len(),
            m <= n,
            i <= n - m,
            forall|k: int| 0 <= k < i ==> #[trigger] text@.subrange(k, k + m) != part@,
        decreases n - m - i,
    {
        let mut j: usize = 0;
        let mut same = true;
        while j < m
            invariant
                n == text@.len(),
                m == part@.len(),
                i + m <= n,
                j <= m,
                same ==> forall|k: int| 0 <= k < j ==> text@[i + k] == part@[k],
                !same ==> text@.subrange(i as int, i + m) != part@,
            decreases m - j,
        {
            if text.get_char(i + j) != part.get_char(j) {
                same = false;
                assert(text@.subrange(i as int, i + m)[j as int] == text@[i + j]);
            }
            j = j + 1;
        }
        if same {
            assert(text@.subrange(i as int, i + m) == part@);
            let ghost a = text@.take(i as int);
            let ghost b = text@.skip(i + m);
            assert(text@ == a + part@ + b);
            return true;
        }
        if i == n - m {
            assert forall|a: Seq<char>, b: Seq<char>| text@ != a + part@ + b by {
                if text@ == a + part@ + b {
                    let k = a.len() as int;
                    assert(text@.subrange(k, k + m) == part@);
                }
            }
            return false;
        }
        i = i + 1;
    }
}

/// No character of an escaped text is `<`, `>` or `"`: escaped text cannot
/// open a tag or close a quoted attribute value.
pub proof fn lemma_escape_is_inert(s: Seq<char>)
    ensures
        forall|k: int|
            0 <= k < escape_spec(s).len() ==> {
                let c = #[trigger] escape_spec(s)[k];
                c != '<' && c != '>' && c != '"'
            },
    decreases s.len(),
{
    reveal_strlit("&amp;");
    reveal_strlit("&lt;");
    reveal_strlit("&gt;");
    reveal_strlit("&quot;");
    if s.len() > 0 {
        lemma_escape_is_inert(s.drop_last());
        let a = escape_spec(s.drop_last());
        let b = escape_char_spec(s.last());
        assert forall|k: int| 0 <= k < (a + b).len() implies {
            let c = #[trigger] (a + b)[k];
            c != '<' && c != '>' && c != '"'
        } by {
            if k >= a.len() {
                assert((a + b)[k] == b[k - a.len()]);
            } else {
                assert((a + b)[k] == a[k]);
            }
        }
    }
}

/// Escaping a concatenation escapes each part.
pub proof fn lemma_escape_append(a: Seq<char>, b: Seq<char>)
    ensures
        escape_spec(a + b) == escape_spec(a) + escape_spec(b),
    decreases b.len(),
{
    if b.len() == 0 {
        assert(a + b == a);
    } else {
        lemma_escape_append(a, b.drop_last());
        assert((a + b).drop_last() == a + b.drop_last());
        assert((a + b).last() == b.last());
    }
}

/// Reading HTML text back: each entity that escaping writes stands for its
/// character again; every other character stands for itself.
pub open spec fn unescape_spec(t: Seq<char>) -> Seq<char>
    decreases t.len(),
{
    if t.len() == 0 {
        Seq::empty()
    } else if t.len() >= 5 && t.take(5) == "&amp;"@ {
        seq!['&'] + unescape_spec(t.skip(5))
    } else if t.len() >= 4 && t.take(4) == "&lt;"@ {
        seq!['<'] + unescape_spec(t.skip(4))
    } else if t.len() >= 4 && t.take(4) == "&gt;"@ {
        seq!['>'] + unescape_spec(t.skip(4))
    } else if t.len() >= 6 && t.take(6) == "&quot;"@ {
        seq!['"'] + unescape_spec(t.skip(6))
    } else {
        seq![t[0]] + unescape_spec(t.skip(1))
    }
}

/// Escaping works character by character from the front.
proof fn lemma_escape_first(s: Seq<char>)
    requires
        s.len() > 0,
    ensures
        escape_spec(s) == escape_char_spec(s[0]) + escape_spec(s.drop_first()),
{
    let one = seq![s[0]];
    assert(s == one + s.drop_first());
    lemma_escape_append(one, s.drop_first());
    assert(one.drop_last() == Seq::<char>::empty());
    assert(escape_spec(one) == escape_spec(Seq::<char>::empty()) + escape_char_spec(s[0]));
    assert(escape_spec(Seq::<char>::empty()) + escape_char_spec(s[0]) == escape_char_spec(s[0]));
}

/// Escaping can be undone: reading escaped text back gives the text.
pub proof fn law_unescape_escape(s: Seq<char>)
    ensures
        unescape_spec(escape_spec(s)) == s,
    decreases s.len(),
{
    reveal_strlit("&amp;");
    reveal_strlit("&lt;");
    reveal_strlit("&gt;");
    reveal_strlit("&quot;");
    if s.len() == 0 {
        assert(escape_spec(s) == Seq::<char>::empty());
    } else {
        let c = s[0];
        let rest = s.drop_first();
        lemma_escape_first(s);
        law_unescape_escape(rest);
        let e = escape_char_spec(c);
        let r = escape_spec(rest);
        let t = e + r;
        assert(t.skip(e.len() as int) == r);
        if t.len() >= 5 {
            assert(t.take(5)[0] == t[0] && t.take(5)[1] == t[1]);
        }
        if t.len() >= 4 {
            assert(t.take(4)[0] == t[0] && t.take(4)[1] == t[1]);
        }
        if t.len() >= 6 {
            assert(t.take(6)[0] == t[0] && t.take(6)[1] == t[1]);
        }
        if c == '&' {
            assert(t.take(5) == "&amp;"@);
            assert(unescape_spec(t) == seq![c] + unescape_spec(r));
        } else if c == '<' {
            assert(t[1] == 'l');
            assert(t.take(4) == "&lt;"@);
            assert(unescape_spec(t) == seq![c] + unescape_spec(r));
        } else if c == '>' {
            assert(t[1] == 'g');
            assert(t.take(4) == "&gt;"@);
            assert(unescape_spec(t) == seq![c] + unescape_spec(r));
        } else if c == '"' {
            assert(t[1] == 'q');
            assert(t.take(6) == "&quot;"@);
            assert(unescape_spec(t) == seq![c] + unescape_spec(r));
        } else {
            assert(e == seq![c]);
            assert(t[0] == c);
            assert(t.skip(1) == r);
            assert(unescape_spec(t) == seq![c] + unescape_spec(r));
        }
        assert(s == seq![c] + rest);
    }
}

/// Escaping tells texts apart: different texts escape differently.
pub proof fn law_escape_injective(a: Seq<char>, b: Seq<char>)
    requires
        escape_spec(a) == escape_spec(b),
    ensures
        a == b,
{
    law_unescape_escape(a);
    law_unescape_escape(b);
}

/// The views of a sequence of owned strings.
pub open spec fn strings_view(v: Seq<String>) -> Seq<Seq<char>> {
    v.map_values(|s: String| s@)
}

/// The views of a sequence of string slices.
pub open spec fn strs_view(v: Seq<&str>) -> Seq<Seq<char>> {
    v.map_values(|s: &str| s@)
}

/// The items of `list` with `sep` between each two neighbours.
pub open spec fn join_spec(list: Seq<Seq<char>>, sep: Seq<char>) -> Seq<char>
    decreases list.len(),
{
    if list.len() == 0 {
        Seq::empty()
    } else if list.len() == 1 {
        list[0]
    } else {
        join_spec(list.drop_last(), sep) + sep + list.last()
    }
}

/// Joins owned strings with a separator.
pub fn join_strings(list: &[String], sep: &str) -> (r: String)
    ensures
        r@ == join_spec(strings_view(list@), sep@),
{
    let ghost full = strings_view(list@);
    let mut out = String::new();
    let mut i: usize = 0;
    while i < list.len()
        invariant
            i <= list.len(),
            full == strings_view(list@),
            out@ == join_spec(full.take(i as int), sep@),
        decreases list.len() - i,
    {
        if i > 0 {
            out.append(sep);
        }
        out.append(list[i].as_str());
        assert(full.take(i + 1).drop_last() == full.take(i as int));
        i = i + 1;
    }
    assert(full.take(list.len() as int) == full);
    out
}

/// Joins string slices with a separator.
pub fn join_strs(list: &[&str], sep: &str) -> (r: String)
    ensures
        r@ == join_spec(strs_view(list@), sep@),
{
    let ghost full = strs_view(list@);
    let mut out = String::new();
    let mut i: usize = 0;
    while i < list.len()
        invariant
            i <= list.len(),
            full == strs_view(list@),
            out@ == join_spec(full.take(i as int), sep@),
        decreases list.len() - i,
    {
        if i > 0 {
            out.append(sep);
        }
        out.append(list[i]);
        assert(full.take(i + 1).drop_last() == full.take(i as int));
        i = i + 1;
    }
    assert(full.take(list.len() as int) == full);
    out
}

/// The ASCII digit for a value below ten.
pub open spec fn digit_char(d: nat) -> char {
    ((d + 48) as u32) as char
}

/// The decimal notation of a natural number, as `Display` writes an integer.
pub open spec fn decimal_spec(n: nat) -> Seq<char>
    decreases n,
{
    if n < 10 {
        seq![digit_char(n)]
    } else {
        decimal_spec(n / 10).push(digit_char(n % 10))
    }
}

fn append_decimal(out: &mut String, n: usize)
    ensures
        final(out)@ == old(out)@ + decimal_spec(n as nat),
    decreases n,
{
    if n >= 10 {
        append_decimal(out, n / 10);
    }
    let d: u8 = (n % 10) as u8;
    let c: char = (48u8 + d) as char;
    assert(c == digit_char((n % 10) as nat));
    push_char(out, c);
}

/// The decimal notation of a count.
pub fn decimal(n: usize) -> (r: String)
    ensures
        r@ == decimal_spec(n as nat),
{
    let mut out = String::new();
    append_decimal(&mut out, n);
    out
}

/// Escapes every text of a list.
pub fn escape_all(list: &[String]) -> (r: Vec<String>)
    ensures
        strings_view(r@) == strings_view(list@).map_values(|a: Seq<char>| escape_spec(a)),
{
    let mut out: Vec<String> = Vec::new();
    let mut i: usize = 0;
    while i < list.len()
        invariant
            i <= list.len(),
            out@.len() == i,
            forall|k: int| 0 <= k < i ==> #[trigger] out@[k]@ == escape_spec(list@[k]@),
        decreases list.len() - i,
    {
        out.push(escape(list[i].as_str()));
        i = i + 1;
    }
    assert(strings_view(out@) == strings_view(list@).map_values(|a: Seq<char>| escape_spec(a)));
    out
}

/// Unicode `White_Space`, which is what `char::is_whitespace` and `str::trim` go by.
pub open spec fn is_white_space(c: char) -> bool {
    ||| ('\t' <= c && c <= '\r')
    ||| c == ' '
    ||| c == '\u{85}'
    ||| c == '\u{a0}'
    ||| c == '\u{1680}'
    ||| ('\u{2000}' <= c && c <= '\u{200a}')
    ||| c == '\u{2028}'
    ||| c == '\u{2029}'
    ||| c == '\u{202f}'
    ||| c == '\u{205f}'
    ||| c == '\u{3000}'
}

/// Whether a character is white space.
pub fn is_white_space_char(c: char) -> (r: bool)
    ensures
        r == is_white_space(c),
{
    ('\t' <= c && c <= '\r') || c == ' ' || c == '\u{85}' || c == '\u{a0}' || c == '\u{1680}' || (
    '\u{2000}' <= c && c <= '\u{200a}') || c == '\u{2028}' || c == '\u{2029}' || c == '\u{202f}'
        || c == '\u{205f}' || c == '\u{3000}'
}

/// A text without its leading white space.
pub open spec fn trim_start_spec(s: Seq<char>) -> Seq<char>
    decreases s.len(),
{
    if s.len() > 0 && is_white_space(s[0]) {
        trim_start_spec(s.drop_first())
    } else {
        s
    }
}

/// A text without its trailing white space.
pub open spec fn trim_end_spec(s: Seq<char>) -> Seq<char>
    decreases s.len(),
{
    if s.len() > 0 && is_white_space(s.last()) {
        trim_end_spec(s.drop_last())
    } else {
        s
    }
}

/// A text without leading and trailing white space.
pub open spec fn trim_spec(s: Seq<char>) -> Seq<char> {
    trim_end_spec(trim_start_spec(s))
}

/// A text without leading and trailing white space.
pub fn trim(s: &str) -> (r: &str)
    ensures
        r@ == trim_spec(s@),
{
    let n = s.unicode_len();
    let mut a: usize = 0;
    assert(s@.skip(0) == s@);
    while a < n && is_white_space_char(s.get_char(a))
        invariant
            n == s@.len(),
            a <= n,
            trim_start_spec(s@) == trim_start_spec(s@.skip(a as int)),
        decreases n - a,
    {
        assert(s@.skip(a as int)[0] == s@[a as int]);
        assert(s@.skip(a as int).drop_first() == s@.skip(a + 1));
        a = a + 1;
    }
    if a < n {
        assert(s@.skip(a as int)[0] == s@[a as int]);
    }
    let ghost rest = s@.skip(a as int);
    assert(trim_start_spec(s@) == rest);
    let mut b: usize = n;
    assert(rest == s@.subrange(a as int, n as int));
    while b > a && is_white_space_char(s.get_char(b - 1))
        invariant
            n == s@.len(),
            a <= b <= n,
            rest == s@.subrange(a as int, n as int),
            trim_end_spec(rest) == trim_end_spec(s@.subrange(a as int, b as int)),
        decreases b - a,
    {
        assert(s@.subrange(a as int, b as int).last() == s@[b - 1]);
        assert(s@.subrange(a as int, b as int).drop_last() == s@.subrange(a as int, b - 1));
        b = b - 1;
    }
    if b > a {
        assert(s@.subrange(a as int, b as int).last() == s@[b - 1]);
    }
    s.substring_char(a, b)
}

/// Trimming the empty text leaves it empty.
pub proof fn lemma_trim_empty()
    ensures
        trim_spec(Seq::<char>::empty()) == Seq::<char>::empty(),
{
}

/// The pieces of a text between commas.
pub open spec fn comma_pieces(s: Seq<char>) -> Seq<Seq<char>>
    decreases s.len(),
{
    if s.len() == 0 {
        seq![Seq::empty()]
    } else {
        let p = comma_pieces(s.drop_last());
        if s.last() == ',' {
            p.push(Seq::empty())
        } else {
            p.update(p.len() - 1, p.last().push(s.last()))
        }
    }
}

/// The trimmed pieces that are not empty.
pub open spec fn kept_items(pieces: Seq<Seq<char>>) -> Seq<Seq<char>>
    decreases pieces.len(),
{
    if pieces.len() == 0 {
        Seq::empty()
    } else {
        let prev = kept_items(pieces.drop_last());
        let t = trim_spec(pieces.last());
        if t.len() > 0 {
            prev.push(t)
        } else {
            prev
        }
    }
}

/// A comma-separated list: its pieces, trimmed, leaving out empty ones.
pub open spec fn parse_list_spec(s: Seq<char>) -> Seq<Seq<char>> {
    kept_items(comma_pieces(s))
}

/// Parses a comma-separated list of names.
pub fn parse_list(raw: &str) -> (r: Vec<String>)
    ensures
        strings_view(r@) == parse_list_spec(raw@),
{
    let n = raw.unicode_len();
    let mut out: Vec<String> = Vec::new();
    let mut start: usize = 0;
    let mut i: usize = 0;
    let ghost mut done: Seq<Seq<char>> = Seq::empty();
    assert(raw@.take(0) =~= Seq::<char>::empty());
    assert(raw@.subrange(0, 0) =~= Seq::<char>::empty());
    assert(comma_pieces(Seq::<char>::empty()) == seq![Seq::<char>::empty()]);
    assert(seq![Seq::<char>::empty()] =~= Seq::<Seq<char>>::empty().push(Seq::<char>::empty()));
    assert(strings_view(out@) =~= kept_items(done));
    while i < n
        invariant
            n == raw@.len(),
            start <= i <= n,
            comma_pieces(raw@.take(i as int)) == done.push(raw@.subrange(start as int, i as int)),
            strings_view(out@) == kept_items(done),
        decreases n - i,
    {
        let c = raw.get_char(i);
        assert(raw@.take(i + 1).drop_last() == raw@.take(i as int));
        assert(raw@.take(i + 1).last() == c);
        if c == ',' {
            let piece = raw.substring_char(start, i);
            let t = trim(piece);
            proof {
                let d2 = done.push(raw@.subrange(start as int, i as int));
                assert(d2.drop_last() == done);
            }
            if t.unicode_len() > 0 {
                out.push(String::from_str(t));
            }
            proof {
                done = done.push(raw@.subrange(start as int, i as int));
                assert(raw@.subrange(i + 1, i + 1) =~= Seq::<char>::empty());
            }
            start = i + 1;
        } else {
            proof {
                let p = done.push(raw@.subrange(start as int, i as int));
                assert(raw@.subrange(start as int, i as int).push(c) =~= raw@.subrange(
                    start as int,
                    i + 1,
                ));
                assert(p.update(p.len() - 1, p.last().push(c)) =~= done.push(
                    raw@.subrange(start as int, i + 1),
                ));
            }
        }
        i = i + 1;
    }
    assert(raw@.take(n as int) == raw@);
    let piece = raw.substring_char(start, n);
    let t = trim(piece);
    proof {
        let d2 = done.push(raw@.subrange(start as int, n as int));
        assert(d2.drop_last() == done);
    }
    if t.unicode_len() > 0 {
        out.push(String::from_str(t));
    }
    out
}

/// A text that can stand as an item of a comma-separated list: not empty,
/// without commas, and not starting or ending with white space.
pub open spec fn is_list_item(s: Seq<char>) -> bool {
    &&& s.len() > 0
    &&& forall|i: int| 0 <= i < s.len() ==> s[i] != ','
    &&& !is_white_space(s[0])
    &&& !is_white_space(s.last())
}

proof fn lemma_comma_pieces_len(s: Seq<char>)
    ensures
        comma_pieces(s).len() >= 1,
    decreases s.len(),
{
    if s.len() > 0 {
        lemma_comma_pieces_len(s.drop_last());
    }
}

/// Text without commas extends the last piece.
proof fn lemma_comma_pieces_append_plain(s: Seq<char>, t: Seq<char>)
    requires
        forall|i: int| 0 <= i < t.len() ==> t[i] != ',',
    ensures
        comma_pieces(s + t) == comma_pieces(s).update(
            comma_pieces(s).len() - 1,
            comma_pieces(s).last() + t,
        ),
    decreases t.len(),
{
    lemma_comma_pieces_len(s);
    let p = comma_pieces(s);
    if t.len() == 0 {
        assert(s + t == s);
        assert(p.last() + t == p.last());
        assert(p.update(p.len() - 1, p.last()) =~= p);
    } else {
        let t0 = t.drop_last();
        lemma_comma_pieces_append_plain(s, t0);
        assert((s + t).drop_last() == s + t0);
        assert((s + t).last() == t.last());
        let q = comma_pieces(s + t0);
        assert(q == p.update(p.len() - 1, p.last() + t0));
        assert((p.last() + t0).push(t.last()) == p.last() + t);
        assert(q.update(q.len() - 1, q.last().push(t.last())) =~= p.update(
            p.len() - 1,
            p.last() + t,
        ));
    }
}

proof fn lemma_trim_item(x: Seq<char>)
    requires
        is_list_item(x),
    ensures
        trim_spec(x) == x,
        trim_spec(" "@ + x) == x,
{
    reveal_strlit(" ");
    assert(trim_start_spec(x) == x);
    assert(trim_end_spec(x) == x);
    let y = " "@ + x;
    assert(y[0] == ' ');
    assert(y.drop_first() == x);
    assert(trim_start_spec(y) == trim_start_spec(x));
}

/// Joining list items with `", "` and parsing the result gives the items back:
/// what the page shows for editing parses to what was shown.
pub proof fn law_parse_list_of_join(items: Seq<Seq<char>>)
    requires
        forall|k: int| 0 <= k < items.len() ==> is_list_item(#[trigger] items[k]),
    ensures
        parse_list_spec(join_spec(items, ", "@)) == items,
    decreases items.len(),
{
    reveal_strlit(", ");
    reveal_strlit(" ");
    if items.len() == 0 {
        assert(join_spec(items, ", "@) == Seq::<char>::empty());
        assert(comma_pieces(Seq::<char>::empty()) == seq![Seq::<char>::empty()]);
        let ps = seq![Seq::<char>::empty()];
        assert(ps.drop_last() =~= Seq::<Seq<char>>::empty());
        assert(trim_spec(Seq::<char>::empty()) == Seq::<char>::empty());
        assert(kept_items(ps.drop_last()) =~= Seq::<Seq<char>>::empty());
        assert(ps.last() == Seq::<char>::empty());
        assert(kept_items(ps) == kept_items(ps.drop_last()));
        assert(kept_items(ps) =~= items);
    } else if items.len() == 1 {
        let x = items[0];
        assert(join_spec(items, ", "@) == x);
        lemma_comma_pieces_append_plain(Seq::<char>::empty(), x);
        assert(Seq::<char>::empty() + x == x);
        assert(comma_pieces(Seq::<char>::empty()) == seq![Seq::<char>::empty()]);
        let ps = comma_pieces(x);
        assert(ps =~= seq![x]);
        lemma_trim_item(x);
        assert(ps.drop_last() =~= Seq::<Seq<char>>::empty());
        assert(kept_items(ps.drop_last()) =~= Seq::<Seq<char>>::empty());
        assert(ps.last() == x);
        assert(kept_items(ps) == kept_items(ps.drop_last()).push(x));
        assert(kept_items(ps) =~= items);
    } else {
        let dl = items.drop_last();
        let x = items.last();
        assert(is_list_item(x)) by {
            assert(items[items.len() - 1] == x);
        }
        assert forall|k: int| 0 <= k < dl.len() implies is_list_item(#[trigger] dl[k]) by {
            assert(dl[k] == items[k]);
        }
        law_parse_list_of_join(dl);
        let j = join_spec(dl, ", "@);
        assert(join_spec(items, ", "@) == j + ", "@ + x);
        let jc = j.push(',');
        assert(j + ", "@ + x == jc + (" "@ + x));
        assert(jc.drop_last() == j);
        assert(jc.last() == ',');
        let pj = comma_pieces(j);
        assert(comma_pieces(jc) == pj.push(Seq::<char>::empty()));
        let rest = " "@ + x;
        assert forall|i: int| 0 <= i < rest.len() implies rest[i] != ',' by {
            if i > 0 {
                assert(rest[i] == x[i - 1]);
            }
        }
        lemma_comma_pieces_append_plain(jc, rest);
        let ps = comma_pieces(jc + rest);
        assert(Seq::<char>::empty() + rest == rest);
        assert(ps =~= pj.push(rest));
        lemma_trim_item(x);
        assert(ps.drop_last() == pj);
        assert(kept_items(ps) == kept_items(pj).push(x));
        assert(kept_items(pj) == dl);
        assert(dl.push(x) =~= items);
    }
}

} // verus!
