use vstd::prelude::*;

use crate::text::push_char;

verus! {

/// The lowercase hexadecimal digit of `n`, for `n < 16`.
pub open spec fn hex_digit(n: u32) -> char {
    if n < 10 {
        ((n + 48) as u8) as char
    } else {
        ((n + 87) as u8) as char
    }
}

/// The value of a lowercase hexadecimal digit.
pub open spec fn hex_value(d: char) -> Option<u32> {
    if 48 <= d as u32 <= 57 {
        Some((d as u32 - 48) as u32)
    } else if 97 <= d as u32 <= 102 {
        Some((d as u32 - 87) as u32)
    } else {
        None
    }
}

/// The letter that follows the backslash for the characters that JSON
/// writes with a two-character escape.
pub open spec fn short_escape(c: char) -> Option<char> {
    if c == '"' {
        Some('"')
    } else if c == '\\' {
        Some('\\')
    } else if c == '\u{8}' {
        Some('b')
    } else if c == '\t' {
        Some('t')
    } else if c == '\n' {
        Some('n')
    } else if c == '\u{c}' {
        Some('f')
    } else if c == '\r' {
        Some('r')
    } else {
        None
    }
}

/// The character that a two-character escape with letter `l` stands for.
pub open spec fn short_unescape(l: char) -> Option<char> {
    if l == '"' {
        Some('"')
    } else if l == '\\' {
        Some('\\')
    } else if l == 'b' {
        Some('\u{8}')
    } else if l == 't' {
        Some('\t')
    } else if l == 'n' {
        Some('\n')
    } else if l == 'f' {
        Some('\u{c}')
    } else if l == 'r' {
        Some('\r')
    } else {
        None
    }
}

/// How compact JSON writes character `c` inside a string: quote and
/// backslash escaped, the control characters below 0x20 as a short escape
/// where one exists and as `\u00XX` otherwise, every other character as is.
pub open spec fn escape_char(c: char) -> Seq<char> {
    match short_escape(c) {
        Some(l) => seq!['\\', l],
        None => if (c as u32) < 0x20 {
            seq!['\\', 'u', '0', '0', hex_digit(c as u32 / 16), hex_digit(c as u32 % 16)]
        } else {
            seq![c]
        },
    }
}

/// The inside of the JSON string literal that holds `s`.
pub open spec fn escaped(s: Seq<char>) -> Seq<char>
    decreases s.len(),
{
    if s.len() == 0 {
        Seq::empty()
    } else {
        escaped(s.drop_last()) + escape_char(s.last())
    }
}

/// Reads one escaped character at the front of `x`: the character and how
/// many characters of `x` its escape takes, or `None` where `x` does not
/// start with the escape of any character.
pub open spec fn unescape_front(x: Seq<char>) -> Option<(char, int)> {
    if x.len() == 0 || x[0] == '"' {
        None
    } else if x[0] != '\\' {
        if (x[0] as u32) < 0x20 {
            None
        } else {
            Some((x[0], 1))
        }
    } else if x.len() < 2 {
        None
    } else if x[1] == 'u' {
        if x.len() >= 6 && x[2] == '0' && x[3] == '0' && (x[4] == '0' || x[4] == '1')
            && hex_value(x[5]) is Some {
            let v = hex_value(x[4])->0 * 16 + hex_value(x[5])->0;
            let c = (v as u8) as char;
            if short_escape(c) is None {
                Some((c, 6))
            } else {
                None
            }
        } else {
            None
        }
    } else {
        match short_unescape(x[1]) {
            Some(c) => Some((c, 2)),
            None => None,
        }
    }
}

/// Whether `t`, from `start` on, holds the escape of `s` followed by a quote.
pub open spec fn string_at(t: Seq<char>, start: int, s: Seq<char>) -> bool {
    &&& 0 <= start
    &&& start + escaped(s).len() < t.len()
    &&& t.subrange(start, start + escaped(s).len()) == escaped(s)
    &&& t[start + escaped(s).len()] == '"'
}

proof fn lemma_hex_round_trip(n: u32)
    requires
        n < 16,
    ensures
        hex_value(hex_digit(n)) == Some(n),
{
}

proof fn lemma_hex_inverse(d: char)
    requires
        hex_value(d) is Some,
    ensures
        hex_digit(hex_value(d)->0) == d,
{
    assert(hex_digit(hex_value(d)->0) as u32 == d as u32);
}

/// An escape is never empty and never starts with a quote.
pub proof fn lemma_escape_char_shape(c: char)
    ensures
        1 <= escape_char(c).len() <= 6,
        escape_char(c)[0] != '"',
{
}

/// The escape of `c` is read back as `c`, whatever follows it.
pub proof fn lemma_unescape_escape(c: char, rest: Seq<char>)
    ensures
        unescape_front(escape_char(c) + rest) == Some((c, escape_char(c).len() as int)),
{
    let x = escape_char(c) + rest;
    if short_escape(c) is None && (c as u32) < 0x20 {
        let v = c as u32;
        lemma_hex_round_trip(v / 16);
        lemma_hex_round_trip(v % 16);
        assert(x[4] == hex_digit(v / 16));
        assert(x[5] == hex_digit(v % 16));
        assert(hex_value(x[4])->0 * 16 + hex_value(x[5])->0 == v);
        assert(((v as u8) as char) as u32 == v);
    } else if short_escape(c) is Some {
        assert(x[0] == '\\');
        assert(x[1] == short_escape(c)->0);
    } else {
        assert(x[0] == c);
    }
}

/// What is read at the front of `x` is the escape of the character read.
pub proof fn lemma_unescape_sound(x: Seq<char>)
    requires
        unescape_front(x) is Some,
    ensures
        ({
            let (c, n) = unescape_front(x)->0;
            &&& 1 <= n <= x.len()
            &&& n == escape_char(c).len()
            &&& x.subrange(0, n) == escape_char(c)
        }),
{
    let (c, n) = unescape_front(x)->0;
    if x[0] == '\\' && x[1] == 'u' {
        let v = c as u32;
        assert(v == hex_value(x[4])->0 * 16 + hex_value(x[5])->0);
        assert(v / 16 == hex_value(x[4])->0);
        assert(v % 16 == hex_value(x[5])->0);
        lemma_hex_inverse(x[4]);
        lemma_hex_inverse(x[5]);
        assert(hex_digit(v / 16) == x[4]);
        assert(hex_digit(v % 16) == x[5]);
        assert(x.subrange(0, n) =~= escape_char(c));
    } else if x[0] == '\\' {
        assert(x.subrange(0, n) =~= escape_char(c));
    } else {
        assert(x.subrange(0, n) =~= escape_char(c));
    }
}

/// Escaping distributes over concatenation.
pub proof fn lemma_escaped_concat(a: Seq<char>, b: Seq<char>)
    ensures
        escaped(a + b) == escaped(a) + escaped(b),
    decreases b.len(),
{
    if b.len() == 0 {
        assert(a + b =~= a);
        assert(escaped(a) + escaped(b) =~= escaped(a));
    } else {
        lemma_escaped_concat(a, b.drop_last());
        assert((a + b).drop_last() =~= a + b.drop_last());
        assert((a + b).last() == b.last());
        assert(escaped(a) + escaped(b) =~= escaped(a) + escaped(b.drop_last()) + escape_char(b.last()));
    }
}

/// The escape of a non-empty sequence starts with the escape of its first character.
pub proof fn lemma_escaped_front(s: Seq<char>)
    requires
        s.len() > 0,
    ensures
        escaped(s) == escape_char(s[0]) + escaped(s.skip(1)),
{
    lemma_escaped_concat(seq![s[0]], s.skip(1));
    assert(seq![s[0]] + s.skip(1) =~= s);
    assert(seq![s[0]].drop_last() =~= Seq::<char>::empty());
    assert(escaped(Seq::<char>::empty()) + escape_char(s[0]) =~= escape_char(s[0]));
    assert(escaped(seq![s[0]]) =~= escape_char(s[0]));
}

/// Escaping one more character appends its escape.
pub proof fn lemma_escaped_push(s: Seq<char>, c: char)
    ensures
        escaped(s.push(c)) == escaped(s) + escape_char(c),
{
    assert(s.push(c).drop_last() =~= s);
}

/// A quoted string is read in one way only: where two escaped sequences,
/// each followed by a quote, start the same text, they are the same and the
/// rest is the same.
pub proof fn lemma_escaped_unique(s1: Seq<char>, s2: Seq<char>, r1: Seq<char>, r2: Seq<char>)
    requires
        escaped(s1) + seq!['"'] + r1 == escaped(s2) + seq!['"'] + r2,
    ensures
        s1 == s2,
        r1 == r2,
    decreases s1.len(),
{
    let x = escaped(s1) + seq!['"'] + r1;
    if s1.len() == 0 && s2.len() == 0 {
        assert(r1 =~= x.skip(1));
        assert(r2 =~= x.skip(1));
        assert(s1 =~= s2);
    } else if s1.len() == 0 {
        lemma_escaped_front(s2);
        lemma_escape_char_shape(s2[0]);
        assert(x[0] == '"');
        assert(x[0] == escape_char(s2[0])[0]);
    } else if s2.len() == 0 {
        lemma_escaped_front(s1);
        lemma_escape_char_shape(s1[0]);
        assert(x[0] == '"');
        assert(x[0] == escape_char(s1[0])[0]);
    } else {
        lemma_escaped_front(s1);
        lemma_escaped_front(s2);
        let t1 = escaped(s1.skip(1)) + seq!['"'] + r1;
        let t2 = escaped(s2.skip(1)) + seq!['"'] + r2;
        assert(x =~= escape_char(s1[0]) + t1);
        assert(x =~= escape_char(s2[0]) + t2);
        lemma_unescape_escape(s1[0], t1);
        lemma_unescape_escape(s2[0], t2);
        let n = escape_char(s1[0]).len() as int;
        assert(t1 =~= x.skip(n));
        assert(t2 =~= x.skip(n));
        lemma_escaped_unique(s1.skip(1), s2.skip(1), r1, r2);
        assert(s1 =~= seq![s1[0]] + s1.skip(1));
        assert(s2 =~= seq![s2[0]] + s2.skip(1));
    }
}

/// A string literal at a given position holds one text only.
pub proof fn lemma_string_at_unique(t: Seq<char>, start: int, s1: Seq<char>, s2: Seq<char>)
    requires
        string_at(t, start, s1),
        string_at(t, start, s2),
    ensures
        s1 == s2,
{
    let x = t.skip(start);
    let n1 = escaped(s1).len() as int;
    let n2 = escaped(s2).len() as int;
    assert(escaped(s1) + seq!['"'] + x.skip(n1 + 1) =~= x);
    assert(escaped(s2) + seq!['"'] + x.skip(n2 + 1) =~= x);
    lemma_escaped_unique(s1, s2, x.skip(n1 + 1), x.skip(n2 + 1));
}

fn hex_char(n: u32) -> (r: char)
    requires
        n < 16,
    ensures
        r == hex_digit(n),
{
    if n < 10 {
        ((n + 48) as u8) as char
    } else {
        ((n + 87) as u8) as char
    }
}

fn hex_char_value(d: char) -> (r: Option<u32>)
    ensures
        r == hex_value(d),
{
    let v = d as u32;
    if 48 <= v && v <= 57 {
        Some(v - 48)
    } else if 97 <= v && v <= 102 {
        Some(v - 87)
    } else {
        None
    }
}

fn short_escape_of(c: char) -> (r: Option<char>)
    ensures
        r == short_escape(c),
{
    if c == '"' {
        Some('"')
    } else if c == '\\' {
        Some('\\')
    } else if c == '\u{8}' {
        Some('b')
    } else if c == '\t' {
        Some('t')
    } else if c == '\n' {
        Some('n')
    } else if c == '\u{c}' {
        Some('f')
    } else if c == '\r' {
        Some('r')
    } else {
        None
    }
}

fn short_unescape_of(l: char) -> (r: Option<char>)
    ensures
        r == short_unescape(l),
{
    if l == '"' {
        Some('"')
    } else if l == '\\' {
        Some('\\')
    } else if l == 'b' {
        Some('\u{8}')
    } else if l == 't' {
        Some('\t')
    } else if l == 'n' {
        Some('\n')
    } else if l == 'f' {
        Some('\u{c}')
    } else if l == 'r' {
        Some('\r')
    } else {
        None
    }
}

/// Appends the escape of `c` to `out`.
pub fn push_escape_char(out: &mut String, c: char)
    ensures
        final(out)@ == old(out)@ + escape_char(c),
{
    let ghost start = out@;
    match short_escape_of(c) {
        Some(l) => {
            push_char(out, '\\');
            push_char(out, l);
            assert(out@ =~= start + escape_char(c));
        },
        None => {
            let v = c as u32;
            if v < 0x20 {
                push_char(out, '\\');
                push_char(out, 'u');
                push_char(out, '0');
                push_char(out, '0');
                push_char(out, hex_char(v / 16));
                push_char(out, hex_char(v % 16));
                assert(out@ =~= start + escape_char(c));
            } else {
                push_char(out, c);
                assert(out@ =~= start + escape_char(c));
            }
        },
    }
}

/// Appends the inside of the JSON string literal that holds `s` to `out`.
pub fn push_escaped(out: &mut String, s: &str)
    ensures
        final(out)@ == old(out)@ + escaped(s@),
{
    let ghost start = out@;
    for c in it: s.chars()
        invariant
            it.seq() == s@,
            out@ == start + escaped(it.seq().take(it.index() as int)),
    {
        proof {
            let k = it.index() as int;
            lemma_escaped_push(it.seq().take(k), c);
            assert(it.seq().take(k).push(c) =~= it.seq().take(k + 1));
        }
        push_escape_char(out, c);
        proof {
            let k = it.index() as int;
            assert(out@ =~= start + escaped(it.seq().take(k)) + escape_char(c));
        }
    }
    proof {
        assert(s@.take(s@.len() as int) =~= s@);
    }
}

/// Reads one escaped character of `t` at position `i`, as `unescape_front` does.
fn read_escape(t: &Vec<char>, i: usize) -> (r: Option<(char, usize)>)
    requires
        i <= t.len(),
    ensures
        match r {
            Some((c, n)) => unescape_front(t@.skip(i as int)) == Some((c, n as int)),
            None => unescape_front(t@.skip(i as int)) is None,
        },
{
    let ghost x = t@.skip(i as int);
    if i == t.len() {
        return None;
    }
    let c0 = t[i];
    assert(x[0] == c0);
    if c0 == '"' {
        None
    } else if c0 != '\\' {
        if (c0 as u32) < 0x20 {
            None
        } else {
            Some((c0, 1))
        }
    } else if i + 1 >= t.len() {
        None
    } else {
        let c1 = t[i + 1];
        assert(x[1] == c1);
        if c1 == 'u' {
            if t.len() - i > 5 && t[i + 2] == '0' && t[i + 3] == '0' && (t[i + 4] == '0' || t[i + 4] == '1') {
                assert(x[2] == t@[i + 2] && x[3] == t@[i + 3] && x[4] == t@[i + 4] && x[5] == t@[i + 5]);
                match hex_char_value(t[i + 5]) {
                    Some(h) => {
                        let hi: u32 = if t[i + 4] == '0' { 0 } else { 1 };
                        let v: u32 = hi * 16 + h;
                        let c = (v as u8) as char;
                        if short_escape_of(c).is_none() {
                            Some((c, 6))
                        } else {
                            None
                        }
                    },
                    None => None,
                }
            } else {
                proof {
                    if x.len() >= 6 {
                        assert(x[2] == t@[i + 2] && x[3] == t@[i + 3] && x[4] == t@[i + 4]);
                    }
                }
                None
            }
        } else {
            match short_unescape_of(c1) {
                Some(c) => Some((c, 2)),
                None => None,
            }
        }
    }
}

/// `t` holds `out` escaped from `start` to `i`, and `s` escaped and then a
/// quote from `start` on, and `out` starts `s`: then either `out` is all of
/// `s` and a quote stands at `i`, or the next character of `s` is read at `i`.
proof fn lemma_string_next(t: Seq<char>, start: int, i: int, out: Seq<char>, s: Seq<char>)
    requires
        string_at(t, start, s),
        start <= i <= t.len(),
        t.subrange(start, i) == escaped(out),
        out.len() <= s.len(),
        s.subrange(0, out.len() as int) == out,
    ensures
        out.len() == s.len() ==> out == s && i < t.len() && t[i] == '"',
        out.len() < s.len() ==> i < t.len() && t[i] != '"' && unescape_front(t.skip(i)) == Some((s[out.len() as int], escape_char(s[out.len() as int]).len() as int)),
{
    let k = out.len() as int;
    let e = escaped(s);
    assert(s =~= s.subrange(0, k) + s.skip(k));
    lemma_escaped_concat(s.subrange(0, k), s.skip(k));
    assert(escaped(out).len() == i - start);
    if k == s.len() {
        assert(out =~= s);
    } else {
        lemma_escaped_front(s.skip(k));
        assert(s.skip(k).skip(1) =~= s.skip(k + 1));
        let ec = escape_char(s[k]);
        lemma_escape_char_shape(s[k]);
        let rest = t.skip(i + ec.len());
        assert(e =~= escaped(out) + ec + escaped(s.skip(k + 1)));
        assert(t.skip(i) =~= ec + rest) by {
            assert forall|j: int| 0 <= j < ec.len() implies t.skip(i)[j] == ec[j] by {
                assert(t[i + j] == t.subrange(start, start + e.len())[i - start + j]);
            }
        }
        lemma_unescape_escape(s[k], rest);
        assert(t[i] == ec[0]);
    }
}

/// Reads the inside of a JSON string literal of `t` from `start` up to its
/// closing quote: the text it holds and the position of that quote.
pub fn read_string(t: &Vec<char>, start: usize) -> (r: Option<(String, usize)>)
    requires
        start <= t.len(),
    ensures
        r matches Some((s, end)) ==> string_at(t@, start as int, s@) && end == start + escaped(s@).len(),
        forall|s: Seq<char>| #[trigger] string_at(t@, start as int, s) ==> (r matches Some((x, end)) && x@ == s && end == start + escaped(s).len()),
{
    let mut out = String::new();
    let mut i: usize = start;
    loop
        invariant
            start <= i <= t.len(),
            t@.subrange(start as int, i as int) == escaped(out@),
            forall|s: Seq<char>| #[trigger] string_at(t@, start as int, s) ==> out@.len() <= s.len() && s.subrange(0, out@.len() as int) == out@,
        decreases t.len() - i,
    {
        if i == t.len() || t[i] == '"' {
            proof {
                assert forall|s: Seq<char>| #[trigger] string_at(t@, start as int, s) implies out@.len() == s.len() && i < t.len() by {
                    lemma_string_next(t@, start as int, i as int, out@, s);
                }
            }
            if i == t.len() {
                proof {
                    assert forall|s: Seq<char>| !#[trigger] string_at(t@, start as int, s) by {
                        if string_at(t@, start as int, s) {
                            lemma_string_next(t@, start as int, i as int, out@, s);
                        }
                    }
                }
                return None;
            }
            proof {
                assert forall|s: Seq<char>| #[trigger] string_at(t@, start as int, s) implies out@ == s by {
                    lemma_string_next(t@, start as int, i as int, out@, s);
                }
            }
            return Some((out, i));
        }
        match read_escape(t, i) {
            None => {
                proof {
                    assert forall|s: Seq<char>| !#[trigger] string_at(t@, start as int, s) by {
                        if string_at(t@, start as int, s) {
                            lemma_string_next(t@, start as int, i as int, out@, s);
                        }
                    }
                }
                return None;
            },
            Some((c, n)) => {
                let ghost old_out = out@;
                proof {
                    lemma_unescape_sound(t@.skip(i as int));
                    lemma_escaped_push(old_out, c);
                    assert(t@.subrange(start as int, (i + n) as int) =~= t@.subrange(start as int, i as int) + t@.skip(i as int).subrange(0, n as int));
                    assert forall|s: Seq<char>| #[trigger] string_at(t@, start as int, s) implies old_out.len() < s.len() && s[old_out.len() as int] == c by {
                        lemma_string_next(t@, start as int, i as int, old_out, s);
                    }
                }
                push_char(&mut out, c);
                i = i + n;
                proof {
                    assert forall|s: Seq<char>| #[trigger] string_at(t@, start as int, s) implies out@.len() <= s.len() && s.subrange(0, out@.len() as int) == out@ by {
                        assert(s.subrange(0, out@.len() as int) =~= s.subrange(0, old_out.len() as int).push(c));
                    }
                }
            },
        }
    }
}

} // verus!
