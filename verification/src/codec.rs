//! Encoding and decoding of JSON string contents: the escape sequences that
//! may appear between the quotes of a JSON string, and the escaping applied
//! when a string is written back out.

use vstd::prelude::*;

verus! {

/// True for an ASCII hexadecimal digit.
pub open spec fn is_hex_digit(c: char) -> bool {
    (48 <= c as u32 <= 57) || (97 <= c as u32 <= 102) || (65 <= c as u32 <= 70)
}

/// Numeric value of a hexadecimal digit (0 for other characters).
pub open spec fn hex_val(c: char) -> int {
    if 48 <= c as u32 <= 57 {
        c as u32 - 48
    } else if 97 <= c as u32 <= 102 {
        c as u32 - 87
    } else if 65 <= c as u32 <= 70 {
        c as u32 - 55
    } else {
        0
    }
}

/// Value of the four hexadecimal digits at `i`.
pub open spec fn spec_hex4(s: Seq<char>, i: int) -> int {
    hex_val(s[i]) * 4096 + hex_val(s[i + 1]) * 256 + hex_val(s[i + 2]) * 16 + hex_val(s[i + 3])
}

/// One element of a JSON string body starting at `i` (strictly before `hi`):
/// either a plain character or one escape sequence, decoded to the character
/// it denotes, together with the position just after it.  A `\uXXXX` escape
/// holding a high surrogate must be followed by a low-surrogate escape, and
/// the pair denotes one supplementary-plane character; a lone surrogate
/// escape denotes nothing.
pub open spec fn spec_next_elem(s: Seq<char>, i: int, hi: int) -> Option<(char, int)> {
    if i < 0 || i >= hi || hi > s.len() {
        None
    } else if s[i] != '\\' {
        Some((s[i], i + 1))
    } else if i + 2 > hi {
        None
    } else {
        let e = s[i + 1];
        if e == '"' {
            Some(('"', i + 2))
        } else if e == '\\' {
            Some(('\\', i + 2))
        } else if e == '/' {
            Some(('/', i + 2))
        } else if e == 'b' {
            Some(('\u{0008}', i + 2))
        } else if e == 'f' {
            Some(('\u{000c}', i + 2))
        } else if e == 'n' {
            Some(('\n', i + 2))
        } else if e == 'r' {
            Some(('\r', i + 2))
        } else if e == 't' {
            Some(('\t', i + 2))
        } else if e == 'u' {
            if i + 6 <= hi && is_hex_digit(s[i + 2]) && is_hex_digit(s[i + 3]) && is_hex_digit(
                s[i + 4],
            ) && is_hex_digit(s[i + 5]) {
                let v = spec_hex4(s, i + 2);
                if v < 0xD800 || v >= 0xE000 {
                    Some(((v as u32 as char), i + 6))
                } else if v < 0xDC00 {
                    if i + 12 <= hi && s[i + 6] == '\\' && s[i + 7] == 'u' && is_hex_digit(
                        s[i + 8],
                    ) && is_hex_digit(s[i + 9]) && is_hex_digit(s[i + 10]) && is_hex_digit(
                        s[i + 11],
                    ) {
                        let w = spec_hex4(s, i + 8);
                        if 0xDC00 <= w < 0xE000 {
                            Some(
                                (
                                    ((0x10000 + (v - 0xD800) * 0x400 + (w - 0xDC00)) as u32 as char),
                                    i + 12,
                                ),
                            )
                        } else {
                            None
                        }
                    } else {
                        None
                    }
                } else {
                    None
                }
            } else {
                None
            }
        } else {
            None
        }
    }
}

/// The characters denoted by the string body between `i` and `hi`, appended
/// to `acc`; `None` if the body is not a valid sequence of elements.
pub open spec fn spec_decode_range(s: Seq<char>, i: int, hi: int, acc: Seq<char>) -> Option<
    Seq<char>,
>
    decreases hi - i,
{
    if i >= hi {
        if i == hi {
            Some(acc)
        } else {
            None
        }
    } else {
        match spec_next_elem(s, i, hi) {
            None => None,
            Some(p) => {
                if i < p.1 <= hi {
                    spec_decode_range(s, p.1, hi, acc.push(p.0))
                } else {
                    None
                }
            },
        }
    }
}

/// Relies on `char::from_u32`: `Some` exactly when the value is a Unicode
/// scalar value (not a surrogate and at most 0x10FFFF), and the resulting
/// character casts back to the same value.
#[verifier::external_body]
pub(crate) fn char_from_u32(v: u32) -> (r: Option<char>)
    ensures
        match r {
            Some(c) => c as u32 == v,
            None => 0xD800 <= v < 0xE000 || v > 0x10FFFF,
        },
{
    char::from_u32(v)
}

/// Relies on `String::push`: appends exactly the given character.
#[verifier::external_body]
pub(crate) fn push_char(out: &mut String, c: char)
    ensures
        final(out)@ == old(out)@.push(c),
{
    out.push(c);
}

/// Decides `is_hex_digit` on a concrete character.
pub fn is_hex_char(c: char) -> (r: bool)
    ensures
        r == is_hex_digit(c),
{
    let v = c as u32;
    (48 <= v && v <= 57) || (97 <= v && v <= 102) || (65 <= v && v <= 70)
}

/// Numeric value of a hexadecimal digit.
pub fn hex_val_x(c: char) -> (r: u32)
    requires
        is_hex_digit(c),
    ensures
        r as int == hex_val(c),
        r < 16,
{
    let v = c as u32;
    if v <= 57 {
        v - 48
    } else if v >= 97 {
        v - 87
    } else {
        v - 55
    }
}

/// Reads one element of a JSON string body, per `spec_next_elem`.
pub fn next_elem(s: &str, n: usize, i: usize, hi: usize) -> (r: Option<(char, usize)>)
    requires
        n == s@.len(),
        i < hi <= n,
    ensures
        match r {
            Some(p) => spec_next_elem(s@, i as int, hi as int) == Some((p.0, p.1 as int)) && i
                < p.1 <= hi,
            None => spec_next_elem(s@, i as int, hi as int) is None,
        },
{
    let c = s.get_char(i);
    if c != '\\' {
        return Some((c, i + 1));
    }
    if hi - i < 2 {
        return None;
    }
    let e = s.get_char(i + 1);
    if e == '"' {
        return Some(('"', i + 2));
    }
    if e == '\\' {
        return Some(('\\', i + 2));
    }
    if e == '/' {
        return Some(('/', i + 2));
    }
    if e == 'b' {
        return Some(('\u{0008}', i + 2));
    }
    if e == 'f' {
        return Some(('\u{000c}', i + 2));
    }
    if e == 'n' {
        return Some(('\n', i + 2));
    }
    if e == 'r' {
        return Some(('\r', i + 2));
    }
    if e == 't' {
        return Some(('\t', i + 2));
    }
    if e != 'u' {
        return None;
    }
    if hi - i < 6 {
        return None;
    }
    let c2 = s.get_char(i + 2);
    let c3 = s.get_char(i + 3);
    let c4 = s.get_char(i + 4);
    let c5 = s.get_char(i + 5);
    if !(is_hex_char(c2) && is_hex_char(c3) && is_hex_char(c4) && is_hex_char(c5)) {
        return None;
    }
    let v: u32 = hex_val_x(c2) * 4096 + hex_val_x(c3) * 256 + hex_val_x(c4) * 16 + hex_val_x(c5);
    proof {
        assert(v as int == spec_hex4(s@, i as int + 2));
    }
    if v < 0xD800 || v >= 0xE000 {
        match char_from_u32(v) {
            Some(ch) => {
                proof {
                    vstd::utf8::char_u32_cast(ch, v);
                }
                Some((ch, i + 6))
            },
            None => vstd::pervasive::unreached(),
        }
    } else if v < 0xDC00 {
        if hi - i < 12 {
            return None;
        }
        if s.get_char(i + 6) != '\\' {
            return None;
        }
        if s.get_char(i + 7) != 'u' {
            return None;
        }
        let c8 = s.get_char(i + 8);
        let c9 = s.get_char(i + 9);
        let c10 = s.get_char(i + 10);
        let c11 = s.get_char(i + 11);
        if !(is_hex_char(c8) && is_hex_char(c9) && is_hex_char(c10) && is_hex_char(c11)) {
            return None;
        }
        let w: u32 = hex_val_x(c8) * 4096 + hex_val_x(c9) * 256 + hex_val_x(c10) * 16 + hex_val_x(
            c11,
        );
        proof {
            assert(w as int == spec_hex4(s@, i as int + 8));
        }
        if 0xDC00 <= w && w < 0xE000 {
            let cp: u32 = 0x10000 + (v - 0xD800) * 0x400 + (w - 0xDC00);
            match char_from_u32(cp) {
                Some(ch) => {
                    proof {
                        vstd::utf8::char_u32_cast(ch, cp);
                    }
                    Some((ch, i + 12))
                },
                None => vstd::pervasive::unreached(),
            }
        } else {
            None
        }
    } else {
        None
    }
}

/// Decodes the JSON string body between `lo` and `hi`, per
/// `spec_decode_range`.
pub fn decode_range(s: &str, n: usize, lo: usize, hi: usize) -> (r: Option<String>)
    requires
        n == s@.len(),
        lo <= hi <= n,
    ensures
        match r {
            Some(t) => spec_decode_range(s@, lo as int, hi as int, Seq::empty()) == Some(t@),
            None => spec_decode_range(s@, lo as int, hi as int, Seq::empty()) is None,
        },
{
    let mut acc = String::new();
    let mut i: usize = lo;
    while i < hi
        invariant
            lo <= i <= hi <= n,
            n == s@.len(),
            spec_decode_range(s@, lo as int, hi as int, Seq::empty()) == spec_decode_range(
                s@,
                i as int,
                hi as int,
                acc@,
            ),
        decreases hi - i,
    {
        match next_elem(s, n, i, hi) {
            None => {
                return None;
            },
            Some(p) => {
                push_char(&mut acc, p.0);
                i = p.1;
            },
        }
    }
    Some(acc)
}

/// The lower-case hexadecimal digit for a value below sixteen.
pub open spec fn hex_digit_char(n: int) -> char {
    if n == 0 {
        '0'
    } else if n == 1 {
        '1'
    } else if n == 2 {
        '2'
    } else if n == 3 {
        '3'
    } else if n == 4 {
        '4'
    } else if n == 5 {
        '5'
    } else if n == 6 {
        '6'
    } else if n == 7 {
        '7'
    } else if n == 8 {
        '8'
    } else if n == 9 {
        '9'
    } else if n == 10 {
        'a'
    } else if n == 11 {
        'b'
    } else if n == 12 {
        'c'
    } else if n == 13 {
        'd'
    } else if n == 14 {
        'e'
    } else {
        'f'
    }
}

/// What a character becomes inside a written JSON string: quote and
/// backslash get a backslash, a control character becomes a `\u00..`
/// escape, and every other character stands as itself.
pub open spec fn spec_escape_char(c: char) -> Seq<char> {
    if c == '"' {
        seq!['\\', '"']
    } else if c == '\\' {
        seq!['\\', '\\']
    } else if (c as u32) < 32 {
        seq![
            '\\',
            'u',
            '0',
            '0',
            hex_digit_char(c as u32 as int / 16),
            hex_digit_char(c as u32 as int % 16),
        ]
    } else {
        seq![c]
    }
}

/// The text of `t` from `i` on, escaped and appended to `acc`.
pub open spec fn spec_escape_from(t: Seq<char>, i: int, acc: Seq<char>) -> Seq<char>
    decreases t.len() - i,
{
    if i < 0 || i >= t.len() {
        acc
    } else {
        spec_escape_from(t, i + 1, acc + spec_escape_char(t[i]))
    }
}

/// The escaped form of `t`, as it stands between the quotes of a written
/// JSON string.
pub open spec fn spec_escape(t: Seq<char>) -> Seq<char> {
    spec_escape_from(t, 0, Seq::empty())
}

/// Escaping onto an accumulator appends exactly what escaping onto an
/// empty one yields.
pub proof fn lemma_escape_from_acc(t: Seq<char>, i: int, acc: Seq<char>)
    ensures
        spec_escape_from(t, i, acc) == acc + spec_escape_from(t, i, Seq::empty()),
    decreases t.len() - i,
{
    if i < 0 || i >= t.len() {
        assert(acc + Seq::<char>::empty() =~= acc);
    } else {
        let e = spec_escape_char(t[i]);
        lemma_escape_from_acc(t, i + 1, acc + e);
        lemma_escape_from_acc(t, i + 1, Seq::<char>::empty() + e);
        assert(Seq::<char>::empty() + e =~= e);
        assert((acc + e) + spec_escape_from(t, i + 1, Seq::empty()) =~= acc + (e
            + spec_escape_from(t, i + 1, Seq::empty())));
    }
}

/// Writes the lower-case hexadecimal digit for a value below sixteen.
pub fn hex_digit(v: u32) -> (r: char)
    requires
        v < 16,
    ensures
        r == hex_digit_char(v as int),
{
    if v == 0 {
        '0'
    } else if v == 1 {
        '1'
    } else if v == 2 {
        '2'
    } else if v == 3 {
        '3'
    } else if v == 4 {
        '4'
    } else if v == 5 {
        '5'
    } else if v == 6 {
        '6'
    } else if v == 7 {
        '7'
    } else if v == 8 {
        '8'
    } else if v == 9 {
        '9'
    } else if v == 10 {
        'a'
    } else if v == 11 {
        'b'
    } else if v == 12 {
        'c'
    } else if v == 13 {
        'd'
    } else if v == 14 {
        'e'
    } else {
        'f'
    }
}


/// A character that stands as itself inside a written JSON string: not a
/// quote, not a backslash, not a control character.
pub open spec fn plain_char(c: char) -> bool {
    c != '"' && c != '\\' && c as u32 >= 32
}

/// Text entirely of plain characters.
pub open spec fn plain_text(t: Seq<char>) -> bool {
    forall|j: int| 0 <= j < t.len() ==> plain_char(#[trigger] t[j])
}

/// Plain text is left as it is by escaping.
pub proof fn lemma_escape_plain(t: Seq<char>, i: int, acc: Seq<char>)
    requires
        0 <= i <= t.len(),
        forall|j: int| i <= j < t.len() ==> plain_char(#[trigger] t[j]),
    ensures
        spec_escape_from(t, i, acc) == acc + t.subrange(i, t.len() as int),
    decreases t.len() - i,
{
    if i == t.len() {
        assert(acc + t.subrange(i, t.len() as int) =~= acc);
    } else {
        lemma_escape_plain(t, i + 1, acc + spec_escape_char(t[i]));
        assert(spec_escape_char(t[i]) =~= seq![t[i]]);
        assert((acc + seq![t[i]]) + t.subrange(i + 1, t.len() as int) =~= acc + t.subrange(
            i,
            t.len() as int,
        ));
    }
}

/// A string body region without backslashes denotes exactly its own text.
pub proof fn lemma_decode_plain(s: Seq<char>, i: int, hi: int, acc: Seq<char>)
    requires
        0 <= i <= hi <= s.len(),
        forall|j: int| i <= j < hi ==> #[trigger] s[j] != '\\',
    ensures
        spec_decode_range(s, i, hi, acc) == Some(acc + s.subrange(i, hi)),
    decreases hi - i,
{
    if i == hi {
        assert(acc + s.subrange(i, hi) =~= acc);
    } else {
        lemma_decode_plain(s, i + 1, hi, acc.push(s[i]));
        assert(acc.push(s[i]) + s.subrange(i + 1, hi) =~= acc + s.subrange(i, hi));
    }
}


} // verus!
