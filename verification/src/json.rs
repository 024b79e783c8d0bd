//! The JSON grammar of the wire format: scanners that recognise whitespace,
//! strings, numbers, literals and whole values, each as a specification
//! function over a character sequence and an executable function proved to
//! agree with it.  A scanner takes the position where an item starts and
//! yields the position just after it, or `None` where no item of that shape
//! starts there.

use vstd::prelude::*;
use crate::codec::{is_hex_digit, is_hex_char, spec_decode_range, decode_range};

verus! {

/// True for the four JSON whitespace characters.
pub open spec fn is_json_ws(c: char) -> bool {
    c == ' ' || c == '\t' || c == '\n' || c == '\r'
}

/// Position of the first non-whitespace character at or after `pos`.
pub open spec fn spec_ws_end(s: Seq<char>, pos: int) -> int
    decreases s.len() - pos,
{
    if 0 <= pos < s.len() && is_json_ws(s[pos]) {
        spec_ws_end(s, pos + 1)
    } else {
        pos
    }
}

/// Decides `is_json_ws` on a concrete character.
pub fn is_ws_char(c: char) -> (r: bool)
    ensures
        r == is_json_ws(c),
{
    c == ' ' || c == '\t' || c == '\n' || c == '\r'
}

/// Skips JSON whitespace starting at `pos`.
pub fn ws_end(s: &str, n: usize, pos: usize) -> (r: usize)
    requires
        n == s@.len(),
        pos <= n,
    ensures
        r == spec_ws_end(s@, pos as int),
        pos <= r <= n,
{
    let mut i: usize = pos;
    while i < n && is_ws_char(s.get_char(i))
        invariant
            pos <= i <= n,
            n == s@.len(),
            spec_ws_end(s@, pos as int) == spec_ws_end(s@, i as int),
        decreases n - i,
    {
        i = i + 1;
    }
    i
}

/// True for an ASCII decimal digit.
pub open spec fn is_digit(c: char) -> bool {
    48 <= c as u32 <= 57
}

/// Decides `is_digit` on a concrete character.
pub fn is_digit_char(c: char) -> (r: bool)
    ensures
        r == is_digit(c),
{
    let v = c as u32;
    48 <= v && v <= 57
}

/// Position just after the run of decimal digits starting at `pos`.
pub open spec fn spec_digits_end(s: Seq<char>, pos: int) -> int
    decreases s.len() - pos,
{
    if 0 <= pos < s.len() && is_digit(s[pos]) {
        spec_digits_end(s, pos + 1)
    } else {
        pos
    }
}

/// Skips the run of decimal digits starting at `pos`.
pub fn digits_end(s: &str, n: usize, pos: usize) -> (r: usize)
    requires
        n == s@.len(),
        pos <= n,
    ensures
        r == spec_digits_end(s@, pos as int),
        pos <= r <= n,
{
    let mut i: usize = pos;
    while i < n && is_digit_char(s.get_char(i))
        invariant
            pos <= i <= n,
            n == s@.len(),
            spec_digits_end(s@, pos as int) == spec_digits_end(s@, i as int),
        decreases n - i,
    {
        i = i + 1;
    }
    i
}

/// Position just after the string body (content plus closing quote) that
/// starts at `pos`, just inside the opening quote.  Plain characters may not
/// be control characters; escapes are a backslash and one of the eight named
/// escape characters, or `\u` and four hexadecimal digits.
pub open spec fn spec_string_body_end(s: Seq<char>, pos: int) -> Option<int>
    decreases s.len() - pos,
{
    if pos < 0 || pos >= s.len() {
        None
    } else {
        let c = s[pos];
        if c == '"' {
            Some(pos + 1)
        } else if c == '\\' {
            if pos + 2 <= s.len() && is_escape_head(s[pos + 1]) {
                spec_string_body_end(s, pos + 2)
            } else if pos + 6 <= s.len() && s[pos + 1] == 'u' && is_hex_digit(s[pos + 2])
                && is_hex_digit(s[pos + 3]) && is_hex_digit(s[pos + 4]) && is_hex_digit(
                s[pos + 5],
            ) {
                spec_string_body_end(s, pos + 6)
            } else {
                None
            }
        } else if (c as u32) < 32 {
            None
        } else {
            spec_string_body_end(s, pos + 1)
        }
    }
}

/// True for the character after a backslash in a one-character escape.
pub open spec fn is_escape_head(c: char) -> bool {
    c == '"' || c == '\\' || c == '/' || c == 'b' || c == 'f' || c == 'n' || c == 'r' || c == 't'
}

/// Decides `is_escape_head` on a concrete character.
pub fn is_escape_head_char(c: char) -> (r: bool)
    ensures
        r == is_escape_head(c),
{
    c == '"' || c == '\\' || c == '/' || c == 'b' || c == 'f' || c == 'n' || c == 'r' || c == 't'
}

/// Position just after the JSON string (both quotes included) starting at
/// `pos`.
pub open spec fn spec_string_end(s: Seq<char>, pos: int) -> Option<int> {
    if 0 <= pos < s.len() && s[pos] == '"' {
        spec_string_body_end(s, pos + 1)
    } else {
        None
    }
}

/// Scans the JSON string starting at `pos`, per `spec_string_end`.
pub fn string_end(s: &str, n: usize, pos: usize) -> (r: Option<usize>)
    requires
        n == s@.len(),
        pos <= n,
    ensures
        match r {
            Some(q) => spec_string_end(s@, pos as int) == Some(q as int) && pos + 2 <= q <= n,
            None => spec_string_end(s@, pos as int) is None,
        },
{
    if pos >= n {
        return None;
    }
    let c0 = s.get_char(pos);
    if c0 != '"' {
        return None;
    }
    proof {
        assert(spec_string_end(s@, pos as int) == spec_string_body_end(s@, pos as int + 1));
    }
    let mut i: usize = pos + 1;
    while i < n
        invariant
            pos + 1 <= i <= n,
            n == s@.len(),
            spec_string_end(s@, pos as int) == spec_string_body_end(s@, i as int),
        decreases n - i,
    {
        let c = s.get_char(i);
        if c == '"' {
            proof {
                assert(spec_string_body_end(s@, i as int) == Some(i as int + 1));
            }
            return Some(i + 1);
        }
        if c == '\\' {
            if n - i >= 2 && is_escape_head_char(s.get_char(i + 1)) {
                i = i + 2;
            } else if n - i >= 6 && s.get_char(i + 1) == 'u' && is_hex_char(s.get_char(i + 2))
                && is_hex_char(s.get_char(i + 3)) && is_hex_char(s.get_char(i + 4)) && is_hex_char(
                s.get_char(i + 5),
            ) {
                i = i + 6;
            } else {
                return None;
            }
        } else if (c as u32) < 32 {
            return None;
        } else {
            i = i + 1;
        }
    }
    None
}

/// Position just after the JSON number starting at `pos`: an optional minus
/// sign, an integer part without leading zeros, then an optional fraction
/// and an optional exponent.
pub open spec fn spec_number_end(s: Seq<char>, pos: int) -> Option<int> {
    if pos < 0 || pos >= s.len() {
        None
    } else {
        let p1 = if s[pos] == '-' {
            pos + 1
        } else {
            pos
        };
        if p1 < s.len() && is_digit(s[p1]) {
            let pi = if s[p1] == '0' {
                p1 + 1
            } else {
                spec_digits_end(s, p1)
            };
            let pf = if pi < s.len() && s[pi] == '.' {
                if pi + 1 < s.len() && is_digit(s[pi + 1]) {
                    Some(spec_digits_end(s, pi + 1))
                } else {
                    None
                }
            } else {
                Some(pi)
            };
            match pf {
                None => None,
                Some(pe) => {
                    if pe < s.len() && (s[pe] == 'e' || s[pe] == 'E') {
                        let ps = if pe + 1 < s.len() && (s[pe + 1] == '+' || s[pe + 1] == '-') {
                            pe + 2
                        } else {
                            pe + 1
                        };
                        if ps < s.len() && is_digit(s[ps]) {
                            Some(spec_digits_end(s, ps))
                        } else {
                            None
                        }
                    } else {
                        Some(pe)
                    }
                },
            }
        } else {
            None
        }
    }
}

/// Scans the JSON number starting at `pos`, per `spec_number_end`.
pub fn number_end(s: &str, n: usize, pos: usize) -> (r: Option<usize>)
    requires
        n == s@.len(),
        pos <= n,
    ensures
        match r {
            Some(q) => spec_number_end(s@, pos as int) == Some(q as int) && pos < q <= n,
            None => spec_number_end(s@, pos as int) is None,
        },
{
    if pos >= n {
        return None;
    }
    let p1 = if s.get_char(pos) == '-' {
        pos + 1
    } else {
        pos
    };
    if !(p1 < n && is_digit_char(s.get_char(p1))) {
        return None;
    }
    let pi = if s.get_char(p1) == '0' {
        p1 + 1
    } else {
        let d = digits_end(s, n, p1 + 1);
        proof {
            assert(spec_digits_end(s@, p1 as int) == spec_digits_end(s@, p1 as int + 1));
        }
        d
    };
    let pe = if pi < n && s.get_char(pi) == '.' {
        if pi + 1 < n && is_digit_char(s.get_char(pi + 1)) {
            digits_end(s, n, pi + 1)
        } else {
            return None;
        }
    } else {
        pi
    };
    if pe < n && (s.get_char(pe) == 'e' || s.get_char(pe) == 'E') {
        let ps = if pe + 1 < n && (s.get_char(pe + 1) == '+' || s.get_char(pe + 1) == '-') {
            pe + 2
        } else {
            pe + 1
        };
        if ps < n && is_digit_char(s.get_char(ps)) {
            Some(digits_end(s, n, ps))
        } else {
            None
        }
    } else {
        Some(pe)
    }
}

/// One member of a JSON object: the name as the characters its string body
/// denotes (`None` where the escapes in the name denote nothing) and the
/// span of its value.
pub struct Member {
    pub name: Option<Seq<char>>,
    pub lo: int,
    pub hi: int,
}

/// Position just after the JSON value starting at `pos`: a string, an
/// object, an array, one of the three literals, or a number.
pub open spec fn spec_value_end(s: Seq<char>, pos: int) -> Option<int>
    decreases s.len() - pos, 0int,
{
    if pos < 0 || pos >= s.len() {
        None
    } else {
        let c = s[pos];
        if c == '"' {
            spec_string_end(s, pos)
        } else if c == '{' {
            let p1 = spec_ws_end(s, pos + 1);
            if p1 < s.len() && s[p1] == '}' {
                Some(p1 + 1)
            } else if pos < p1 <= s.len() {
                match spec_members(s, p1) {
                    None => None,
                    Some(me) => Some(me.1),
                }
            } else {
                None
            }
        } else if c == '[' {
            let p1 = spec_ws_end(s, pos + 1);
            if p1 < s.len() && s[p1] == ']' {
                Some(p1 + 1)
            } else if pos < p1 <= s.len() {
                spec_elements(s, p1)
            } else {
                None
            }
        } else if c == 't' {
            if pos + 4 <= s.len() && s[pos + 1] == 'r' && s[pos + 2] == 'u' && s[pos + 3] == 'e' {
                Some(pos + 4)
            } else {
                None
            }
        } else if c == 'f' {
            if pos + 5 <= s.len() && s[pos + 1] == 'a' && s[pos + 2] == 'l' && s[pos + 3] == 's'
                && s[pos + 4] == 'e' {
                Some(pos + 5)
            } else {
                None
            }
        } else if c == 'n' {
            if pos + 4 <= s.len() && s[pos + 1] == 'u' && s[pos + 2] == 'l' && s[pos + 3] == 'l' {
                Some(pos + 4)
            } else {
                None
            }
        } else {
            spec_number_end(s, pos)
        }
    }
}

/// The members of a JSON object from `pos` (the start of the first member
/// name) to the closing brace, in order, together with the position just
/// after the brace.
pub open spec fn spec_members(s: Seq<char>, pos: int) -> Option<(Seq<Member>, int)>
    decreases s.len() - pos, 1int,
{
    match spec_string_end(s, pos) {
        None => None,
        Some(q) => {
            let p1 = spec_ws_end(s, q);
            if p1 < s.len() && s[p1] == ':' {
                let pv = spec_ws_end(s, p1 + 1);
                if pos <= pv <= s.len() {
                    match spec_value_end(s, pv) {
                        None => None,
                        Some(e) => {
                            let m = Member {
                                name: spec_decode_range(s, pos + 1, q - 1, Seq::empty()),
                                lo: pv,
                                hi: e,
                            };
                            let p2 = spec_ws_end(s, e);
                            if p2 < s.len() && s[p2] == ',' {
                                let pn = spec_ws_end(s, p2 + 1);
                                if pos < pn <= s.len() {
                                    match spec_members(s, pn) {
                                        None => None,
                                        Some(rest) => Some((seq![m] + rest.0, rest.1)),
                                    }
                                } else {
                                    None
                                }
                            } else if p2 < s.len() && s[p2] == '}' {
                                Some((seq![m], p2 + 1))
                            } else {
                                None
                            }
                        },
                    }
                } else {
                    None
                }
            } else {
                None
            }
        },
    }
}

/// Position just after the closing bracket of the array elements starting
/// at `pos` (the start of the first element).
pub open spec fn spec_elements(s: Seq<char>, pos: int) -> Option<int>
    decreases s.len() - pos, 1int,
{
    match spec_value_end(s, pos) {
        None => None,
        Some(e) => {
            let p2 = spec_ws_end(s, e);
            if p2 < s.len() && s[p2] == ',' {
                let pn = spec_ws_end(s, p2 + 1);
                if pos < pn <= s.len() {
                    spec_elements(s, pn)
                } else {
                    None
                }
            } else if p2 < s.len() && s[p2] == ']' {
                Some(p2 + 1)
            } else {
                None
            }
        },
    }
}

/// The member a lenient reader retains for a name that occurs several
/// times: the last member of `ms` whose name denotes `name`.
pub open spec fn spec_find_named(ms: Seq<Member>, name: Seq<char>) -> Option<Member>
    decreases ms.len(),
{
    if ms.len() == 0 {
        None
    } else {
        match spec_find_named(ms.drop_first(), name) {
            Some(m) => Some(m),
            None => if ms[0].name == Some(name) {
                Some(ms[0])
            } else {
                None
            },
        }
    }
}

/// What an object scan retains of the members it passed: the value spans of
/// the last member named `kind` and of the last member named `payload`, and
/// the position just after the closing brace.
pub struct MembersFound {
    pub kind: Option<(usize, usize)>,
    pub payload: Option<(usize, usize)>,
    pub end: usize,
}

/// Compares a decoded member name with a literal name.
fn string_is(t: &String, w: &str) -> (r: bool)
    ensures
        r == (t@ == w@),
{
    let tw = String::from_str(w);
    *t == tw
}

/// Scans the JSON value starting at `pos`, per `spec_value_end`.
pub fn value_end(s: &str, n: usize, pos: usize) -> (r: Option<usize>)
    requires
        n == s@.len(),
        pos <= n,
    ensures
        match r {
            Some(e) => spec_value_end(s@, pos as int) == Some(e as int) && pos < e <= n
                && (s@[pos as int] == '"' ==> pos + 2 <= e),
            None => spec_value_end(s@, pos as int) is None,
        },
    decreases n - pos, 0int,
{
    if pos >= n {
        return None;
    }
    let c = s.get_char(pos);
    if c == '"' {
        string_end(s, n, pos)
    } else if c == '{' {
        let p1 = ws_end(s, n, pos + 1);
        if p1 < n && s.get_char(p1) == '}' {
            Some(p1 + 1)
        } else {
            match members(s, n, p1) {
                None => None,
                Some(f) => Some(f.end),
            }
        }
    } else if c == '[' {
        let p1 = ws_end(s, n, pos + 1);
        if p1 < n && s.get_char(p1) == ']' {
            Some(p1 + 1)
        } else {
            elements(s, n, p1)
        }
    } else if c == 't' {
        if n - pos >= 4 && s.get_char(pos + 1) == 'r' && s.get_char(pos + 2) == 'u' && s.get_char(
            pos + 3,
        ) == 'e' {
            Some(pos + 4)
        } else {
            None
        }
    } else if c == 'f' {
        if n - pos >= 5 && s.get_char(pos + 1) == 'a' && s.get_char(pos + 2) == 'l' && s.get_char(
            pos + 3,
        ) == 's' && s.get_char(pos + 4) == 'e' {
            Some(pos + 5)
        } else {
            None
        }
    } else if c == 'n' {
        if n - pos >= 4 && s.get_char(pos + 1) == 'u' && s.get_char(pos + 2) == 'l' && s.get_char(
            pos + 3,
        ) == 'l' {
            Some(pos + 4)
        } else {
            None
        }
    } else {
        number_end(s, n, pos)
    }
}

/// Scans the members of a JSON object from `pos`, per `spec_members`,
/// retaining the value spans of the last `kind` and `payload` members.
pub fn members(s: &str, n: usize, pos: usize) -> (r: Option<MembersFound>)
    requires
        n == s@.len(),
        pos <= n,
    ensures
        match r {
            None => spec_members(s@, pos as int) is None,
            Some(f) => spec_members(s@, pos as int) matches Some(me) && {
                &&& f.end as int == me.1
                &&& pos < f.end <= n
                &&& match spec_find_named(me.0, "kind"@) {
                    None => f.kind is None,
                    Some(m) => f.kind matches Some(sp) && sp.0 as int == m.lo && sp.1 as int
                        == m.hi && pos <= sp.0 < sp.1 <= n && (s@[sp.0 as int] == '"' ==> sp.0 + 2
                        <= sp.1),
                }
                &&& match spec_find_named(me.0, "payload"@) {
                    None => f.payload is None,
                    Some(m) => f.payload matches Some(sp) && sp.0 as int == m.lo && sp.1 as int
                        == m.hi && pos <= sp.0 < sp.1 <= n,
                }
            },
        },
    decreases n - pos, 1int,
{
    let q = match string_end(s, n, pos) {
        None => {
            return None;
        },
        Some(q) => q,
    };
    let name = decode_range(s, n, pos + 1, q - 1);
    let (is_kind, is_payload) = match &name {
        None => (false, false),
        Some(t) => (string_is(t, "kind"), string_is(t, "payload")),
    };
    proof {
        assert(is_kind == (spec_decode_range(s@, pos as int + 1, q as int - 1, Seq::empty())
            == Some("kind"@)));
        assert(is_payload == (spec_decode_range(s@, pos as int + 1, q as int - 1, Seq::empty())
            == Some("payload"@)));
    }
    let p1 = ws_end(s, n, q);
    if !(p1 < n) {
        return None;
    }
    if s.get_char(p1) != ':' {
        return None;
    }
    let pv = ws_end(s, n, p1 + 1);
    let e = match value_end(s, n, pv) {
        None => {
            return None;
        },
        Some(e) => e,
    };
    let ghost m = Member {
        name: spec_decode_range(s@, pos as int + 1, q as int - 1, Seq::empty()),
        lo: pv as int,
        hi: e as int,
    };
    let p2 = ws_end(s, n, e);
    if !(p2 < n) {
        return None;
    }
    let c2 = s.get_char(p2);
    if c2 == ',' {
        let pn = ws_end(s, n, p2 + 1);
        let f = match members(s, n, pn) {
            None => {
                return None;
            },
            Some(f) => f,
        };
        proof {
            let rest = spec_members(s@, pn as int).unwrap();
            assert((seq![m] + rest.0).drop_first() =~= rest.0);
            assert((seq![m] + rest.0)[0] == m);
            assert(spec_members(s@, pos as int) matches Some(me) && me.0 == seq![m] + rest.0
                && me.1 == rest.1);
        }
        Some(
            MembersFound {
                kind: if f.kind.is_some() {
                    f.kind
                } else if is_kind {
                    Some((pv, e))
                } else {
                    None
                },
                payload: if f.payload.is_some() {
                    f.payload
                } else if is_payload {
                    Some((pv, e))
                } else {
                    None
                },
                end: f.end,
            },
        )
    } else if c2 == '}' {
        proof {
            assert(seq![m].drop_first() =~= Seq::<Member>::empty());
            assert(seq![m][0] == m);
            assert(spec_find_named(Seq::<Member>::empty(), "kind"@) is None);
            assert(spec_find_named(Seq::<Member>::empty(), "payload"@) is None);
            assert(spec_members(s@, pos as int) matches Some(me) && me.0 == seq![m] && me.1
                == p2 as int + 1);
        }
        Some(
            MembersFound {
                kind: if is_kind {
                    Some((pv, e))
                } else {
                    None
                },
                payload: if is_payload {
                    Some((pv, e))
                } else {
                    None
                },
                end: p2 + 1,
            },
        )
    } else {
        None
    }
}

/// Scans the elements of a JSON array from `pos`, per `spec_elements`.
pub fn elements(s: &str, n: usize, pos: usize) -> (r: Option<usize>)
    requires
        n == s@.len(),
        pos <= n,
    ensures
        match r {
            Some(e) => spec_elements(s@, pos as int) == Some(e as int) && pos < e <= n,
            None => spec_elements(s@, pos as int) is None,
        },
    decreases n - pos, 1int,
{
    let e = match value_end(s, n, pos) {
        None => {
            return None;
        },
        Some(e) => e,
    };
    let p2 = ws_end(s, n, e);
    if !(p2 < n) {
        return None;
    }
    let c2 = s.get_char(p2);
    if c2 == ',' {
        let pn = ws_end(s, n, p2 + 1);
        elements(s, n, pn)
    } else if c2 == ']' {
        Some(p2 + 1)
    } else {
        None
    }
}


/// A run of plain characters closed by a quote is scanned as one string
/// body ending just after that quote.
pub proof fn lemma_body_end_plain(s: Seq<char>, i: int, hi: int)
    requires
        0 <= i <= hi < s.len(),
        forall|j: int| i <= j < hi ==> crate::codec::plain_char(#[trigger] s[j]),
        s[hi] == '"',
    ensures
        spec_string_body_end(s, i) == Some(hi + 1),
    decreases hi - i,
{
    if i < hi {
        lemma_body_end_plain(s, i + 1, hi);
    }
}


} // verus!
