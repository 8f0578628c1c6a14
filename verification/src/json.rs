//! JSON string-literal escaping and decoding, with exact specifications.
//!
//! Request bodies embed conversation text inside JSON string literals;
//! stream parsing reads fragment text back out of them. `lemma_escape_decode`
//! shows the two are inverse, so no text is ever mutated on the way through.

use vstd::prelude::*;
use crate::text::push_char;

verus! {

/// The hexadecimal digit (lower case) for a value below sixteen.
pub open spec fn hex_digit(n: int) -> char {
    if n == 0 {
        '0'
    } else if n == 1 {
        '1'
    } else if n == 2 {
        '2'
    } else if n == 3 {
        '3'
    } else if n == 4 {
        '4'
    } else if n == 5 {
        '5'
    } else if n == 6 {
        '6'
    } else if n == 7 {
        '7'
    } else if n == 8 {
        '8'
    } else if n == 9 {
        '9'
    } else if n == 10 {
        'a'
    } else if n == 11 {
        'b'
    } else if n == 12 {
        'c'
    } else if n == 13 {
        'd'
    } else if n == 14 {
        'e'
    } else if n == 15 {
        'f'
    } else {
        '0'
    }
}

/// The value of a hexadecimal digit, lower or upper case.
pub open spec fn hex_val(c: char) -> Option<int> {
    if c == '0' {
        Some(0int)
    } else if c == '1' {
        Some(1int)
    } else if c == '2' {
        Some(2int)
    } else if c == '3' {
        Some(3int)
    } else if c == '4' {
        Some(4int)
    } else if c == '5' {
        Some(5int)
    } else if c == '6' {
        Some(6int)
    } else if c == '7' {
        Some(7int)
    } else if c == '8' {
        Some(8int)
    } else if c == '9' {
        Some(9int)
    } else if c == 'a' || c == 'A' {
        Some(10int)
    } else if c == 'b' || c == 'B' {
        Some(11int)
    } else if c == 'c' || c == 'C' {
        Some(12int)
    } else if c == 'd' || c == 'D' {
        Some(13int)
    } else if c == 'e' || c == 'E' {
        Some(14int)
    } else if c == 'f' || c == 'F' {
        Some(15int)
    } else {
        None
    }
}

/// How one character is written inside a JSON string literal: the common
/// short escapes, `\u00XX` for other control characters, and the character
/// itself otherwise.
pub open spec fn escape_char(c: char) -> Seq<char> {
    if c == '"' {
        seq!['\\', '"']
    } else if c == '\\' {
        seq!['\\', '\\']
    } else if c == '\n' {
        seq!['\\', 'n']
    } else if c == '\r' {
        seq!['\\', 'r']
    } else if c == '\t' {
        seq!['\\', 't']
    } else if (c as u32) < 32 {
        seq!['\\', 'u', '0', '0', hex_digit((c as u32) as int / 16), hex_digit(
            (c as u32) as int % 16,
        )]
    } else {
        seq![c]
    }
}

/// The body of the JSON string literal that denotes `s` (without the
/// surrounding quotes).
pub open spec fn json_escape_seq(s: Seq<char>) -> Seq<char>
    decreases s.len(),
{
    if s.len() == 0 {
        Seq::empty()
    } else {
        escape_char(s[0]) + json_escape_seq(s.drop_first())
    }
}

/// Escaping distributes over concatenation.
pub proof fn lemma_json_escape_app(a: Seq<char>, b: Seq<char>)
    ensures
        json_escape_seq(a + b) == json_escape_seq(a) + json_escape_seq(b),
    decreases a.len(),
{
    if a.len() == 0 {
        assert(a + b =~= b);
        assert(json_escape_seq(a) + json_escape_seq(b) =~= json_escape_seq(b));
    } else {
        assert((a + b).drop_first() =~= a.drop_first() + b);
        assert((a + b)[0] == a[0]);
        lemma_json_escape_app(a.drop_first(), b);
        assert(escape_char(a[0]) + (json_escape_seq(a.drop_first()) + json_escape_seq(b)) =~= (
        escape_char(a[0]) + json_escape_seq(a.drop_first())) + json_escape_seq(b));
    }
}

fn hex_digit_ex(n: u8) -> (c: char)
    requires
        n < 16,
    ensures
        c == hex_digit(n as int),
{
    if n == 0 {
        '0'
    } else if n == 1 {
        '1'
    } else if n == 2 {
        '2'
    } else if n == 3 {
        '3'
    } else if n == 4 {
        '4'
    } else if n == 5 {
        '5'
    } else if n == 6 {
        '6'
    } else if n == 7 {
        '7'
    } else if n == 8 {
        '8'
    } else if n == 9 {
        '9'
    } else if n == 10 {
        'a'
    } else if n == 11 {
        'b'
    } else if n == 12 {
        'c'
    } else if n == 13 {
        'd'
    } else if n == 14 {
        'e'
    } else {
        'f'
    }
}

fn hex_val_ex(c: char) -> (r: Option<u8>)
    ensures
        match r {
            Some(v) => hex_val(c) == Some(v as int) && v < 16,
            None => hex_val(c) is None,
        },
{
    if c == '0' {
        Some(0)
    } else if c == '1' {
        Some(1)
    } else if c == '2' {
        Some(2)
    } else if c == '3' {
        Some(3)
    } else if c == '4' {
        Some(4)
    } else if c == '5' {
        Some(5)
    } else if c == '6' {
        Some(6)
    } else if c == '7' {
        Some(7)
    } else if c == '8' {
        Some(8)
    } else if c == '9' {
        Some(9)
    } else if c == 'a' || c == 'A' {
        Some(10)
    } else if c == 'b' || c == 'B' {
        Some(11)
    } else if c == 'c' || c == 'C' {
        Some(12)
    } else if c == 'd' || c == 'D' {
        Some(13)
    } else if c == 'e' || c == 'E' {
        Some(14)
    } else if c == 'f' || c == 'F' {
        Some(15)
    } else {
        None
    }
}

/// Escapes `s` for embedding in a JSON string literal.
pub fn json_escape(s: &str) -> (r: String)
    ensures
        r@ == json_escape_seq(s@),
{
    let n = s.unicode_len();
    let mut r = String::new();
    let mut i: usize = 0;
    while i < n
        invariant
            n == s@.len(),
            i <= n,
            r@ == json_escape_seq(s@.take(i as int)),
        decreases n - i,
    {
        let c = s.get_char(i);
        if c == '"' {
            r.append("\\\"");
            proof {
                reveal_strlit("\\\"");
            }
        } else if c == '\\' {
            r.append("\\\\");
            proof {
                reveal_strlit("\\\\");
            }
        } else if c == '\n' {
            r.append("\\n");
            proof {
                reveal_strlit("\\n");
            }
        } else if c == '\r' {
            r.append("\\r");
            proof {
                reveal_strlit("\\r");
            }
        } else if c == '\t' {
            r.append("\\t");
            proof {
                reveal_strlit("\\t");
            }
        } else if (c as u32) < 32 {
            let code = c as u32;
            r.append("\\u00");
            push_char(&mut r, hex_digit_ex((code / 16) as u8));
            push_char(&mut r, hex_digit_ex((code % 16) as u8));
            proof {
                reveal_strlit("\\u00");
            }
        } else {
            push_char(&mut r, c);
        }
        proof {
            assert(s@.take(i + 1) =~= s@.take(i as int) + seq![s@[i as int]]);
            lemma_json_escape_app(s@.take(i as int), seq![s@[i as int]]);
            assert(seq![s@[i as int]].drop_first() =~= Seq::<char>::empty());
            assert(seq![s@[i as int]][0] == s@[i as int]);
            assert(json_escape_seq(Seq::<char>::empty()) =~= Seq::<char>::empty());
            assert(escape_char(s@[i as int]) + Seq::<char>::empty() =~= escape_char(
                s@[i as int],
            ));
            assert(json_escape_seq(seq![s@[i as int]]) =~= escape_char(s@[i as int]));
            assert(r@ =~= json_escape_seq(s@.take(i as int)) + escape_char(s@[i as int]));
        }
        i += 1;
    }
    proof {
        assert(s@.take(n as int) =~= s@);
    }
    r
}

/// What a short escape `\c` stands for. `u` is handled separately.
pub open spec fn unescape_short(c: char) -> Option<char> {
    if c == '"' {
        Some('"')
    } else if c == '\\' {
        Some('\\')
    } else if c == '/' {
        Some('/')
    } else if c == 'n' {
        Some('\n')
    } else if c == 'r' {
        Some('\r')
    } else if c == 't' {
        Some('\t')
    } else if c == 'b' {
        Some(8u32 as char)
    } else if c == 'f' {
        Some(12u32 as char)
    } else {
        None
    }
}

/// Decodes a JSON string literal body: the characters of `s` up to an
/// unescaped closing quote. Returns the decoded text and the number of
/// input characters consumed, closing quote included. `None` when the
/// literal is unterminated or malformed (`\u` escapes are accepted for
/// code points below 256).
pub open spec fn decode_json_string(s: Seq<char>) -> Option<(Seq<char>, int)>
    decreases s.len(),
{
    if s.len() == 0 {
        None
    } else if s[0] == '"' {
        Some((Seq::empty(), 1int))
    } else if s[0] == '\\' {
        if s.len() < 2 {
            None
        } else if s[1] == 'u' {
            if s.len() < 6 {
                None
            } else if s[2] == '0' && s[3] == '0' && hex_val(s[4]) is Some && hex_val(
                s[5],
            ) is Some {
                match decode_json_string(s.skip(6)) {
                    Some(p) => Some(
                        (
                            seq![
                                (((hex_val(s[4])->0 * 16 + hex_val(s[5])->0) as u8) as char)
                            ] + p.0,
                            6 + p.1,
                        ),
                    ),
                    None => None,
                }
            } else {
                None
            }
        } else {
            match unescape_short(s[1]) {
                Some(c) => match decode_json_string(s.skip(2)) {
                    Some(p) => Some((seq![c] + p.0, 2 + p.1)),
                    None => None,
                },
                None => None,
            }
        }
    } else {
        match decode_json_string(s.skip(1)) {
            Some(p) => Some((seq![s[0]] + p.0, 1 + p.1)),
            None => None,
        }
    }
}

proof fn lemma_hex_val_digit(x: int)
    requires
        0 <= x < 16,
    ensures
        hex_val(hex_digit(x)) == Some(x),
{
}

/// Decoding undoes escaping: the literal body written for `s`, followed by
/// the closing quote and anything after it, decodes back to exactly `s`.
/// No text is mutated on the way into a request body.
pub proof fn lemma_escape_decode(s: Seq<char>, t: Seq<char>)
    requires
        t.len() > 0,
        t[0] == '"',
    ensures
        decode_json_string(json_escape_seq(s) + t) == Some(
            (s, json_escape_seq(s).len() + 1int),
        ),
    decreases s.len(),
{
    let w = json_escape_seq(s) + t;
    if s.len() == 0 {
        assert(w =~= t);
    } else {
        let c = s[0];
        let e = escape_char(c);
        let rest = json_escape_seq(s.drop_first()) + t;
        assert(w =~= e + rest);
        lemma_escape_decode(s.drop_first(), t);
        assert(decode_json_string(rest) == Some(
            (s.drop_first(), json_escape_seq(s.drop_first()).len() + 1int),
        ));
        if c == '"' || c == '\\' || c == '\n' || c == '\r' || c == '\t' {
            assert(e.len() == 2);
            assert(w[0] == '\\' && w.len() >= 2);
            assert(w[1] == e[1]);
            assert(w.skip(2) =~= rest);
            assert(unescape_short(e[1]) == Some(c));
            assert(seq![c] + s.drop_first() =~= s);
        } else if (c as u32) < 32 {
            assert(e.len() == 6);
            assert(w[0] == '\\' && w[1] == 'u' && w[2] == '0' && w[3] == '0');
            assert(w.len() >= 6);
            assert(w[4] == hex_digit((c as u32) as int / 16));
            assert(w[5] == hex_digit((c as u32) as int % 16));
            lemma_hex_val_digit((c as u32) as int / 16);
            lemma_hex_val_digit((c as u32) as int % 16);
            assert(w.skip(6) =~= rest);
            assert(hex_val(w[4])->0 * 16 + hex_val(w[5])->0 == (c as u32) as int);
            vstd::utf8::char_u32_cast(c, c as u32);
            assert((((c as u32) as int as u8) as char) == c);
            assert(seq![c] + s.drop_first() =~= s);
        } else {
            assert(e =~= seq![c]);
            assert(w[0] == c);
            assert(c != '"' && c != '\\');
            assert(w.skip(1) =~= rest);
            assert(seq![c] + s.drop_first() =~= s);
        }
    }
}

/// Decodes the JSON string literal whose body starts at index `start` of
/// `s` (just past the opening quote), as executable code.
pub fn decode_json_string_at(s: &str, start: usize) -> (r: Option<String>)
    requires
        start <= s@.len(),
    ensures
        match r {
            Some(t) => decode_json_string(s@.skip(start as int)) matches Some(p) && t@ == p.0,
            None => decode_json_string(s@.skip(start as int)) is None,
        },
{
    let n = s.unicode_len();
    let mut out = String::new();
    let mut i: usize = start;
    loop
        invariant
            n == s@.len(),
            start <= i <= n,
            match decode_json_string(s@.skip(i as int)) {
                Some(p) => decode_json_string(s@.skip(start as int)) matches Some(q) && q.0
                    == out@ + p.0,
                None => decode_json_string(s@.skip(start as int)) is None,
            },
        decreases n - i,
    {
        if i == n {
            proof {
                assert(s@.skip(i as int).len() == 0);
            }
            return None;
        }
        let c = s.get_char(i);
        proof {
            assert(s@.skip(i as int)[0] == s@[i as int]);
        }
        if c == '"' {
            proof {
                let p = decode_json_string(s@.skip(i as int))->0;
                assert(out@ + p.0 =~= out@);
            }
            return Some(out);
        } else if c == '\\' {
            if n - i < 2 {
                proof {
                    assert(s@.skip(i as int).len() < 2);
                }
                return None;
            }
            let e = s.get_char(i + 1);
            proof {
                assert(s@.skip(i as int)[1] == s@[i + 1]);
            }
            if e == 'u' {
                if n - i < 6 {
                    proof {
                        assert(s@.skip(i as int).len() < 6);
                    }
                    return None;
                }
                proof {
                    assert(s@.skip(i as int)[2] == s@[i + 2]);
                    assert(s@.skip(i as int)[3] == s@[i + 3]);
                    assert(s@.skip(i as int)[4] == s@[i + 4]);
                    assert(s@.skip(i as int)[5] == s@[i + 5]);
                }
                if s.get_char(i + 2) != '0' || s.get_char(i + 3) != '0' {
                    return None;
                }
                let h = hex_val_ex(s.get_char(i + 4));
                let l = hex_val_ex(s.get_char(i + 5));
                match (h, l) {
                    (Some(hv), Some(lv)) => {
                        let b: u8 = hv * 16 + lv;
                        push_char(&mut out, b as char);
                        proof {
                            assert(s@.skip(i as int).skip(6) =~= s@.skip(i + 6));
                            let p = decode_json_string(s@.skip(i + 6));
                            if p is Some {
                                let q = p->0;
                                assert(out@.drop_last() + (seq![b as char] + q.0) =~= (
                                out@.drop_last() + seq![b as char]) + q.0);
                            }
                        }
                        i += 6;
                    },
                    _ => {
                        return None;
                    },
                }
            } else {
                let d: char = if e == '"' {
                    '"'
                } else if e == '\\' {
                    '\\'
                } else if e == '/' {
                    '/'
                } else if e == 'n' {
                    '\n'
                } else if e == 'r' {
                    '\r'
                } else if e == 't' {
                    '\t'
                } else if e == 'b' {
                    8u8 as char
                } else if e == 'f' {
                    12u8 as char
                } else {
                    return None;
                };
                proof {
                    assert(unescape_short(s@[i + 1]) == Some(d));
                }
                push_char(&mut out, d);
                proof {
                    assert(s@.skip(i as int).skip(2) =~= s@.skip(i + 2));
                    let p = decode_json_string(s@.skip(i + 2));
                    if p is Some {
                        let q = p->0;
                        assert(out@.drop_last() + (seq![d] + q.0) =~= (out@.drop_last()
                            + seq![d]) + q.0);
                    }
                }
                i += 2;
            }
        } else {
            push_char(&mut out, c);
            proof {
                assert(s@.skip(i as int).skip(1) =~= s@.skip(i + 1));
                let p = decode_json_string(s@.skip(i + 1));
                if p is Some {
                    let q = p->0;
                    assert(out@.drop_last() + (seq![c] + q.0) =~= (out@.drop_last()
                        + seq![c]) + q.0);
                }
            }
            i += 1;
        }
    }
}

} // verus!
