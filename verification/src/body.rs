use vstd::prelude::*;
use vstd::string::{StrSliceExecFns, StringExecFns};

verus! {

/// JSON insignificant whitespace.
pub open spec fn is_ws(c: char) -> bool {
    c as u32 == 32 || c as u32 == 9 || c as u32 == 10 || c as u32 == 13
}

/// The first position at or after `i` holding something other than
/// insignificant whitespace.
pub open spec fn skip_ws(s: Seq<char>, i: int) -> int
    decreases s.len() - i,
{
    if 0 <= i < s.len() && is_ws(s[i]) {
        skip_ws(s, i + 1)
    } else {
        i
    }
}

/// The value of one hexadecimal digit character, or -1.
pub open spec fn hex_val(c: char) -> int {
    if 48 <= c as u32 <= 57 {
        (c as u32) - 48
    } else if 97 <= c as u32 <= 102 {
        (c as u32) - 87
    } else if 65 <= c as u32 <= 70 {
        (c as u32) - 55
    } else {
        -1
    }
}

/// Whether the character is a hexadecimal digit.
pub open spec fn is_hex(c: char) -> bool {
    hex_val(c) >= 0
}

/// Whether four hexadecimal digits stand at position `i`.
pub open spec fn hex4_ok(s: Seq<char>, i: int) -> bool {
    &&& 0 <= i
    &&& i + 4 <= s.len()
    &&& is_hex(s[i])
    &&& is_hex(s[i + 1])
    &&& is_hex(s[i + 2])
    &&& is_hex(s[i + 3])
}

/// The value of the four hexadecimal digits at position `i`.
pub open spec fn hex4_val(s: Seq<char>, i: int) -> int {
    hex_val(s[i]) * 4096 + hex_val(s[i + 1]) * 256 + hex_val(s[i + 2]) * 16 + hex_val(s[i + 3])
}

/// The character a short JSON escape `\x` stands for, if `x` is one.
pub open spec fn short_escape(e: char) -> Option<char> {
    let u = e as u32;
    if u == 34 {
        Some('"')
    } else if u == 92 {
        Some('\\')
    } else if u == 47 {
        Some('/')
    } else if u == 98 {
        Some('\u{8}')
    } else if u == 116 {
        Some('\t')
    } else if u == 110 {
        Some('\n')
    } else if u == 102 {
        Some('\u{c}')
    } else if u == 114 {
        Some('\r')
    } else {
        None
    }
}

/// Whether a `\u` escape at `i` (pointing at the first hex digit) is a high
/// surrogate followed by a low surrogate escape.
pub open spec fn surrogate_pair_ok(s: Seq<char>, i: int) -> bool {
    &&& hex4_ok(s, i)
    &&& 0xD800 <= hex4_val(s, i) <= 0xDBFF
    &&& i + 10 <= s.len()
    &&& s[i + 4] as u32 == 92
    &&& s[i + 5] as u32 == 117
    &&& hex4_ok(s, i + 6)
    &&& 0xDC00 <= hex4_val(s, i + 6) <= 0xDFFF
}

/// The scalar value a surrogate pair encodes.
pub open spec fn surrogate_pair_val(s: Seq<char>, i: int) -> int {
    0x10000 + (hex4_val(s, i) - 0xD800) * 0x400 + (hex4_val(s, i + 6) - 0xDC00)
}

/// The text of a JSON string read from position `i` (just past the opening
/// quote) to its closing quote: the decoded characters and the position just
/// past the closing quote. `None` where the text is not a JSON string:
/// unterminated, a raw control character, or a bad escape.
pub open spec fn parse_str_from(s: Seq<char>, i: int) -> Option<(Seq<char>, int)>
    decreases s.len() - i,
{
    if i < 0 || i >= s.len() {
        None
    } else if s[i] as u32 == 34 {
        Some((Seq::empty(), i + 1))
    } else if s[i] as u32 == 92 {
        if i + 1 >= s.len() {
            None
        } else if short_escape(s[i + 1]) is Some {
            match parse_str_from(s, i + 2) {
                Some((rest, j)) => Some((seq![short_escape(s[i + 1]).unwrap()] + rest, j)),
                None => None,
            }
        } else if s[i + 1] as u32 == 117 {
            if !hex4_ok(s, i + 2) {
                None
            } else if 0xD800 <= hex4_val(s, i + 2) <= 0xDBFF {
                if surrogate_pair_ok(s, i + 2) {
                    match parse_str_from(s, i + 12) {
                        Some((rest, j)) => Some(
                            (seq![surrogate_pair_val(s, i + 2) as char] + rest, j),
                        ),
                        None => None,
                    }
                } else {
                    None
                }
            } else if 0xDC00 <= hex4_val(s, i + 2) <= 0xDFFF {
                None
            } else {
                match parse_str_from(s, i + 6) {
                    Some((rest, j)) => Some((seq![hex4_val(s, i + 2) as char] + rest, j)),
                    None => None,
                }
            }
        } else {
            None
        }
    } else if (s[i] as u32) < 32 {
        None
    } else {
        match parse_str_from(s, i + 1) {
            Some((rest, j)) => Some((seq![s[i]] + rest, j)),
            None => None,
        }
    }
}

/// The content a request body carries: the body must be a JSON object with
/// the single member `"content"` holding a string.
pub open spec fn parse_body(s: Seq<char>) -> Option<Seq<char>> {
    let i0 = skip_ws(s, 0);
    if !(i0 < s.len() && s[i0] as u32 == 123) {
        None
    } else {
        let i1 = skip_ws(s, i0 + 1);
        if !(i1 < s.len() && s[i1] as u32 == 34) {
            None
        } else {
            match parse_str_from(s, i1 + 1) {
                None => None,
                Some((key, i2)) => {
                    if key != "content"@ {
                        None
                    } else {
                        let i3 = skip_ws(s, i2);
                        if !(i3 < s.len() && s[i3] as u32 == 58) {
                            None
                        } else {
                            let i4 = skip_ws(s, i3 + 1);
                            if !(i4 < s.len() && s[i4] as u32 == 34) {
                                None
                            } else {
                                match parse_str_from(s, i4 + 1) {
                                    None => None,
                                    Some((val, i5)) => {
                                        let i6 = skip_ws(s, i5);
                                        if !(i6 < s.len() && s[i6] as u32 == 125) {
                                            None
                                        } else {
                                            if skip_ws(s, i6 + 1) == s.len() {
                                                Some(val)
                                            } else {
                                                None
                                            }
                                        }
                                    },
                                }
                            }
                        }
                    }
                },
            }
        }
    }
}

proof fn lemma_parse_str_bounds(s: Seq<char>, i: int)
    requires
        parse_str_from(s, i) is Some,
    ensures
        i < parse_str_from(s, i).unwrap().1 <= s.len(),
    decreases s.len() - i,
{
    if s[i] as u32 == 34 {
    } else if s[i] as u32 == 92 {
        if short_escape(s[i + 1]) is Some {
            lemma_parse_str_bounds(s, i + 2);
        } else if s[i + 1] as u32 == 117 {
            if 0xD800 <= hex4_val(s, i + 2) <= 0xDBFF {
                lemma_parse_str_bounds(s, i + 12);
            } else {
                lemma_parse_str_bounds(s, i + 6);
            }
        }
    } else {
        lemma_parse_str_bounds(s, i + 1);
    }
}

fn skip_ws_from(s: &str, start: usize) -> (r: usize)
    requires
        start <= s@.len(),
    ensures
        r as int == skip_ws(s@, start as int),
        start <= r <= s@.len(),
{
    let n = s.unicode_len();
    let mut i = start;
    loop
        invariant_except_break
            start <= i <= n,
            n == s@.len(),
            skip_ws(s@, start as int) == skip_ws(s@, i as int),
        ensures
            start <= i <= n,
            n == s@.len(),
            skip_ws(s@, start as int) == i,
        decreases n - i,
    {
        if i >= n {
            break;
        }
        let c = s.get_char(i);
        if !(c as u32 == 32 || c as u32 == 9 || c as u32 == 10 || c as u32 == 13) {
            proof {
                assert(!is_ws(s@[i as int]));
            }
            break;
        }
        proof {
            assert(skip_ws(s@, i as int) == skip_ws(s@, i + 1));
        }
        i += 1;
    }
    i
}

fn read_hex4(s: &str, j: usize) -> (r: Option<u32>)
    requires
        j + 4 <= s@.len(),
        s@.len() <= usize::MAX,
    ensures
        r is Some <==> hex4_ok(s@, j as int),
        r is Some ==> r.unwrap() as int == hex4_val(s@, j as int) && r.unwrap() <= 0xFFFF,
{
    let c0 = hex_digit_of(s.get_char(j));
    let c1 = hex_digit_of(s.get_char(j + 1));
    let c2 = hex_digit_of(s.get_char(j + 2));
    let c3 = hex_digit_of(s.get_char(j + 3));
    match (c0, c1, c2, c3) {
        (Some(a), Some(b), Some(c), Some(d)) => Some(a * 4096 + b * 256 + c * 16 + d),
        _ => None,
    }
}

fn hex_digit_of(c: char) -> (r: Option<u32>)
    ensures
        r is Some <==> is_hex(c),
        r is Some ==> r.unwrap() as int == hex_val(c) && r.unwrap() <= 15,
{
    let u = c as u32;
    if 48 <= u && u <= 57 {
        Some(u - 48)
    } else if 97 <= u && u <= 102 {
        Some(u - 87)
    } else if 65 <= u && u <= 70 {
        Some(u - 55)
    } else {
        None
    }
}

/// `r` with the text prefixed to its decoded characters, if it holds any.
pub open spec fn opt_prepend(p: Seq<char>, r: Option<(Seq<char>, int)>) -> Option<
    (Seq<char>, int),
> {
    match r {
        Some((v, j)) => Some((p + v, j)),
        None => None,
    }
}

proof fn lemma_opt_prepend(p1: Seq<char>, p2: Seq<char>, r: Option<(Seq<char>, int)>)
    ensures
        opt_prepend(p1, opt_prepend(p2, r)) == opt_prepend(p1 + p2, r),
{
    match r {
        Some((v, j)) => {
            assert(p1 + (p2 + v) =~= (p1 + p2) + v);
        },
        None => {},
    }
}

fn parse_string_from(s: &str, start: usize) -> (r: Option<(String, usize)>)
    requires
        start <= s@.len(),
    ensures
        r is Some <==> parse_str_from(s@, start as int) is Some,
        r is Some ==> {
            let p = parse_str_from(s@, start as int).unwrap();
            r.unwrap().0@ == p.0 && r.unwrap().1 as int == p.1 && r.unwrap().1 <= s@.len()
        },
{
    let n = s.unicode_len();
    let mut acc = String::new();
    let mut i = start;
    loop
        invariant
            start <= i <= n,
            n == s@.len(),
            parse_str_from(s@, start as int) == opt_prepend(acc@, parse_str_from(s@, i as int)),
        decreases n - i,
    {
        if i >= n {
            return None;
        }
        let c = s.get_char(i);
        let u = c as u32;
        if u == 34 {
            proof {
                assert(parse_str_from(s@, i as int) == Some((Seq::<char>::empty(), i + 1 as int)));
                assert(acc@ + Seq::<char>::empty() =~= acc@);
            }
            return Some((acc, i + 1));
        } else if u == 92 {
            if i + 1 >= n {
                return None;
            }
            let e = s.get_char(i + 1);
            let eu = e as u32;
            if eu == 34 || eu == 92 || eu == 47 || eu == 98 || eu == 116 || eu == 110 || eu == 102
                || eu == 114 {
                let dc: char = if eu == 34 {
                    '"'
                } else if eu == 92 {
                    '\\'
                } else if eu == 47 {
                    '/'
                } else if eu == 98 {
                    '\u{8}'
                } else if eu == 116 {
                    '\t'
                } else if eu == 110 {
                    '\n'
                } else if eu == 102 {
                    '\u{c}'
                } else {
                    '\r'
                };
                proof {
                    assert(short_escape(s@[i as int + 1]) == Some(dc));
                    assert(parse_str_from(s@, i as int) == opt_prepend(
                        seq![dc],
                        parse_str_from(s@, i + 2),
                    ));
                    lemma_opt_prepend(acc@, seq![dc], parse_str_from(s@, i + 2));
                    assert(acc@ + seq![dc] =~= acc@.push(dc));
                }
                acc.push(dc);
                i = i + 2;
            } else if eu == 117 {
                if n - i < 6 {
                    proof {
                        assert(!hex4_ok(s@, i + 2));
                    }
                    return None;
                }
                let h = read_hex4(s, i + 2);
                if h.is_none() {
                    return None;
                }
                let hv = h.unwrap();
                if 0xD800 <= hv && hv <= 0xDBFF {
                    if n - i < 12 {
                        proof {
                            assert(!surrogate_pair_ok(s@, i + 2));
                        }
                        return None;
                    }
                    let b1 = s.get_char(i + 6);
                    let b2 = s.get_char(i + 7);
                    if !(b1 as u32 == 92 && b2 as u32 == 117) {
                        proof {
                            assert(!surrogate_pair_ok(s@, i + 2));
                        }
                        return None;
                    }
                    let l = read_hex4(s, i + 8);
                    if l.is_none() {
                        proof {
                            assert(!surrogate_pair_ok(s@, i + 2));
                        }
                        return None;
                    }
                    let lv = l.unwrap();
                    if !(0xDC00 <= lv && lv <= 0xDFFF) {
                        proof {
                            assert(!surrogate_pair_ok(s@, i + 2));
                        }
                        return None;
                    }
                    let code: u32 = 0x10000 + (hv - 0xD800) * 0x400 + (lv - 0xDC00);
                    let dc = char::from_u32(code);
                    match dc {
                        Some(ch) => {
                            proof {
                                assert(surrogate_pair_ok(s@, i + 2));
                                assert(code as int == surrogate_pair_val(s@, i + 2));
                                assert(parse_str_from(s@, i as int) == opt_prepend(
                                    seq![ch],
                                    parse_str_from(s@, i + 12),
                                ));
                                lemma_opt_prepend(acc@, seq![ch], parse_str_from(s@, i + 12));
                                assert(acc@ + seq![ch] =~= acc@.push(ch));
                            }
                            acc.push(ch);
                            i = i + 12;
                        },
                        None => {
                            proof {
                                assert(false);
                            }
                            return None;
                        },
                    }
                } else if 0xDC00 <= hv && hv <= 0xDFFF {
                    return None;
                } else {
                    let dc = char::from_u32(hv);
                    match dc {
                        Some(ch) => {
                            proof {
                                assert(parse_str_from(s@, i as int) == opt_prepend(
                                    seq![ch],
                                    parse_str_from(s@, i + 6),
                                ));
                                lemma_opt_prepend(acc@, seq![ch], parse_str_from(s@, i + 6));
                                assert(acc@ + seq![ch] =~= acc@.push(ch));
                            }
                            acc.push(ch);
                            i = i + 6;
                        },
                        None => {
                            proof {
                                assert(false);
                            }
                            return None;
                        },
                    }
                }
            } else {
                return None;
            }
        } else if u < 32 {
            return None;
        } else {
            proof {
                assert(parse_str_from(s@, i as int) == opt_prepend(
                    seq![c],
                    parse_str_from(s@, i + 1),
                ));
                lemma_opt_prepend(acc@, seq![c], parse_str_from(s@, i + 1));
                assert(acc@ + seq![c] =~= acc@.push(c));
            }
            acc.push(c);
            i = i + 1;
        }
    }
}

/// Reads the `content` member out of a request body: `Some` exactly where
/// the body is a JSON object with the single string member `"content"`.
pub fn parse_content_body(s: &str) -> (r: Option<String>)
    ensures
        r is Some <==> parse_body(s@) is Some,
        r is Some ==> r.unwrap()@ == parse_body(s@).unwrap(),
{
    let n = s.unicode_len();
    let i0 = skip_ws_from(s, 0);
    if i0 >= n {
        return None;
    }
    if !(s.get_char(i0) as u32 == 123) {
        return None;
    }
    let i1 = skip_ws_from(s, i0 + 1);
    if i1 >= n {
        return None;
    }
    if !(s.get_char(i1) as u32 == 34) {
        return None;
    }
    let key_r = parse_string_from(s, i1 + 1);
    match key_r {
        None => None,
        Some((key, i2)) => {
            let expected = String::from_str("content");
            if !key.eq(&expected) {
                return None;
            }
            let i3 = skip_ws_from(s, i2);
            if i3 >= n {
                return None;
            }
            if !(s.get_char(i3) as u32 == 58) {
                return None;
            }
            let i4 = skip_ws_from(s, i3 + 1);
            if i4 >= n {
                return None;
            }
            if !(s.get_char(i4) as u32 == 34) {
                return None;
            }
            let val_r = parse_string_from(s, i4 + 1);
            match val_r {
                None => None,
                Some((val, i5)) => {
                    let i6 = skip_ws_from(s, i5);
                    if i6 >= n {
                        return None;
                    }
                    if !(s.get_char(i6) as u32 == 125) {
                        return None;
                    }
                    let i7 = skip_ws_from(s, i6 + 1);
                    if i7 < n {
                        return None;
                    }
                    Some(val)
                },
            }
        },
    }
}

} // verus!
