//! Hexadecimal color codes: `rgb`, `rrggbb` or `rrggbbaa`, after any number of
//! leading `#`.
use vstd::prelude::*;
use vstd::utf8::*;
use vstd::string::*;
use core::num::ParseIntError;

verus! {

broadcast use vstd::utf8::group_utf8_lib, vstd::string::is_ascii_spec_bytes;

#[verifier::external_type_specification]
#[verifier::external_body]
pub struct ExParseIntError(ParseIntError);

/// Why a color code was refused.
#[derive(Debug, PartialEq)]
pub enum HexError {
    /// A pair of digits is no hexadecimal number.
    ParseError(ParseIntError),
    /// The code has neither 3, 6 nor 8 bytes.
    InvalidLength,
}

/// The value of a hexadecimal digit.
pub open spec fn hex_digit(b: u8) -> Option<u8> {
    if 0x30 <= b <= 0x39 {
        Some((b - 0x30) as u8)
    } else if 0x61 <= b <= 0x66 {
        Some((b - 0x61 + 10) as u8)
    } else if 0x41 <= b <= 0x46 {
        Some((b - 0x41 + 10) as u8)
    } else {
        None
    }
}

/// The number that two bytes spell in hexadecimal: two digits, or a `+` and one digit.
pub open spec fn hex_pair(b: Seq<u8>) -> Option<u8> {
    if b[0] == 0x2b {
        hex_digit(b[1])
    } else {
        match (hex_digit(b[0]), hex_digit(b[1])) {
            (Some(h), Some(l)) => Some((h * 16 + l) as u8),
            _ => None,
        }
    }
}

/// Reads a number of two bytes in hexadecimal, by `u8::from_str_radix` with radix 16.
#[verifier::external_body]
fn parse_hex_byte(piece: &str) -> (r: Result<u8, ParseIntError>)
    requires
        piece.spec_bytes().len() == 2,
    ensures
        match hex_pair(piece.spec_bytes()) {
            Some(v) => r == Ok::<u8, ParseIntError>(v),
            None => r is Err,
        },
{
    u8::from_str_radix(piece, 16)
}

/// `s` without its leading `#` characters.
pub open spec fn trim_hashes(s: Seq<char>) -> Seq<char>
    decreases s.len(),
{
    if s.len() > 0 && s[0] == '#' {
        trim_hashes(s.drop_first())
    } else {
        s
    }
}

/// The two-byte numbers of a code: each of the three characters doubled, or
/// the bytes taken two by two; `None` for a code of another length.
pub open spec fn hex_pieces(code: Seq<char>) -> Option<Seq<Seq<u8>>> {
    let b = encode_utf8(code);
    if b.len() == 3 {
        Some(seq![seq![b[0], b[0]], seq![b[1], b[1]], seq![b[2], b[2]]])
    } else if b.len() == 6 {
        Some(seq![b.subrange(0, 2), b.subrange(2, 4), b.subrange(4, 6)])
    } else if b.len() == 8 {
        Some(seq![b.subrange(0, 2), b.subrange(2, 4), b.subrange(4, 6), b.subrange(6, 8)])
    } else {
        None
    }
}

/// The code can be cut as the parser cuts it: a three-byte code is three
/// ASCII characters, and a longer one has character boundaries where it is cut.
pub open spec fn hex_code_cuttable(code: Seq<char>) -> bool {
    let b = encode_utf8(code);
    &&& b.len() == 3 ==> is_ascii_chars(code)
    &&& (b.len() == 6 || b.len() == 8) ==> !is_continuation_byte(b[2]) && !is_continuation_byte(
        b[4],
    )
    &&& b.len() == 8 ==> !is_continuation_byte(b[6])
}

/// The color of a code whose numbers all parse: red, green, blue, and the
/// alpha, which is 255 when the code gives none.
pub open spec fn hex_rgba(pieces: Seq<Seq<u8>>) -> (u8, u8, u8, u8) {
    (
        hex_pair(pieces[0]).unwrap(),
        hex_pair(pieces[1]).unwrap(),
        hex_pair(pieces[2]).unwrap(),
        if pieces.len() == 4 {
            hex_pair(pieces[3]).unwrap()
        } else {
            255u8
        },
    )
}

/// The uppercase hexadecimal digit of `d` (below 16).
pub open spec fn upper_hex_digit(d: u8) -> char {
    if d < 10 {
        (0x30 + d) as char
    } else {
        (0x41 + d - 10) as char
    }
}

/// The two uppercase hexadecimal digits of `x`.
pub open spec fn upper_hex_pair(x: u8) -> Seq<char> {
    seq![upper_hex_digit(x / 16), upper_hex_digit(x % 16)]
}

/// The code `#RRGGBBAA` of a color, in uppercase digits.
pub open spec fn spec_hex_str(r: u8, g: u8, b: u8, a: u8) -> Seq<char> {
    seq!['#'] + upper_hex_pair(r) + upper_hex_pair(g) + upper_hex_pair(b) + upper_hex_pair(a)
}

/// The uppercase hexadecimal digit of `d`, as a string.
pub(crate) fn upper_hex_digit_str(d: u8) -> (c: &'static str)
    requires
        d < 16,
    ensures
        c@ == seq![upper_hex_digit(d)],
{
    match d {
        0 => {
            proof {
                reveal_strlit("0");
            }
            "0"
        },
        1 => {
            proof {
                reveal_strlit("1");
            }
            "1"
        },
        2 => {
            proof {
                reveal_strlit("2");
            }
            "2"
        },
        3 => {
            proof {
                reveal_strlit("3");
            }
            "3"
        },
        4 => {
            proof {
                reveal_strlit("4");
            }
            "4"
        },
        5 => {
            proof {
                reveal_strlit("5");
            }
            "5"
        },
        6 => {
            proof {
                reveal_strlit("6");
            }
            "6"
        },
        7 => {
            proof {
                reveal_strlit("7");
            }
            "7"
        },
        8 => {
            proof {
                reveal_strlit("8");
            }
            "8"
        },
        9 => {
            proof {
                reveal_strlit("9");
            }
            "9"
        },
        10 => {
            proof {
                reveal_strlit("A");
            }
            "A"
        },
        11 => {
            proof {
                reveal_strlit("B");
            }
            "B"
        },
        12 => {
            proof {
                reveal_strlit("C");
            }
            "C"
        },
        13 => {
            proof {
                reveal_strlit("D");
            }
            "D"
        },
        14 => {
            proof {
                reveal_strlit("E");
            }
            "E"
        },
        _ => {
            proof {
                reveal_strlit("F");
            }
            "F"
        },
    }
}

/// Appends the two uppercase hexadecimal digits of `x`.
fn push_hex_pair(s: &mut String, x: u8)
    ensures
        final(s)@ == old(s)@ + upper_hex_pair(x),
{
    let hi = upper_hex_digit_str(x / 16);
    let lo = upper_hex_digit_str(x % 16);
    let ghost start = s@;
    s.append(hi);
    s.append(lo);
    assert(s@ =~= start + upper_hex_pair(x));
}

/// The code `#RRGGBBAA` of the color with these bytes, in uppercase digits.
pub fn hex_str(r: u8, g: u8, b: u8, a: u8) -> (s: String)
    ensures
        s@ == spec_hex_str(r, g, b, a),
{
    let mut s = String::new();
    proof {
        reveal_strlit("#");
    }
    s.append("#");
    push_hex_pair(&mut s, r);
    push_hex_pair(&mut s, g);
    push_hex_pair(&mut s, b);
    push_hex_pair(&mut s, a);
    assert(s@ =~= spec_hex_str(r, g, b, a));
    s
}

/// The bytes of a color packed as `0xRRGGBBAA`.
pub fn rgba_from_u32(hex: u32) -> (c: (u8, u8, u8, u8))
    ensures
        c.0 == hex / 0x1000000,
        c.1 == (hex / 0x10000) % 256,
        c.2 == (hex / 0x100) % 256,
        c.3 == hex % 256,
{
    let r = ((hex >> 24) & 0xff) as u8;
    let g = ((hex >> 16) & 0xff) as u8;
    let b = ((hex >> 8) & 0xff) as u8;
    let a = (hex & 0xff) as u8;
    assert(((hex >> 24u32) & 0xffu32) == hex / 0x1000000) by (bit_vector);
    assert(((hex >> 16u32) & 0xffu32) == (hex / 0x10000) % 256) by (bit_vector);
    assert(((hex >> 8u32) & 0xffu32) == (hex / 0x100) % 256) by (bit_vector);
    assert((hex & 0xffu32) == hex % 256) by (bit_vector);
    (r, g, b, a)
}

/// Packs the bytes of a color as `0xRRGGBBAA`.
pub fn u32_from_rgba(r: u8, g: u8, b: u8, a: u8) -> (hex: u32)
    ensures
        hex == r * 0x1000000 + g * 0x10000 + b * 0x100 + a,
{
    let hex = ((r as u32) << 24) | ((g as u32) << 16) | ((b as u32) << 8) | (a as u32);
    let (rr, gg, bb, aa) = (r as u32, g as u32, b as u32, a as u32);
    assert(rr < 256 && gg < 256 && bb < 256 && aa < 256 ==> (rr << 24u32) | (gg << 16u32) | (bb
        << 8u32) | aa == rr * 0x1000000 + gg * 0x10000 + bb * 0x100 + aa) by (bit_vector);
    hex
}

/// Packing a color's bytes and reading them back gives the same bytes, and
/// every 32-bit value is the packing of its bytes.
pub proof fn lemma_rgba_u32_round_trip(r: u8, g: u8, b: u8, a: u8, hex: u32)
    ensures
        ({
            let h = r * 0x1000000 + g * 0x10000 + b * 0x100 + a;
            &&& h / 0x1000000 == r
            &&& (h / 0x10000) % 256 == g
            &&& (h / 0x100) % 256 == b
            &&& h % 256 == a
        }),
        hex == (hex / 0x1000000) * 0x1000000 + ((hex / 0x10000) % 256) * 0x10000 + ((hex / 0x100)
            % 256) * 0x100 + hex % 256,
{
    let (rr, gg, bb, aa) = (r as u32, g as u32, b as u32, a as u32);
    assert(rr < 256 && gg < 256 && bb < 256 && aa < 256 ==> {
        let h = rr * 0x1000000 + gg * 0x10000 + bb * 0x100 + aa;
        &&& h / 0x1000000 == rr
        &&& (h / 0x10000) % 256 == gg
        &&& (h / 0x100) % 256 == bb
        &&& h % 256 == aa
    }) by (nonlinear_arith);
    assert(hex == (hex / 0x1000000) * 0x1000000 + ((hex / 0x10000) % 256) * 0x10000 + ((hex
        / 0x100) % 256) * 0x100 + hex % 256) by (nonlinear_arith);
}

/// The code of a color reads back as the same color.
pub proof fn lemma_hex_str_reads_back(r: u8, g: u8, b: u8, a: u8)
    ensures
        hex_code_cuttable(trim_hashes(spec_hex_str(r, g, b, a))),
        hex_pieces(trim_hashes(spec_hex_str(r, g, b, a))) matches Some(pieces) && (forall|i: int|
            0 <= i < pieces.len() ==> (#[trigger] hex_pair(pieces[i])) is Some) && hex_rgba(pieces)
            == (r, g, b, a),
{
    let s = spec_hex_str(r, g, b, a);
    let code = s.drop_first();
    assert(s[0] == '#');
    assert(code.len() == 8);
    assert(code[0] != '#') by {
        assert(code[0] == upper_hex_digit(r / 16));
    }
    assert(trim_hashes(code) == code);
    assert(trim_hashes(s) == code);
    assert forall|i: int| 0 <= i < code.len() implies '\0' <= #[trigger] code[i] <= '\u{7f}' by {}
    assert(is_ascii_chars(code));
    is_ascii_chars_encode_utf8(code);
    let bytes = encode_utf8(code);
    lemma_upper_pair_reads_back(r, bytes.subrange(0, 2), code[0], code[1]);
    lemma_upper_pair_reads_back(g, bytes.subrange(2, 4), code[2], code[3]);
    lemma_upper_pair_reads_back(b, bytes.subrange(4, 6), code[4], code[5]);
    lemma_upper_pair_reads_back(a, bytes.subrange(6, 8), code[6], code[7]);
    let pieces = hex_pieces(code).unwrap();
    assert forall|i: int| 0 <= i < pieces.len() implies (#[trigger] hex_pair(pieces[i])) is Some by {}
}

proof fn lemma_upper_pair_reads_back(x: u8, b: Seq<u8>, c0: char, c1: char)
    requires
        b.len() == 2,
        c0 == upper_hex_digit(x / 16),
        c1 == upper_hex_digit(x % 16),
        b[0] == c0 as u8,
        b[1] == c1 as u8,
    ensures
        hex_pair(b) == Some(x),
{
    assert(hex_digit(upper_hex_digit(x / 16) as u8) == Some((x / 16) as u8));
    assert(hex_digit(upper_hex_digit(x % 16) as u8) == Some((x % 16) as u8));
    assert(b[0] != 0x2b);
}

/// A three-digit code reads as the six-digit code with each digit doubled.
pub proof fn lemma_short_form_doubles(r: char, g: char, b: char)
    requires
        is_ascii_chars(seq![r, g, b]),
    ensures
        hex_pieces(seq![r, g, b]) == hex_pieces(seq![r, r, g, g, b, b]),
{
    let short = seq![r, g, b];
    let long = seq![r, r, g, g, b, b];
    assert(is_ascii_chars(long));
    is_ascii_chars_encode_utf8(short);
    is_ascii_chars_encode_utf8(long);
    let sb = encode_utf8(short);
    let lb = encode_utf8(long);
    assert(sb[0] == r as u8 && sb[1] == g as u8 && sb[2] == b as u8);
    assert(lb[0] == r as u8 && lb[1] == r as u8 && lb[2] == g as u8);
    assert(lb[3] == g as u8 && lb[4] == b as u8 && lb[5] == b as u8);
    assert(lb.subrange(0, 2) =~= seq![sb[0], sb[0]]);
    assert(lb.subrange(2, 4) =~= seq![sb[1], sb[1]]);
    assert(lb.subrange(4, 6) =~= seq![sb[2], sb[2]]);
}

proof fn lemma_trim_skip(s: Seq<char>, k: int)
    requires
        0 <= k <= s.len(),
        forall|i: int| 0 <= i < k ==> s[i] == '#',
    ensures
        trim_hashes(s) == trim_hashes(s.subrange(k, s.len() as int)),
    decreases k,
{
    if k > 0 {
        lemma_trim_skip(s, k - 1);
        let t = s.subrange(k - 1, s.len() as int);
        assert(t[0] == '#');
        assert(t.drop_first() =~= s.subrange(k, s.len() as int));
    } else {
        assert(s.subrange(0, s.len() as int) =~= s);
    }
}

/// Reads one two-byte number of a color code.
fn parse_piece(piece: &str) -> (r: Result<u8, HexError>)
    requires
        piece.spec_bytes().len() == 2,
    ensures
        match hex_pair(piece.spec_bytes()) {
            Some(v) => r == Ok::<u8, HexError>(v),
            None => r matches Err(HexError::ParseError(_)),
        },
{
    match parse_hex_byte(piece) {
        Ok(v) => Ok(v),
        Err(e) => Err(HexError::ParseError(e)),
    }
}

/// Reads a color code into its red, green, blue and alpha bytes (see
/// `hex_pieces` and `hex_rgba`). Leading `#` are skipped. A code of another
/// length than 3, 6 or 8 bytes is refused with `InvalidLength`; one with a pair
/// that is no hexadecimal number with `ParseError`.
pub fn parse_hex_rgba(hex: &str) -> (r: Result<(u8, u8, u8, u8), HexError>)
    requires
        hex_code_cuttable(trim_hashes(hex@)),
        encode_utf8(trim_hashes(hex@)).len() <= usize::MAX,
    ensures
        match hex_pieces(trim_hashes(hex@)) {
            None => r == Err::<(u8, u8, u8, u8), HexError>(HexError::InvalidLength),
            Some(pieces) => if forall|i: int| 0 <= i < pieces.len() ==> (#[trigger] hex_pair(
                pieces[i],
            )) is Some {
                r == Ok::<(u8, u8, u8, u8), HexError>(hex_rgba(pieces))
            } else {
                r matches Err(HexError::ParseError(_))
            },
        },
{
    let n = hex.unicode_len();
    let mut k: usize = 0;
    while k < n && hex.get_char(k) == '#'
        invariant
            n == hex@.len(),
            k <= n,
            forall|i: int| 0 <= i < k ==> hex@[i] == '#',
        decreases n - k,
    {
        k = k + 1;
    }
    let code = hex.substring_char(k, n);
    proof {
        lemma_trim_skip(hex@, k as int);
        let t = hex@.subrange(k as int, n as int);
        assert(code@ == t);
        if t.len() > 0 {
            assert(t[0] == hex@[k as int]);
        }
        assert(trim_hashes(t) == t);
    }
    let ghost cs = code@;
    let ghost b = code.spec_bytes();
    let len = code.len();
    proof {
        encode_utf8_valid_utf8(cs);
    }
    if len == 3 {
        proof {
            is_ascii_chars_encode_utf8(cs);
        }
        let ghost pieces = hex_pieces(cs).unwrap();
        let c0 = code.substring_ascii(0, 1);
        let c1 = code.substring_ascii(1, 2);
        let c2 = code.substring_ascii(2, 3);
        let s0 = String::from_str(c0).concat(c0);
        let s1 = String::from_str(c1).concat(c1);
        let s2 = String::from_str(c2).concat(c2);
        let a0 = s0.as_str();
        let a1 = s1.as_str();
        let a2 = s2.as_str();
        proof {
            assert(is_ascii_chars(s0@));
            assert(is_ascii_chars(s1@));
            assert(is_ascii_chars(s2@));
            is_ascii_chars_encode_utf8(s0@);
            is_ascii_chars_encode_utf8(s1@);
            is_ascii_chars_encode_utf8(s2@);
            assert(a0.spec_bytes() =~= pieces[0]);
            assert(a1.spec_bytes() =~= pieces[1]);
            assert(a2.spec_bytes() =~= pieces[2]);
        }
        let red = parse_piece(a0);
        let red = match red {
            Ok(v) => v,
            Err(e) => {
                return Err(e);
            },
        };
        let green = parse_piece(a1);
        let green = match green {
            Ok(v) => v,
            Err(e) => {
                return Err(e);
            },
        };
        let blue = parse_piece(a2);
        let blue = match blue {
            Ok(v) => v,
            Err(e) => {
                return Err(e);
            },
        };
        proof {
            assert forall|i: int| 0 <= i < pieces.len() implies (#[trigger] hex_pair(
                pieces[i],
            )) is Some by {}
        }
        Ok((red, green, blue, 255u8))
    } else if len == 6 || len == 8 {
        let ghost pieces = hex_pieces(cs).unwrap();
        proof {
            is_char_boundary_iff_not_is_continuation_byte(b, 2);
        }
        let (p0, rest) = code.split_at(2);
        proof {
            encode_utf8_valid_utf8(rest@);
            assert(rest.spec_bytes()[2] == b[4]);
            is_char_boundary_iff_not_is_continuation_byte(rest.spec_bytes(), 2);
        }
        let (p1, rest) = rest.split_at(2);
        proof {
            encode_utf8_valid_utf8(rest@);
            if len == 8 {
                assert(rest.spec_bytes()[2] == b[6]);
                is_char_boundary_iff_not_is_continuation_byte(rest.spec_bytes(), 2);
            } else {
                is_char_boundary_start_end_of_seq(rest.spec_bytes());
            }
        }
        let (p2, rest) = rest.split_at(2);
        proof {
            assert(p0.spec_bytes() =~= pieces[0]);
            assert(p1.spec_bytes() =~= pieces[1]);
            assert(p2.spec_bytes() =~= pieces[2]);
        }
        let red = match parse_piece(p0) {
            Ok(v) => v,
            Err(e) => {
                return Err(e);
            },
        };
        let green = match parse_piece(p1) {
            Ok(v) => v,
            Err(e) => {
                return Err(e);
            },
        };
        let blue = match parse_piece(p2) {
            Ok(v) => v,
            Err(e) => {
                return Err(e);
            },
        };
        if len == 8 {
            proof {
                encode_utf8_valid_utf8(rest@);
                is_char_boundary_start_end_of_seq(rest.spec_bytes());
                assert(rest.spec_bytes() =~= pieces[3]);
            }
            let (p3, _) = rest.split_at(2);
            let alpha = match parse_piece(p3) {
                Ok(v) => v,
                Err(e) => {
                    return Err(e);
                },
            };
            proof {
                assert forall|i: int| 0 <= i < pieces.len() implies (#[trigger] hex_pair(
                    pieces[i],
                )) is Some by {}
            }
            Ok((red, green, blue, alpha))
        } else {
            proof {
                assert forall|i: int| 0 <= i < pieces.len() implies (#[trigger] hex_pair(
                    pieces[i],
                )) is Some by {}
            }
            Ok((red, green, blue, 255u8))
        }
    } else {
        Err(HexError::InvalidLength)
    }
}

} // verus!
