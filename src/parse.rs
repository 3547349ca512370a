//! Reading an address from any of its textual notations.
use vstd::prelude::*;

use crate::address::{Eui48, MacAddress, EUI48LEN};
use crate::format::{
    decimal_text, hex_pair, lemma_hex_digit_char, push_char, push_decimal, text_of,
    MacAddressFormat,
};

verus! {

/// Why a string could not be read as an address.
#[derive(PartialEq, Eq, Copy, Clone, Debug, Structural)]
pub enum ParseError {
    /// The input's character count fits no notation, or it holds too few or
    /// too many hexadecimal digit pairs.
    InvalidLength(usize),
    /// A character that no notation allows, at its 0-based offset.
    InvalidCharacter(char, usize),
}

/// The human-readable description of an error.
pub open spec fn error_text(e: ParseError) -> Seq<char> {
    match e {
        ParseError::InvalidLength(found) => "Invalid length; expecting 14 or 17 chars, found "@
            + decimal_text(found as nat),
        ParseError::InvalidCharacter(found, pos) => "Invalid character; found `"@ + seq![found]
            + "` at offset "@ + decimal_text(pos as nat),
    }
}

impl ParseError {
    /// Describes the error: the length found, or the character and its offset.
    pub fn to_string(&self) -> (r: String)
        ensures
            r@ == error_text(*self),
    {
        let mut out = String::new();
        match *self {
            ParseError::InvalidLength(found) => {
                out.append("Invalid length; expecting 14 or 17 chars, found ");
                push_decimal(&mut out, found);
            },
            ParseError::InvalidCharacter(found, pos) => {
                out.append("Invalid character; found `");
                push_char(&mut out, found);
                out.append("` at offset ");
                push_decimal(&mut out, pos);
            },
        }
        assert(out@ =~= error_text(*self));
        out
    }
}

/// What the scanner knows after a prefix of the input: the bytes completed so
/// far, and the high nibble of the byte under way, if one was read.
pub type ScanState = (Seq<u8>, Option<u8>);

/// A hexadecimal digit, either case.
pub open spec fn is_hex_char(c: char) -> bool {
    ('0' <= c && c <= '9') || ('a' <= c && c <= 'f') || ('A' <= c && c <= 'F')
}

/// The 4-bit value of a hexadecimal digit, either case.
pub open spec fn hex_char_value(c: char) -> int {
    if '0' <= c && c <= '9' {
        c as int - '0' as int
    } else if 'a' <= c && c <= 'f' {
        c as int - 'a' as int + 10
    } else {
        c as int - 'A' as int + 10
    }
}

/// A character that may stand between digits and is skipped.
pub open spec fn is_separator(c: char) -> bool {
    c == '-' || c == ':' || c == '.'
}

/// One step of the scan: character `c` at offset `pos` of an input of
/// `len` characters.
pub open spec fn scan_step(st: ScanState, c: char, pos: int, len: usize) -> Result<
    ScanState,
    ParseError,
> {
    if st.0.len() >= EUI48LEN {
        Err(ParseError::InvalidLength(len))
    } else if is_hex_char(c) {
        match st.1 {
            None => Ok((st.0, Some(hex_char_value(c) as u8))),
            Some(high) => Ok((st.0.push((high * 16 + hex_char_value(c)) as u8), None)),
        }
    } else if is_separator(c) {
        Ok(st)
    } else if (c == 'x' || c == 'X') && pos == 1 {
        Ok((Seq::empty(), None))
    } else {
        Err(ParseError::InvalidCharacter(c, pos as usize))
    }
}

/// The scan over the first `n` characters of `s`.
pub open spec fn scan(s: Seq<char>, n: nat) -> Result<ScanState, ParseError>
    decreases n,
{
    if n == 0 {
        Ok((Seq::empty(), None))
    } else {
        match scan(s, (n - 1) as nat) {
            Err(e) => Err(e),
            Ok(st) => scan_step(st, s[n - 1], n - 1, s.len() as usize),
        }
    }
}

/// The bytes that `s` denotes, or the first problem found in it.
pub open spec fn parse_spec(s: Seq<char>) -> Result<Seq<u8>, ParseError> {
    if s.len() != 14 && s.len() != 17 {
        Err(ParseError::InvalidLength(s.len() as usize))
    } else {
        match scan(s, s.len()) {
            Err(e) => Err(e),
            Ok(st) => if st.0.len() == EUI48LEN {
                Ok(st.0)
            } else {
                Err(ParseError::InvalidLength(s.len() as usize))
            },
        }
    }
}

/// Once the scan has failed, reading more characters keeps the same error.
proof fn lemma_scan_error_persists(s: Seq<char>, n: nat, m: nat)
    requires
        n <= m,
        scan(s, n) is Err,
    ensures
        scan(s, m) == scan(s, n),
    decreases m - n,
{
    if n < m {
        lemma_scan_error_persists(s, n, (m - 1) as nat);
    }
}

/// Two digits that spell byte `v` complete it.
proof fn lemma_scan_pair(s: Seq<char>, n: nat, done: Seq<u8>, v: u8)
    requires
        n + 2 <= s.len(),
        done.len() < EUI48LEN,
        scan(s, n) == Ok::<ScanState, ParseError>((done, None)),
        s.subrange(n as int, n + 2 as int) == hex_pair(v),
    ensures
        scan(s, n + 2) == Ok::<ScanState, ParseError>((done.push(v), None)),
{
    lemma_hex_digit_char(v as int / 16);
    lemma_hex_digit_char(v as int % 16);
    assert(s[n as int] == hex_pair(v)[0]);
    assert(s[n + 1 as int] == hex_pair(v)[1]);
    assert(scan(s, n + 1) == Ok::<ScanState, ParseError>((done, Some((v / 16) as u8))));
}

/// A separator leaves the scan where it was.
proof fn lemma_scan_separator(s: Seq<char>, n: nat, done: Seq<u8>)
    requires
        n + 1 <= s.len(),
        done.len() < EUI48LEN,
        scan(s, n) == Ok::<ScanState, ParseError>((done, None)),
        is_separator(s[n as int]),
    ensures
        scan(s, n + 1) == Ok::<ScanState, ParseError>((done, None)),
{
}

/// Reading back the text of an address, in any notation, gives that address.
pub proof fn lemma_text_round_trip(m: MacAddress, f: MacAddressFormat)
    ensures
        parse_spec(text_of(m@, f)) == Ok::<Seq<u8>, ParseError>(m@),
{
    let b = m@;
    let t = text_of(b, f);
    let e = Seq::<u8>::empty();
    let b1 = e.push(b[0]);
    let b2 = b1.push(b[1]);
    let b3 = b2.push(b[2]);
    let b4 = b3.push(b[3]);
    let b5 = b4.push(b[4]);
    let b6 = b5.push(b[5]);
    assert(b6 =~= b);
    match f {
        MacAddressFormat::Canonical | MacAddressFormat::HexString => {
            assert(t.len() == 17);
            assert(t.subrange(0, 2) =~= hex_pair(b[0]));
            assert(t.subrange(3, 5) =~= hex_pair(b[1]));
            assert(t.subrange(6, 8) =~= hex_pair(b[2]));
            assert(t.subrange(9, 11) =~= hex_pair(b[3]));
            assert(t.subrange(12, 14) =~= hex_pair(b[4]));
            assert(t.subrange(15, 17) =~= hex_pair(b[5]));
            lemma_scan_pair(t, 0, e, b[0]);
            lemma_scan_separator(t, 2, b1);
            lemma_scan_pair(t, 3, b1, b[1]);
            lemma_scan_separator(t, 5, b2);
            lemma_scan_pair(t, 6, b2, b[2]);
            lemma_scan_separator(t, 8, b3);
            lemma_scan_pair(t, 9, b3, b[3]);
            lemma_scan_separator(t, 11, b4);
            lemma_scan_pair(t, 12, b4, b[4]);
            lemma_scan_separator(t, 14, b5);
            lemma_scan_pair(t, 15, b5, b[5]);
        },
        MacAddressFormat::DotNotation => {
            assert(t.len() == 14);
            assert(t.subrange(0, 2) =~= hex_pair(b[0]));
            assert(t.subrange(2, 4) =~= hex_pair(b[1]));
            assert(t.subrange(5, 7) =~= hex_pair(b[2]));
            assert(t.subrange(7, 9) =~= hex_pair(b[3]));
            assert(t.subrange(10, 12) =~= hex_pair(b[4]));
            assert(t.subrange(12, 14) =~= hex_pair(b[5]));
            lemma_scan_pair(t, 0, e, b[0]);
            lemma_scan_pair(t, 2, b1, b[1]);
            lemma_scan_separator(t, 4, b2);
            lemma_scan_pair(t, 5, b2, b[2]);
            lemma_scan_pair(t, 7, b3, b[3]);
            lemma_scan_separator(t, 9, b4);
            lemma_scan_pair(t, 10, b4, b[4]);
            lemma_scan_pair(t, 12, b5, b[5]);
        },
        MacAddressFormat::Hexadecimal => {
            assert(t.len() == 14);
            assert(scan(t, 1) == Ok::<ScanState, ParseError>((e, Some(0u8))));
            assert(scan(t, 2) == Ok::<ScanState, ParseError>((e, None)));
            assert(t.subrange(2, 4) =~= hex_pair(b[0]));
            assert(t.subrange(4, 6) =~= hex_pair(b[1]));
            assert(t.subrange(6, 8) =~= hex_pair(b[2]));
            assert(t.subrange(8, 10) =~= hex_pair(b[3]));
            assert(t.subrange(10, 12) =~= hex_pair(b[4]));
            assert(t.subrange(12, 14) =~= hex_pair(b[5]));
            lemma_scan_pair(t, 2, e, b[0]);
            lemma_scan_pair(t, 4, b1, b[1]);
            lemma_scan_pair(t, 6, b2, b[2]);
            lemma_scan_pair(t, 8, b3, b[3]);
            lemma_scan_pair(t, 10, b4, b[4]);
            lemma_scan_pair(t, 12, b5, b[5]);
        },
    }
}

/// The value of a hexadecimal digit, or `None` for any other character.
fn hex_digit_value(c: char) -> (r: Option<u8>)
    ensures
        r == (if is_hex_char(c) {
            Some(hex_char_value(c) as u8)
        } else {
            None::<u8>
        }),
        r matches Some(d) ==> d < 16,
{
    if '0' <= c && c <= '9' {
        Some(((c as u32) - ('0' as u32)) as u8)
    } else if 'a' <= c && c <= 'f' {
        Some(((c as u32) - ('a' as u32) + 10) as u8)
    } else if 'A' <= c && c <= 'F' {
        Some(((c as u32) - ('A' as u32) + 10) as u8)
    } else {
        None
    }
}

impl MacAddress {
    /// Parses an address in any supported notation: `12-34-56-ab-cd-ef`,
    /// `12:34:56:ab:cd:ef`, `1234.56ab.cdef` or `0x123456abcdef`, hex digits
    /// in either case.
    pub fn parse_str(s: &str) -> (r: Result<MacAddress, ParseError>)
        ensures
            match r {
                Ok(m) => parse_spec(s@) == Ok::<Seq<u8>, ParseError>(m@),
                Err(e) => parse_spec(s@) == Err::<Seq<u8>, ParseError>(e),
            },
    {
        let len = s.unicode_len();
        if len != 14 && len != 17 {
            return Err(ParseError::InvalidLength(len));
        }
        let mut offset: usize = 0;
        let mut hn: bool = false;
        let mut eui: Eui48 = [0u8; 6];
        let mut idx: usize = 0;
        assert(eui@.subrange(0, 0) =~= Seq::<u8>::empty());
        while idx < len
            invariant
                len == s@.len(),
                len == 14 || len == 17,
                idx <= len,
                offset <= EUI48LEN,
                hn ==> offset < EUI48LEN && eui[offset as int] % 16 == 0,
                scan(s@, idx as nat) == Ok::<ScanState, ParseError>(
                    (
                        eui@.subrange(0, offset as int),
                        if hn {
                            Some((eui[offset as int] / 16) as u8)
                        } else {
                            None
                        },
                    ),
                ),
            decreases len - idx,
        {
            if offset >= EUI48LEN {
                proof {
                    lemma_scan_error_persists(s@, (idx + 1) as nat, len as nat);
                }
                return Err(ParseError::InvalidLength(len));
            }
            let c = s.get_char(idx);
            let ghost before = eui@;
            match hex_digit_value(c) {
                Some(d) => {
                    if !hn {
                        hn = true;
                        eui[offset] = d * 16;
                        assert(eui@.subrange(0, offset as int) =~= before.subrange(0, offset as int));
                    } else {
                        hn = false;
                        eui[offset] = eui[offset] + d;
                        offset = offset + 1;
                        assert(eui@.subrange(0, offset as int) =~= before.subrange(
                            0,
                            offset - 1,
                        ).push(eui[offset - 1]));
                    }
                },
                None => {
                    if c == '-' || c == ':' || c == '.' {
                    } else if c == 'x' || c == 'X' {
                        if idx == 1 {
                            offset = 0;
                            hn = false;
                            assert(eui@.subrange(0, 0) =~= Seq::<u8>::empty());
                        } else {
                            proof {
                                lemma_scan_error_persists(s@, (idx + 1) as nat, len as nat);
                            }
                            return Err(ParseError::InvalidCharacter(c, idx));
                        }
                    } else {
                        proof {
                            lemma_scan_error_persists(s@, (idx + 1) as nat, len as nat);
                        }
                        return Err(ParseError::InvalidCharacter(c, idx));
                    }
                },
            }
            idx = idx + 1;
        }
        if offset == EUI48LEN {
            assert(eui@.subrange(0, 6) =~= eui@);
            Ok(MacAddress::new(eui))
        } else {
            Err(ParseError::InvalidLength(len))
        }
    }
}

impl std::str::FromStr for MacAddress {
    type Err = ParseError;

    fn from_str(us: &str) -> (r: Result<MacAddress, ParseError>)
        ensures
            match r {
                Ok(m) => parse_spec(us@) == Ok::<Seq<u8>, ParseError>(m@),
                Err(e) => parse_spec(us@) == Err::<Seq<u8>, ParseError>(e),
            },
    {
        MacAddress::parse_str(us)
    }
}

} // verus!
