//! Writing an address in one of its four textual notations.
use vstd::prelude::*;

use crate::address::{Eui48, MacAddress};

verus! {

/// The textual notations of an address.
#[derive(Copy, Clone, Debug, PartialEq, Eq, Structural)]
pub enum MacAddressFormat {
    /// `12-34-56-ab-cd-ef`
    Canonical,
    /// `12:34:56:ab:cd:ef`
    HexString,
    /// `1234.56ab.cdef`
    DotNotation,
    /// `0x123456abcdef`
    Hexadecimal,
}

/// The lowercase hexadecimal digit for a value below 16.
pub open spec fn hex_digit_char(n: int) -> char {
    if n < 10 {
        (n + 48) as char
    } else {
        (n + 87) as char
    }
}

/// A byte as two lowercase hexadecimal digits, zero-padded.
pub open spec fn hex_pair(b: u8) -> Seq<char> {
    seq![hex_digit_char(b as int / 16), hex_digit_char(b as int % 16)]
}

/// The six bytes as digit pairs, with `sep` between each two pairs.
pub open spec fn pairs_joined(b: Seq<u8>, sep: char) -> Seq<char> {
    hex_pair(b[0]) + seq![sep] + hex_pair(b[1]) + seq![sep] + hex_pair(b[2]) + seq![sep]
        + hex_pair(b[3]) + seq![sep] + hex_pair(b[4]) + seq![sep] + hex_pair(b[5])
}

/// The text of the address with bytes `b` in notation `f`.
pub open spec fn text_of(b: Seq<u8>, f: MacAddressFormat) -> Seq<char> {
    match f {
        MacAddressFormat::Canonical => pairs_joined(b, '-'),
        MacAddressFormat::HexString => pairs_joined(b, ':'),
        MacAddressFormat::DotNotation => hex_pair(b[0]) + hex_pair(b[1]) + seq!['.'] + hex_pair(
            b[2],
        ) + hex_pair(b[3]) + seq!['.'] + hex_pair(b[4]) + hex_pair(b[5]),
        MacAddressFormat::Hexadecimal => seq!['0', 'x'] + hex_pair(b[0]) + hex_pair(b[1])
            + hex_pair(b[2]) + hex_pair(b[3]) + hex_pair(b[4]) + hex_pair(b[5]),
    }
}

/// A lowercase hexadecimal digit.
pub open spec fn is_lower_hex_char(c: char) -> bool {
    ('0' <= c && c <= '9') || ('a' <= c && c <= 'f')
}

/// The length of every text in notation `f`.
pub open spec fn text_len(f: MacAddressFormat) -> nat {
    match f {
        MacAddressFormat::Canonical | MacAddressFormat::HexString => 17,
        MacAddressFormat::DotNotation | MacAddressFormat::Hexadecimal => 14,
    }
}

/// The character that notation `f` fixes at position `i`, or `None` where a
/// hexadecimal digit stands.
pub open spec fn fixed_char(f: MacAddressFormat, i: int) -> Option<char> {
    match f {
        MacAddressFormat::Canonical => if i % 3 == 2 {
            Some('-')
        } else {
            None
        },
        MacAddressFormat::HexString => if i % 3 == 2 {
            Some(':')
        } else {
            None
        },
        MacAddressFormat::DotNotation => if i % 5 == 4 {
            Some('.')
        } else {
            None
        },
        MacAddressFormat::Hexadecimal => if i == 0 {
            Some('0')
        } else if i == 1 {
            Some('x')
        } else {
            None
        },
    }
}

/// The digit for a value below 16 is a lowercase hexadecimal digit, whose
/// value read back in either case is that value.
pub proof fn lemma_hex_digit_char(n: int)
    requires
        0 <= n < 16,
    ensures
        is_lower_hex_char(hex_digit_char(n)),
        hex_digit_char(n) as int == if n < 10 {
            n + 48
        } else {
            n + 87
        },
{
}

/// In every notation the text has that notation's fixed length, lowercase
/// hexadecimal digits, and the notation's separators or prefix in their
/// fixed places.
pub proof fn lemma_text_shape(m: MacAddress, f: MacAddressFormat)
    ensures
        text_of(m@, f).len() == text_len(f),
        forall|i: int|
            0 <= i < text_len(f) ==> match #[trigger] fixed_char(f, i) {
                Some(c) => text_of(m@, f)[i] == c,
                None => is_lower_hex_char(text_of(m@, f)[i]),
            },
{
    let b = m@;
    assert forall|k: int| 0 <= k < 6 implies is_lower_hex_char(#[trigger] hex_pair(b[k])[0])
        && is_lower_hex_char(hex_pair(b[k])[1]) by {
        lemma_hex_digit_char(b[k] as int / 16);
        lemma_hex_digit_char(b[k] as int % 16);
    }
    let t = text_of(b, f);
    assert forall|i: int| 0 <= i < text_len(f) implies match #[trigger] fixed_char(f, i) {
        Some(c) => t[i] == c,
        None => is_lower_hex_char(t[i]),
    } by {
        // Each digit of each byte is a lowercase hexadecimal digit.
        assert(is_lower_hex_char(hex_pair(b[0])[0]) && is_lower_hex_char(hex_pair(b[0])[1]));
        assert(is_lower_hex_char(hex_pair(b[1])[0]) && is_lower_hex_char(hex_pair(b[1])[1]));
        assert(is_lower_hex_char(hex_pair(b[2])[0]) && is_lower_hex_char(hex_pair(b[2])[1]));
        assert(is_lower_hex_char(hex_pair(b[3])[0]) && is_lower_hex_char(hex_pair(b[3])[1]));
        assert(is_lower_hex_char(hex_pair(b[4])[0]) && is_lower_hex_char(hex_pair(b[4])[1]));
        assert(is_lower_hex_char(hex_pair(b[5])[0]) && is_lower_hex_char(hex_pair(b[5])[1]));
    }
}

/// The one-character string of the lowercase hexadecimal digit for `n`.
pub(crate) fn hex_digit_str(n: u8) -> (r: &'static str)
    requires
        n < 16,
    ensures
        r@ == seq![hex_digit_char(n as int)],
{
    match n {
        0 => {
            proof {
                reveal_strlit("0");
            }
            "0"
        },
        1 => {
            proof {
                reveal_strlit("1");
            }
            "1"
        },
        2 => {
            proof {
                reveal_strlit("2");
            }
            "2"
        },
        3 => {
            proof {
                reveal_strlit("3");
            }
            "3"
        },
        4 => {
            proof {
                reveal_strlit("4");
            }
            "4"
        },
        5 => {
            proof {
                reveal_strlit("5");
            }
            "5"
        },
        6 => {
            proof {
                reveal_strlit("6");
            }
            "6"
        },
        7 => {
            proof {
                reveal_strlit("7");
            }
            "7"
        },
        8 => {
            proof {
                reveal_strlit("8");
            }
            "8"
        },
        9 => {
            proof {
                reveal_strlit("9");
            }
            "9"
        },
        10 => {
            proof {
                reveal_strlit("a");
            }
            "a"
        },
        11 => {
            proof {
                reveal_strlit("b");
            }
            "b"
        },
        12 => {
            proof {
                reveal_strlit("c");
            }
            "c"
        },
        13 => {
            proof {
                reveal_strlit("d");
            }
            "d"
        },
        14 => {
            proof {
                reveal_strlit("e");
            }
            "e"
        },
        15 => {
            proof {
                reveal_strlit("f");
            }
            "f"
        },
        _ => {
            proof {
                reveal_strlit("f");
            }
            "f"
        },
    }
}

/// Appends the two digits of `b` to `out`.
fn push_hex_pair(out: &mut String, b: u8)
    ensures
        final(out)@ == old(out)@ + hex_pair(b),
{
    out.append(hex_digit_str(b / 16));
    out.append(hex_digit_str(b % 16));
    assert(final(out)@ =~= old(out)@ + hex_pair(b));
}

/// The decimal digits of `n`, most significant first, without leading zeros.
pub open spec fn decimal_text(n: nat) -> Seq<char>
    decreases n,
{
    if n < 10 {
        seq![hex_digit_char(n as int)]
    } else {
        decimal_text(n / 10).push(hex_digit_char(n as int % 10))
    }
}

/// Appends the decimal digits of `n` to `out`.
pub(crate) fn push_decimal(out: &mut String, n: usize)
    ensures
        final(out)@ == old(out)@ + decimal_text(n as nat),
    decreases n,
{
    if n >= 10 {
        push_decimal(out, n / 10);
    }
    out.append(hex_digit_str((n % 10) as u8));
    assert(final(out)@ =~= old(out)@ + decimal_text(n as nat));
}

/// Relies on String::push: appends the one character `c` at the end.
#[verifier::external_body]
pub(crate) fn push_char(out: &mut String, c: char)
    ensures
        final(out)@ == old(out)@.push(c),
{
    out.push(c);
}

/// The notation of the default text of an address: canonical.
impl Default for MacAddressFormat {
    fn default() -> (r: MacAddressFormat)
        ensures
            r == MacAddressFormat::Canonical,
    {
        MacAddressFormat::Canonical
    }
}

/// The six bytes of `b` as digit pairs, with the one character of `sep`
/// between each two pairs.
fn pairs_joined_text(b: &Eui48, sep: &str) -> (r: String)
    requires
        sep@.len() == 1,
    ensures
        r@ == pairs_joined(b@, sep@[0]),
{
    let mut out = String::new();
    push_hex_pair(&mut out, b[0]);
    out.append(sep);
    push_hex_pair(&mut out, b[1]);
    out.append(sep);
    push_hex_pair(&mut out, b[2]);
    out.append(sep);
    push_hex_pair(&mut out, b[3]);
    out.append(sep);
    push_hex_pair(&mut out, b[4]);
    out.append(sep);
    push_hex_pair(&mut out, b[5]);
    assert(sep@ =~= seq![sep@[0]]);
    assert(out@ =~= pairs_joined(b@, sep@[0]));
    out
}

impl MacAddress {
    /// The address in the form `12-34-56-ab-cd-ef`.
    pub fn to_canonical(&self) -> (r: String)
        ensures
            r@ == text_of(self@, MacAddressFormat::Canonical),
    {
        proof {
            reveal_strlit("-");
        }
        pairs_joined_text(&self.eui, "-")
    }

    /// The address in the form `12:34:56:ab:cd:ef`.
    pub fn to_hex_string(&self) -> (r: String)
        ensures
            r@ == text_of(self@, MacAddressFormat::HexString),
    {
        proof {
            reveal_strlit(":");
        }
        pairs_joined_text(&self.eui, ":")
    }

    /// The address in the form `1234.56ab.cdef`.
    pub fn to_dot_string(&self) -> (r: String)
        ensures
            r@ == text_of(self@, MacAddressFormat::DotNotation),
    {
        proof {
            reveal_strlit(".");
        }
        let mut out = String::new();
        push_hex_pair(&mut out, self.eui[0]);
        push_hex_pair(&mut out, self.eui[1]);
        out.append(".");
        push_hex_pair(&mut out, self.eui[2]);
        push_hex_pair(&mut out, self.eui[3]);
        out.append(".");
        push_hex_pair(&mut out, self.eui[4]);
        push_hex_pair(&mut out, self.eui[5]);
        assert(out@ =~= text_of(self@, MacAddressFormat::DotNotation));
        out
    }

    /// The address in the form `0x123456abcdef`.
    pub fn to_hexadecimal(&self) -> (r: String)
        ensures
            r@ == text_of(self@, MacAddressFormat::Hexadecimal),
    {
        proof {
            reveal_strlit("0x");
        }
        let mut out = String::new();
        out.append("0x");
        push_hex_pair(&mut out, self.eui[0]);
        push_hex_pair(&mut out, self.eui[1]);
        push_hex_pair(&mut out, self.eui[2]);
        push_hex_pair(&mut out, self.eui[3]);
        push_hex_pair(&mut out, self.eui[4]);
        push_hex_pair(&mut out, self.eui[5]);
        assert(out@ =~= text_of(self@, MacAddressFormat::Hexadecimal));
        out
    }

    /// The address in notation `fmt`.
    pub fn to_string(&self, fmt: MacAddressFormat) -> (r: String)
        ensures
            r@ == text_of(self@, fmt),
    {
        match fmt {
            MacAddressFormat::Canonical => self.to_canonical(),
            MacAddressFormat::HexString => self.to_hex_string(),
            MacAddressFormat::DotNotation => self.to_dot_string(),
            MacAddressFormat::Hexadecimal => self.to_hexadecimal(),
        }
    }
}

} // verus!
