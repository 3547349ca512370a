use macaddress::ParseError::{InvalidCharacter, InvalidLength};
use macaddress::{Eui64, MacAddress, MacAddressFormat, ParseError, EUI48LEN, EUI64LEN};

const SAMPLES: [[u8; 6]; 6] = [
    [0x00, 0x00, 0x00, 0x00, 0x00, 0x00],
    [0xff, 0xff, 0xff, 0xff, 0xff, 0xff],
    [0x12, 0x34, 0x56, 0xab, 0xcd, 0xef],
    [0x01, 0x0a, 0xa0, 0x0f, 0xf0, 0x10],
    [0x9f, 0xe2, 0x7c, 0x03, 0x80, 0x7f],
    [0x02, 0x00, 0x5e, 0x10, 0x00, 0x01],
];

const FORMATS: [MacAddressFormat; 4] = [
    MacAddressFormat::Canonical,
    MacAddressFormat::HexString,
    MacAddressFormat::DotNotation,
    MacAddressFormat::Hexadecimal,
];

fn is_lower_hex(c: char) -> bool {
    c.is_ascii_digit() || ('a'..='f').contains(&c)
}

#[test]
fn hex_string_round_trip_on_samples() {
    for b in SAMPLES.iter() {
        let mac = MacAddress::new(*b);
        let text = mac.to_string(MacAddressFormat::HexString);
        assert_eq!(MacAddress::parse_str(&text), Ok(mac));
    }
}

#[test]
fn every_notation_reads_back() {
    for b in SAMPLES.iter() {
        let mac = MacAddress::new(*b);
        for f in FORMATS.iter() {
            let text = mac.to_string(*f);
            assert_eq!(MacAddress::parse_str(&text), Ok(mac));
        }
    }
}

#[test]
fn text_shape_on_samples() {
    for b in SAMPLES.iter() {
        let mac = MacAddress::new(*b);
        for f in FORMATS.iter() {
            let text: Vec<char> = mac.to_string(*f).chars().collect();
            let (len, fixed): (usize, Vec<(usize, char)>) = match f {
                MacAddressFormat::Canonical => {
                    (17, vec![(2, '-'), (5, '-'), (8, '-'), (11, '-'), (14, '-')])
                }
                MacAddressFormat::HexString => {
                    (17, vec![(2, ':'), (5, ':'), (8, ':'), (11, ':'), (14, ':')])
                }
                MacAddressFormat::DotNotation => (14, vec![(4, '.'), (9, '.')]),
                MacAddressFormat::Hexadecimal => (14, vec![(0, '0'), (1, 'x')]),
            };
            assert_eq!(text.len(), len);
            for (i, c) in text.iter().enumerate() {
                match fixed.iter().find(|(p, _)| *p == i) {
                    Some((_, want)) => assert_eq!(c, want),
                    None => assert!(is_lower_hex(*c), "{:?} at {}", c, i),
                }
            }
        }
    }
}

#[test]
fn bytes_render_zero_padded() {
    let mac = MacAddress::new([0x01, 0x0a, 0xa0, 0x0f, 0xf0, 0x00]);
    assert_eq!(mac.to_canonical(), "01-0a-a0-0f-f0-00");
    assert_eq!(mac.to_dot_string(), "010a.a00f.f000");
    assert_eq!(mac.to_hexadecimal(), "0x010aa00ff000");
}

#[test]
fn nil_and_broadcast_predicates() {
    assert!(MacAddress::nil().is_nil());
    assert!(!MacAddress::nil().is_broadcast());
    assert!(MacAddress::broadcast().is_broadcast());
    assert!(!MacAddress::broadcast().is_nil());
    assert!(!MacAddress::new([0, 0, 0, 0, 0, 1]).is_nil());
    assert!(!MacAddress::new([0xff, 0xff, 0xff, 0xff, 0xff, 0xfe]).is_broadcast());
    assert!(MacAddress::nil() != MacAddress::broadcast());
    assert_eq!(MacAddress::nil().eui, [0u8; 6]);
    assert_eq!(MacAddress::broadcast().eui, [0xffu8; 6]);
}

#[test]
fn kind_predicates_are_complementary() {
    for first in 0..=255u8 {
        let mac = MacAddress::new([first, 0x34, 0x56, 0xab, 0xcd, 0xef]);
        assert_ne!(mac.is_unicast(), mac.is_multicast());
        assert_ne!(mac.is_universal(), mac.is_local());
        assert_eq!(mac.is_multicast(), first & 1 == 1);
        assert_eq!(mac.is_local(), first & 2 == 2);
    }
}

#[test]
fn colon_notation_scenario() {
    let mac = MacAddress::parse_str("12:34:56:AB:CD:EF").unwrap();
    assert_eq!(mac.eui, [0x12, 0x34, 0x56, 0xAB, 0xCD, 0xEF]);
    assert_eq!(mac.to_string(MacAddressFormat::Canonical), "12-34-56-ab-cd-ef");
}

#[test]
fn prefixed_notation_scenario() {
    let mac = MacAddress::parse_str("0x123456ABCDEF").unwrap();
    assert_eq!(mac.eui, [0x12, 0x34, 0x56, 0xAB, 0xCD, 0xEF]);
    assert_eq!(mac.to_string(MacAddressFormat::Hexadecimal), "0x123456abcdef");
}

#[test]
fn length_error_scenarios() {
    assert_eq!(MacAddress::parse_str(""), Err(InvalidLength(0)));
    assert_eq!(MacAddress::parse_str("123456ABCDEF"), Err(InvalidLength(12)));
    assert_eq!(MacAddress::parse_str("12:34:56:ab:cd:ef:"), Err(InvalidLength(18)));
}

#[test]
fn misplaced_x_scenario() {
    assert_eq!(MacAddress::parse_str("0x0x0x0x0x0x0x"), Err(InvalidCharacter('x', 3)));
    assert_eq!(MacAddress::parse_str("12:34:56:ab:cd:eX"), Err(InvalidCharacter('X', 16)));
}

#[test]
fn leading_bad_character_scenario() {
    assert_eq!(MacAddress::parse_str("!0x00000000000"), Err(InvalidCharacter('!', 0)));
}

#[test]
fn multicast_scenario() {
    let mac = MacAddress::parse_str("01:00:5E:AB:CD:EF").unwrap();
    assert!(mac.is_multicast());
    assert!(!mac.is_unicast());
    assert!(MacAddress::broadcast().is_multicast());
}

#[test]
fn prefix_is_positional() {
    let upper = MacAddress::parse_str("0X123456abcdef").unwrap();
    assert_eq!(upper.eui, [0x12, 0x34, 0x56, 0xab, 0xcd, 0xef]);
    let odd = MacAddress::parse_str("7x123456abcdef").unwrap();
    assert_eq!(odd.eui, [0x12, 0x34, 0x56, 0xab, 0xcd, 0xef]);
}

#[test]
fn mixed_separators_accepted() {
    let mac = MacAddress::parse_str("12-34:56.ab-cd:ef").unwrap();
    assert_eq!(mac.eui, [0x12, 0x34, 0x56, 0xab, 0xcd, 0xef]);
    let loose = MacAddress::parse_str(":::::123456abcdef").unwrap();
    assert_eq!(loose.eui, [0x12, 0x34, 0x56, 0xab, 0xcd, 0xef]);
    assert_eq!(MacAddress::parse_str("123456abcdef:::::"), Err(InvalidLength(17)));
}

#[test]
fn too_many_digit_pairs() {
    assert_eq!(MacAddress::parse_str("123456abcdef12345"), Err(InvalidLength(17)));
    assert_eq!(MacAddress::parse_str("123456abcdef!!"), Err(InvalidLength(14)));
}

#[test]
fn length_counts_characters() {
    assert_eq!(
        MacAddress::parse_str("12:34:56:ab:cd:e\u{e9}"),
        Err(InvalidCharacter('\u{e9}', 16))
    );
    assert_eq!(MacAddress::parse_str("\u{e9}"), Err(InvalidLength(1)));
}

#[test]
fn bad_character_in_the_middle() {
    assert_eq!(MacAddress::parse_str("12:34:g6:ab:cd:ef"), Err(InvalidCharacter('g', 6)));
    assert_eq!(MacAddress::parse_str("12 34 56 ab cd ef"), Err(InvalidCharacter(' ', 2)));
}

#[test]
fn from_str_matches_parse_str() {
    let mac: MacAddress = "12:34:56:ab:cd:ef".parse().unwrap();
    assert_eq!(Ok(mac), MacAddress::parse_str("12:34:56:ab:cd:ef"));
    let err: Result<MacAddress, ParseError> = "nope".parse();
    assert_eq!(err, Err(InvalidLength(4)));
}

#[test]
fn defaults() {
    assert_eq!(MacAddress::default(), MacAddress::nil());
    assert!(MacAddressFormat::default() == MacAddressFormat::Canonical);
}

#[test]
fn error_descriptions() {
    assert_eq!(
        InvalidLength(12).to_string(),
        "Invalid length; expecting 14 or 17 chars, found 12"
    );
    assert_eq!(
        InvalidLength(0).to_string(),
        "Invalid length; expecting 14 or 17 chars, found 0"
    );
    assert_eq!(
        InvalidLength(1907).to_string(),
        "Invalid length; expecting 14 or 17 chars, found 1907"
    );
    assert_eq!(
        InvalidCharacter('!', 0).to_string(),
        "Invalid character; found `!` at offset 0"
    );
    assert_eq!(
        InvalidCharacter('x', 13).to_string(),
        "Invalid character; found `x` at offset 13"
    );
}

#[test]
fn buffer_sizes() {
    let long: Eui64 = [0u8; EUI64LEN];
    assert_eq!(long.len(), 8);
    assert_eq!(MacAddress::nil().eui.len(), EUI48LEN);
    assert_eq!(EUI48LEN, 6);
}
