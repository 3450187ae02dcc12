use mqtt_test::text::{hex16, index_text, parse_u16_text, port_text};
use mqtt_test::rand_hex;

#[test]
fn hex16_pads_small_values() {
    assert_eq!(hex16(0), "0000000000000000");
    assert_eq!(hex16(0xdead_beef), "00000000deadbeef");
    assert_eq!(hex16(0xabc), format!("{:016x}", 0xabcu128));
}

#[test]
fn hex16_keeps_long_values_whole() {
    assert_eq!(hex16(u128::MAX), "ffffffffffffffffffffffffffffffff");
    let t: u128 = 0x1234_5678_9abc_def0_1122;
    assert_eq!(hex16(t), format!("{:016x}", t));
}

#[test]
fn decimal_rendering() {
    assert_eq!(port_text(1883), "1883");
    assert_eq!(port_text(0), "0");
    assert_eq!(port_text(65535), "65535");
    assert_eq!(index_text(2), "2");
    assert_eq!(index_text(1040), "1040");
}

#[test]
fn parse_accepts_what_str_parse_accepts() {
    for s in ["1883", "+80", "0", "00080", "65535", "9001"] {
        assert_eq!(parse_u16_text(s), s.parse::<u16>().ok(), "{}", s);
    }
    assert_eq!(parse_u16_text("+80"), Some(80));
    assert_eq!(parse_u16_text("00080"), Some(80));
}

#[test]
fn parse_rejects_what_str_parse_rejects() {
    for s in ["", "+", "-", "-1", "65536", "12a", " 80", "80 ", "99999999999", "++1", "٣"] {
        assert_eq!(parse_u16_text(s), None, "{}", s);
        assert_eq!(s.parse::<u16>().ok(), None, "{}", s);
    }
}

#[test]
fn rand_hex_is_lower_hex_of_sixteen_or_more_digits() {
    let h = rand_hex().expect("the clock stands after the epoch");
    assert!(h.len() >= 16);
    assert!(h.chars().all(|c| c.is_ascii_digit() || ('a'..='f').contains(&c)));
    let t = u128::from_str_radix(&h, 16).unwrap();
    assert!(t > 0);
}

#[test]
fn hex16_reads_back_and_keeps_order() {
    for (a, b) in [(5u128, 300u128), (0, 1), (0xff, 0x100), (1 << 40, (1 << 40) + 1)] {
        let (ha, hb) = (hex16(a), hex16(b));
        assert_eq!(u128::from_str_radix(&ha, 16).unwrap(), a);
        assert_eq!(ha.len(), 16);
        assert!(ha < hb);
    }
}
