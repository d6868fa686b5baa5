use nova_music::numtext::{format_clock, parse_u32, u64_text};

#[test]
fn parse_u32_matches_std() {
    for s in ["0", "7", "+42", "007", "4294967295", "4294967296", "", "+", "-1", " 1", "1 ", "12a", "٣"] {
        assert_eq!(parse_u32(s), s.parse::<u32>().ok(), "input {:?}", s);
    }
}

#[test]
fn u64_text_matches_display() {
    for n in [0u64, 9, 10, 99, 100, 12345, u64::MAX] {
        assert_eq!(u64_text(n), n.to_string());
    }
}

#[test]
fn clock_text_pads_to_two_digits() {
    assert_eq!(format_clock(0, 0), "00:00");
    assert_eq!(format_clock(3, 7), "03:07");
    assert_eq!(format_clock(12, 45), "12:45");
    assert_eq!(format_clock(125, 9), "125:09");
}
