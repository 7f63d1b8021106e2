use random_page_server::decimal::{parse_decimal, render};

#[test]
fn render_zero_is_one_digit() {
    assert_eq!(render(0), b"0".to_vec());
}

#[test]
fn render_writes_exact_digits() {
    assert_eq!(render(7), b"7".to_vec());
    assert_eq!(render(10), b"10".to_vec());
    assert_eq!(render(507), b"507".to_vec());
    assert_eq!(render(20480), b"20480".to_vec());
    assert_eq!(render(1_000_000), b"1000000".to_vec());
}

#[test]
fn render_agrees_with_std_formatting() {
    let mut n: usize = 0;
    while n < 3000 {
        assert_eq!(render(n), format!("{}", n).into_bytes());
        n += 1;
    }
    assert_eq!(render(usize::MAX), format!("{}", usize::MAX).into_bytes());
}

#[test]
fn parse_reads_plain_digits() {
    assert_eq!(parse_decimal(b"8080", 65535), Some(8080));
    assert_eq!(parse_decimal(b"0", 65535), Some(0));
    assert_eq!(parse_decimal(b"5", usize::MAX), Some(5));
}

#[test]
fn parse_accepts_one_plus_sign() {
    assert_eq!(parse_decimal(b"+80", 65535), Some(80));
    assert_eq!(parse_decimal(b"++80", 65535), None);
    assert_eq!(parse_decimal(b"+", 65535), None);
}

#[test]
fn parse_accepts_leading_zeros() {
    assert_eq!(parse_decimal(b"00080", 65535), Some(80));
    assert_eq!(parse_decimal(b"0000000000000000000000000000001", 65535), Some(1));
}

#[test]
fn parse_rejects_what_is_no_number() {
    assert_eq!(parse_decimal(b"", 65535), None);
    assert_eq!(parse_decimal(b"notaport", 65535), None);
    assert_eq!(parse_decimal(b"-1", 65535), None);
    assert_eq!(parse_decimal(b"-0", 65535), None);
    assert_eq!(parse_decimal(b" 80", 65535), None);
    assert_eq!(parse_decimal(b"80 ", 65535), None);
    assert_eq!(parse_decimal(b"8 0", 65535), None);
    assert_eq!(parse_decimal(b"80a", 65535), None);
    assert_eq!(parse_decimal(b"0x50", 65535), None);
    assert_eq!(parse_decimal(b"8.0", 65535), None);
}

#[test]
fn parse_respects_the_bound() {
    assert_eq!(parse_decimal(b"65535", 65535), Some(65535));
    assert_eq!(parse_decimal(b"65536", 65535), None);
    assert_eq!(parse_decimal(b"99999999999999999999999999", 65535), None);
    assert_eq!(parse_decimal(b"99999999999999999999999999", usize::MAX), None);
    assert_eq!(parse_decimal(b"10", 9), None);
    assert_eq!(parse_decimal(b"9", 9), Some(9));
    assert_eq!(parse_decimal(b"0", 0), Some(0));
    assert_eq!(parse_decimal(b"1", 0), None);
}

#[test]
fn parse_reads_the_largest_number() {
    let text = format!("{}", usize::MAX);
    assert_eq!(parse_decimal(text.as_bytes(), usize::MAX), Some(usize::MAX));
}

#[test]
fn parse_agrees_with_std_on_ports() {
    let samples = [
        "", "0", "1", "80", "8080", "65535", "65536", "70000", "+1", "+", "-", "-1", "+-1", "++1",
        "1+", "00", "007", "65535 ", " 65535", "6_5", "1e3", "\u{663}", "\u{966}\u{967}", "0065535", "0065536",
        "4294967296", "18446744073709551616", "abc", "12ab", "\n80", "80\n",
    ];
    for text in samples.iter() {
        let ours = parse_decimal(text.as_bytes(), 65535);
        let theirs = text.parse::<u16>().ok().map(|v| v as usize);
        assert_eq!(ours, theirs);
    }
}

#[test]
fn parse_agrees_with_std_on_sizes() {
    let samples = [
        "", "0", "20", "+20", "-20", "18446744073709551615", "18446744073709551616",
        "184467440737095516150", "notasize", "2 0", "020",
    ];
    for text in samples.iter() {
        let ours = parse_decimal(text.as_bytes(), usize::MAX);
        let theirs = text.parse::<usize>().ok();
        assert_eq!(ours, theirs);
    }
}

#[test]
fn parse_inverts_render() {
    let mut n: usize = 0;
    while n < 70000 {
        assert_eq!(parse_decimal(&render(n), usize::MAX), Some(n));
        n += 7;
    }
    assert_eq!(parse_decimal(&render(usize::MAX), usize::MAX), Some(usize::MAX));
}
