use calibright::{
    accept_single_ok, line_of_offset, mean_brightness, parse_raw_brightness, u32_to_chars, Error,
    ErrorKind,
};

fn chars(s: &str) -> Vec<char> {
    s.chars().collect()
}

#[test]
fn parse_reads_sysfs_numbers() {
    assert_eq!(parse_raw_brightness("1023\n").unwrap(), 1023);
    assert_eq!(parse_raw_brightness("0").unwrap(), 0);
    assert_eq!(parse_raw_brightness("42 \t\r\n").unwrap(), 42);
    assert_eq!(parse_raw_brightness("4294967295\n").unwrap(), u32::MAX);
}

#[test]
fn parse_rejects_garbage() {
    for bad in ["", "\n", "12a3", "-5", " 42", "4294967296", "99999999999999999999"] {
        let e = parse_raw_brightness(bad).unwrap_err();
        assert_eq!(e.kind, ErrorKind::Io, "accepted {bad:?}");
    }
}

#[test]
fn render_writes_plain_decimal() {
    let s: String = u32_to_chars(0).iter().collect();
    assert_eq!(s, "0");
    let s: String = u32_to_chars(50).iter().collect();
    assert_eq!(s, "50");
    let s: String = u32_to_chars(4_294_967_295).iter().collect();
    assert_eq!(s, "4294967295");
}

#[test]
fn render_then_parse_round_trips() {
    for v in [0u32, 1, 9, 10, 1023, 65_535, u32::MAX] {
        let s: String = u32_to_chars(v).iter().collect();
        assert_eq!(parse_raw_brightness(&s).unwrap(), v);
    }
}

#[test]
fn successes_are_kept_in_order() {
    let input: Vec<Result<u32, Error>> = vec![
        Ok(3),
        Err(Error::of_kind(ErrorKind::Io)),
        Ok(1),
        Ok(2),
    ];
    assert_eq!(accept_single_ok(input).unwrap(), vec![3, 1, 2]);
}

#[test]
fn no_success_reports_no_devices() {
    let input: Vec<Result<u32, Error>> = vec![
        Err(Error::of_kind(ErrorKind::Io)),
        Err(Error::of_kind(ErrorKind::Config)),
    ];
    assert_eq!(accept_single_ok(input).unwrap_err().kind, ErrorKind::NoDevices);
    let empty: Vec<Result<u32, Error>> = Vec::new();
    assert_eq!(accept_single_ok(empty).unwrap_err().kind, ErrorKind::NoDevices);
}

#[test]
fn mean_rounds_towards_zero() {
    assert_eq!(mean_brightness(&vec![1, 2, 4]), 2);
    assert_eq!(mean_brightness(&vec![500_000]), 500_000);
    assert_eq!(mean_brightness(&vec![0, 1_000_000]), 500_000);
}

#[test]
fn line_numbers_count_preceding_newlines() {
    let text = chars("a = 1\nb = 2\nc = 3\n");
    assert_eq!(line_of_offset(&text, 0), 1);
    assert_eq!(line_of_offset(&text, 5), 1);
    assert_eq!(line_of_offset(&text, 6), 2);
    assert_eq!(line_of_offset(&text, 13), 3);
}

#[test]
fn errors_carry_kind_and_message() {
    let e = Error::new("boom");
    assert_eq!(e.kind, ErrorKind::Other);
    assert_eq!(e.message_text(), "boom");
    let e = Error::of_kind(ErrorKind::NotFound);
    assert_eq!(e.kind, ErrorKind::NotFound);
    assert_eq!(e.message_text(), "Error");
}
