use terncalc::format::number_to_text;

fn reparse(text: &[u8]) -> i64 {
    let (negative, digits) = match text.split_first() {
        Some((b'-', rest)) => (true, rest),
        _ => (false, text),
    };
    let mut value: i64 = 0;
    for d in digits {
        assert!((b'0'..=b'2').contains(d));
        let digit = (d - b'0') as i64;
        value = value
            .checked_mul(3)
            .and_then(|v| if negative { v.checked_sub(digit) } else { v.checked_add(digit) })
            .expect("reparsing should not overflow");
    }
    value
}

#[test]
fn zero_renders_as_single_digit() {
    assert_eq!(number_to_text(0), b"0");
}

#[test]
fn small_values_render_in_base_three() {
    assert_eq!(number_to_text(1), b"1");
    assert_eq!(number_to_text(2), b"2");
    assert_eq!(number_to_text(3), b"10");
    assert_eq!(number_to_text(5), b"12");
    assert_eq!(number_to_text(9), b"100");
    assert_eq!(number_to_text(26), b"222");
}

#[test]
fn negative_values_carry_a_leading_minus() {
    assert_eq!(number_to_text(-1), b"-1");
    assert_eq!(number_to_text(-5), b"-12");
    assert_eq!(number_to_text(-27), b"-1000");
}

#[test]
fn extreme_values_round_trip() {
    let min = number_to_text(i64::MIN);
    assert_eq!(min[0], b'-');
    assert_eq!(reparse(&min), i64::MIN);
    let max = number_to_text(i64::MAX);
    assert_eq!(reparse(&max), i64::MAX);
}

#[test]
fn every_sample_round_trips() {
    for n in [-100, -42, -3, -2, 0, 1, 7, 81, 12345, -987654321, i64::MAX - 1] {
        assert_eq!(reparse(&number_to_text(n)), n);
    }
}
