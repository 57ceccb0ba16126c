use histogram256::engine::histogram_256;
use histogram256::input::{histogram_256_signed, values_from_signed, InputError};
use histogram256::text::{histogram_256_from_lines, values_from_lines};

fn lines(text: &str) -> Vec<String> {
    text.lines().map(|l| l.to_string()).collect()
}

#[test]
fn negative_value_is_rejected() {
    assert_eq!(histogram_256_signed(&[3, -1, 5]), Err(InputError::Negative(-1)));
    assert_eq!(values_from_signed(&[-7, -1]), Err(InputError::Negative(-7)));
}

#[test]
fn value_above_u32_is_rejected() {
    let big = u32::MAX as i64 + 1;
    assert_eq!(histogram_256_signed(&[1, big]), Err(InputError::OutOfRange(big)));
}

#[test]
fn signed_values_are_counted() {
    let h = histogram_256_signed(&[0, 100, u32::MAX as i64]).unwrap();
    assert_eq!(h, histogram_256(&[0, 100, u32::MAX]));
    assert_eq!(values_from_signed(&[]), Ok(vec![]));
    assert_eq!(values_from_signed(&[4, 0, 9]), Ok(vec![4, 0, 9]));
}

#[test]
fn text_lines_match_in_memory_values() {
    let from_text = histogram_256_from_lines(&lines("3\n7\n\n3\n")).unwrap();
    assert_eq!(from_text, histogram_256(&[3, 7, 3]));
}

#[test]
fn lines_are_trimmed_and_blank_ones_skipped() {
    let v = values_from_lines(&lines("  3 \n\t7\n   \n+12\n")).unwrap();
    assert_eq!(v, vec![3, 7, 12]);
    assert_eq!(values_from_lines(&[]), Ok(vec![]));
}

#[test]
fn unparseable_line_is_rejected() {
    match values_from_lines(&lines("1\n  x1 \n2\n")) {
        Err(InputError::Unparseable(text, reason)) => {
            assert_eq!(text, "x1");
            assert!(!reason.is_empty());
        }
        other => panic!("unexpected {:?}", other),
    }
    assert!(matches!(
        histogram_256_from_lines(&lines("99999999999999999999\n")),
        Err(InputError::Unparseable(_, _))
    ));
}

#[test]
fn negative_line_is_rejected() {
    assert_eq!(histogram_256_from_lines(&lines("1\n-1\nzz\n")), Err(InputError::Negative(-1)));
    assert_eq!(values_from_lines(&lines("4294967296\n")), Err(InputError::OutOfRange(4294967296)));
}
