use tracexec::kernel::{is_current_kernel_greater_than, parse_kernel_version};

#[test]
fn parses_major_and_minor() {
    assert_eq!(parse_kernel_version(&b"5.15.0-91-generic".to_vec()), Some((5, 15)));
    assert_eq!(parse_kernel_version(&b"4.8".to_vec()), Some((4, 8)));
    assert_eq!(parse_kernel_version(&b"6.1.0".to_vec()), Some((6, 1)));
}

#[test]
fn rejects_malformed_release_strings() {
    assert_eq!(parse_kernel_version(&b"".to_vec()), None);
    assert_eq!(parse_kernel_version(&b"abc".to_vec()), None);
    assert_eq!(parse_kernel_version(&b"5".to_vec()), None);
    assert_eq!(parse_kernel_version(&b"5.".to_vec()), None);
    assert_eq!(parse_kernel_version(&b".5".to_vec()), None);
    assert_eq!(parse_kernel_version(&b"5x.1".to_vec()), None);
}

#[test]
fn rejects_overflowing_components() {
    assert_eq!(parse_kernel_version(&b"99999999999.1".to_vec()), None);
    assert_eq!(parse_kernel_version(&b"1.99999999999".to_vec()), None);
    // the largest value still fits
    assert_eq!(
        parse_kernel_version(&b"4294967295.4294967295".to_vec()),
        Some((u32::MAX, u32::MAX))
    );
}

#[test]
fn compares_lexicographically_against_the_minimum() {
    assert_eq!(is_current_kernel_greater_than(&b"4.8.0".to_vec(), 4, 8), Some(true));
    assert_eq!(is_current_kernel_greater_than(&b"4.9.0".to_vec(), 4, 8), Some(true));
    assert_eq!(is_current_kernel_greater_than(&b"5.0.0".to_vec(), 4, 8), Some(true));
    assert_eq!(is_current_kernel_greater_than(&b"4.7.9".to_vec(), 4, 8), Some(false));
    assert_eq!(is_current_kernel_greater_than(&b"3.19.8".to_vec(), 4, 8), Some(false));
    assert_eq!(is_current_kernel_greater_than(&b"bogus".to_vec(), 4, 8), None);
}
