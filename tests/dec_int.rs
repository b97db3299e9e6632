use dec_int::{DecInt, DecimalInteger, BUF_LEN};

fn text_of<I: DecimalInteger>(i: I) -> String {
    DecInt::new(i).as_str().to_string()
}

fn check_views(d: &DecInt, expected: &str) {
    assert_eq!(d.as_str(), expected);
    assert_eq!(d.as_bytes(), expected.as_bytes());
    let mut with_nul = expected.as_bytes().to_vec();
    with_nul.push(0);
    assert_eq!(d.as_bytes_with_nul(), &with_nul[..]);
    assert_eq!(d.as_bytes_with_nul().iter().filter(|b| **b == 0).count(), 1);
    assert!(d.as_bytes_with_nul().len() <= BUF_LEN);
}

#[test]
fn formats_examples() {
    assert_eq!(text_of(9876i32), "9876");
    assert_eq!(text_of(-42i32), "-42");
    assert_eq!(text_of(0i32), "0");
    assert_eq!(text_of(0u8), "0");
    assert_eq!(text_of(10u16), "10");
    assert_eq!(text_of(-1000i64), "-1000");
}

#[test]
fn views_agree_for_examples() {
    for v in [0i64, 1, -1, 7, -7, 9876, -42, 100, 1234567890123] {
        check_views(&DecInt::new(v), &v.to_string());
    }
}

#[test]
fn signed_extremes() {
    check_views(&DecInt::new(i8::MIN), "-128");
    check_views(&DecInt::new(i8::MAX), "127");
    check_views(&DecInt::new(i16::MIN), "-32768");
    check_views(&DecInt::new(i16::MAX), "32767");
    check_views(&DecInt::new(i32::MIN), "-2147483648");
    check_views(&DecInt::new(i32::MAX), "2147483647");
    check_views(&DecInt::new(i64::MIN), "-9223372036854775808");
    check_views(&DecInt::new(i64::MAX), "9223372036854775807");
    check_views(&DecInt::new(isize::MIN), &isize::MIN.to_string());
    check_views(&DecInt::new(isize::MAX), &isize::MAX.to_string());
}

#[test]
fn unsigned_extremes() {
    check_views(&DecInt::new(u8::MIN), "0");
    check_views(&DecInt::new(u8::MAX), "255");
    check_views(&DecInt::new(u16::MAX), "65535");
    check_views(&DecInt::new(u32::MAX), "4294967295");
    check_views(&DecInt::new(u64::MAX), "18446744073709551615");
    check_views(&DecInt::new(usize::MIN), "0");
    check_views(&DecInt::new(usize::MAX), &usize::MAX.to_string());
}

#[test]
fn i64_min_fits_with_terminator() {
    let d = DecInt::new(i64::MIN);
    assert_eq!(d.as_str(), "-9223372036854775808");
    assert_eq!(d.as_bytes().len(), 20);
    assert_eq!(d.as_bytes_with_nul().len(), 21);
    assert_eq!(BUF_LEN, 21);
    assert_eq!(*d.as_bytes_with_nul().last().unwrap(), 0u8);
}

#[test]
fn byte_view_matches_text_view() {
    for v in [0i32, 5, -5, 123456, i32::MIN, i32::MAX] {
        let d = DecInt::new(v);
        assert_eq!(d.as_bytes().len(), d.as_str().len());
        assert_eq!(d.as_bytes(), d.as_str().as_bytes());
        let with_nul = d.as_bytes_with_nul();
        assert_eq!(&with_nul[..with_nul.len() - 1], d.as_bytes());
    }
}

#[test]
fn parses_back_to_the_same_value() {
    for v in [0i8, 1, -1, i8::MIN, i8::MAX] {
        assert_eq!(DecInt::new(v).as_str().parse::<i8>().unwrap(), v);
    }
    for v in [0i16, 1, -1, i16::MIN, i16::MAX] {
        assert_eq!(DecInt::new(v).as_str().parse::<i16>().unwrap(), v);
    }
    for v in [0i32, 1, -1, i32::MIN, i32::MAX] {
        assert_eq!(DecInt::new(v).as_str().parse::<i32>().unwrap(), v);
    }
    for v in [0i64, 1, -1, i64::MIN, i64::MAX] {
        assert_eq!(DecInt::new(v).as_str().parse::<i64>().unwrap(), v);
    }
    for v in [0isize, 1, -1, isize::MIN, isize::MAX] {
        assert_eq!(DecInt::new(v).as_str().parse::<isize>().unwrap(), v);
    }
    for v in [0u8, 1, u8::MAX] {
        assert_eq!(DecInt::new(v).as_str().parse::<u8>().unwrap(), v);
    }
    for v in [0u16, 1, u16::MAX] {
        assert_eq!(DecInt::new(v).as_str().parse::<u16>().unwrap(), v);
    }
    for v in [0u32, 1, u32::MAX] {
        assert_eq!(DecInt::new(v).as_str().parse::<u32>().unwrap(), v);
    }
    for v in [0u64, 1, u64::MAX] {
        assert_eq!(DecInt::new(v).as_str().parse::<u64>().unwrap(), v);
    }
    for v in [0usize, 1, usize::MAX] {
        assert_eq!(DecInt::new(v).as_str().parse::<usize>().unwrap(), v);
    }
}

#[test]
fn same_value_gives_identical_handles() {
    let a = DecInt::new(-31415i64);
    let b = DecInt::new(-31415i64);
    assert_eq!(a.as_str(), b.as_str());
    assert_eq!(a.as_bytes(), b.as_bytes());
    assert_eq!(a.as_bytes_with_nul(), b.as_bytes_with_nul());
    let c = a.clone();
    assert_eq!(c.as_bytes_with_nul(), a.as_bytes_with_nul());
}

#[test]
fn same_value_across_widths() {
    assert_eq!(DecInt::new(200u8).as_bytes_with_nul(), DecInt::new(200i64).as_bytes_with_nul());
    assert_eq!(DecInt::new(-5i8).as_bytes_with_nul(), DecInt::new(-5isize).as_bytes_with_nul());
}

#[test]
fn different_values_give_different_text() {
    assert_ne!(DecInt::new(12i32).as_bytes(), DecInt::new(21i32).as_bytes());
    assert_ne!(DecInt::new(-1i32).as_bytes(), DecInt::new(1i32).as_bytes());
}

#[test]
fn from_fd_matches_new() {
    for fd in [0i32, 1, 2, 3, 255, 1024, i32::MAX] {
        let a = DecInt::from_fd(fd);
        let b = DecInt::new(fd);
        assert_eq!(a.as_bytes_with_nul(), b.as_bytes_with_nul());
        assert_eq!(a.as_str(), fd.to_string());
    }
}

#[test]
fn proc_path_component() {
    let d = DecInt::from_fd(7);
    let path = format!("/proc/self/fd/{}", d.as_str());
    assert_eq!(path, "/proc/self/fd/7");
}

#[test]
fn nul_view_holds_no_interior_nul() {
    for v in [0u64, 10, 100, 1000000, u64::MAX] {
        let d = DecInt::new(v);
        let with_nul = d.as_bytes_with_nul();
        assert!(with_nul[..with_nul.len() - 1].iter().all(|b| *b != 0));
        assert_eq!(with_nul[with_nul.len() - 1], 0);
    }
}
