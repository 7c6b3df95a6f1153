use swaptop::fmt::{format_swap_value, i64_to_string, u64_to_string};
use swaptop::units::{convert_swap, SizeUnits};

#[test]
fn kilobytes_are_exact() {
    let v = convert_swap(12345, SizeUnits::KB);
    assert_eq!(v.whole, 12345);
    assert_eq!(v.hundredths, 0);
    let z = convert_swap(0, SizeUnits::KB);
    assert_eq!(z.whole, 0);
    assert_eq!(z.hundredths, 0);
}

#[test]
fn megabytes_scale_by_1024() {
    let v = convert_swap(1536, SizeUnits::MB);
    assert_eq!((v.whole, v.hundredths), (1, 50));
    let w = convert_swap(1024, SizeUnits::MB);
    assert_eq!((w.whole, w.hundredths), (1, 0));
    let h = convert_swap(512, SizeUnits::MB);
    assert_eq!((h.whole, h.hundredths), (0, 50));
}

#[test]
fn gigabytes_scale_by_1048576() {
    let v = convert_swap(1048576, SizeUnits::GB);
    assert_eq!((v.whole, v.hundredths), (1, 0));
    let w = convert_swap(1572864, SizeUnits::GB);
    assert_eq!((w.whole, w.hundredths), (1, 50));
}

#[test]
fn conversion_rounds_half_up_to_hundredths() {
    // 5 KB is 0.0049 MB: rounds down to zero hundredths.
    let v = convert_swap(5, SizeUnits::MB);
    assert_eq!((v.whole, v.hundredths), (0, 0));
    // 6 KB is 0.0059 MB: rounds up to one hundredth.
    let w = convert_swap(6, SizeUnits::MB);
    assert_eq!((w.whole, w.hundredths), (0, 1));
    // 1023 KB is 0.99902 MB: rounds up to a whole unit.
    let c = convert_swap(1023, SizeUnits::MB);
    assert_eq!((c.whole, c.hundredths), (1, 0));
}

#[test]
fn rounding_can_carry_into_the_whole_part_at_the_largest_size() {
    // The fraction rounds to a whole unit and carries.
    let v = convert_swap(u64::MAX, SizeUnits::MB);
    assert_eq!(v.whole, u64::MAX / 1024 + 1);
    assert_eq!(v.hundredths, 0);
    let w = convert_swap(u64::MAX, SizeUnits::KB);
    assert_eq!(w.whole, u64::MAX);
    assert_eq!(w.hundredths, 0);
}

#[test]
fn conversion_is_monotonic_in_kb() {
    let mut last = 0u64;
    for kb in [0u64, 1, 5, 512, 1023, 1024, 4096, 1048576, 10485760] {
        let v = convert_swap(kb, SizeUnits::MB);
        let centi = v.whole * 100 + v.hundredths;
        assert!(centi >= last);
        last = centi;
    }
}

#[test]
fn numerals_have_no_leading_zeros() {
    assert_eq!(u64_to_string(0), "0");
    assert_eq!(u64_to_string(7), "7");
    assert_eq!(u64_to_string(42), "42");
    assert_eq!(u64_to_string(1000), "1000");
    assert_eq!(u64_to_string(u64::MAX), "18446744073709551615");
}

#[test]
fn signed_numerals_carry_the_sign() {
    assert_eq!(i64_to_string(0), "0");
    assert_eq!(i64_to_string(-2), "-2");
    assert_eq!(i64_to_string(31), "31");
    assert_eq!(i64_to_string(i64::MIN), "-9223372036854775808");
    assert_eq!(i64_to_string(i64::MAX), "9223372036854775807");
}

#[test]
fn value_text_is_bare_for_kb_and_two_decimals_otherwise() {
    assert_eq!(format_swap_value(150, SizeUnits::KB), "150");
    assert_eq!(format_swap_value(0, SizeUnits::KB), "0");
    assert_eq!(format_swap_value(1536, SizeUnits::MB), "1.50");
    assert_eq!(format_swap_value(100, SizeUnits::MB), "0.10");
    assert_eq!(format_swap_value(0, SizeUnits::MB), "0.00");
    assert_eq!(format_swap_value(1048576, SizeUnits::GB), "1.00");
    assert_eq!(format_swap_value(2621440, SizeUnits::GB), "2.50");
}
