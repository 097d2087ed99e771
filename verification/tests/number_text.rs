use snobol4_runner::text::{push_decimal, push_hex_padded};

#[test]
fn decimal_reads_back_as_the_number() {
    for n in [0u64, 7, 10, 99, 100, 65_535, 200_000_000, u64::MAX] {
        let mut s = String::new();
        push_decimal(&mut s, n);
        assert_eq!(s, format!("{}", n));
        assert_eq!(s.parse::<u64>().unwrap(), n);
    }
}

#[test]
fn hex_is_zero_padded_upper_case() {
    for (n, w) in [(0u64, 2usize), (0xAB, 2), (0x5, 6), (0xFEDCBA, 6), (0x1234567, 6), (u64::MAX, 0)] {
        let mut s = String::from("x");
        push_hex_padded(&mut s, n, w);
        assert_eq!(s, format!("x{:0w$X}", n, w = w));
        assert_eq!(u64::from_str_radix(&s[1..], 16).unwrap(), n);
    }
}
