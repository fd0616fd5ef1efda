use libcmbr::utils::{extract_bits_from_num, nth_prime_number, parse_memory_amount, ParseMemoryError};

#[test]
fn test_nth_prime_number() {
    let expected: [u32; 11] = [1, 2, 3, 5, 7, 11, 13, 17, 19, 23, 29];
    for (n, want) in expected.iter().enumerate() {
        assert_eq!(nth_prime_number(n as u32), *want);
    }
    assert_eq!(nth_prime_number(100), 541);
}

#[test]
fn test_primes_strictly_increase() {
    let mut last = 0;
    for n in 1..64u32 {
        let p = nth_prime_number(n);
        assert!(p > last);
        last = p;
    }
}

#[test]
fn test_extract_bits_from_num() {
    let value = 0b111111_110110_0000_01110101u32;
    assert_eq!(extract_bits_from_num(value, 8, 0), 0b01110101);
    assert_eq!(extract_bits_from_num(value, 4, 8), 0b0000);
    assert_eq!(extract_bits_from_num(value, 6, 12), 0b110110);
    assert_eq!(extract_bits_from_num(value, 6, 18), 0b111111);
}

#[test]
fn test_parse_memory_amount() {
    assert_eq!(parse_memory_amount(b"2GB"), Ok(2 * 1024 * 1024 * 1024));
    assert_eq!(parse_memory_amount(b"1G"), Ok(1024 * 1024 * 1024));
    assert_eq!(parse_memory_amount(b"5M"), Ok(5 * 1024 * 1024));
    assert_eq!(parse_memory_amount(b"1024KB"), Ok(1024 * 1024));
    assert_eq!(parse_memory_amount(b"10x"), Err(ParseMemoryError::UnknownUnit));
    assert_eq!(parse_memory_amount(b"GB"), Err(ParseMemoryError::InvalidFormat));
    assert_eq!(parse_memory_amount(b"10"), Err(ParseMemoryError::InvalidFormat));
}
