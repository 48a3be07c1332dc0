use guild_xp::text::with_commas;

#[test]
fn small_numbers_are_written_without_commas() {
    assert_eq!(with_commas(0), "0");
    assert_eq!(with_commas(7), "7");
    assert_eq!(with_commas(42), "42");
    assert_eq!(with_commas(999), "999");
    assert_eq!(with_commas(-1), "-1");
    assert_eq!(with_commas(-999), "-999");
}

#[test]
fn a_comma_stands_before_every_group_of_three_digits() {
    assert_eq!(with_commas(1_000), "1,000");
    assert_eq!(with_commas(1_005), "1,005");
    assert_eq!(with_commas(12_345), "12,345");
    assert_eq!(with_commas(100_000), "100,000");
    assert_eq!(with_commas(1_234_567), "1,234,567");
    assert_eq!(with_commas(1_000_000_000), "1,000,000,000");
    assert_eq!(with_commas(i64::MAX), "9,223,372,036,854,775,807");
}

#[test]
fn the_sign_stays_in_front_of_the_groups() {
    assert_eq!(with_commas(-1_000), "-1,000");
    assert_eq!(with_commas(-12_345), "-12,345");
    assert_eq!(with_commas(-100_000), "-100,000");
    assert_eq!(with_commas(i64::MIN), "-9,223,372,036,854,775,808");
}
