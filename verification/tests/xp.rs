use guild_xp::xp::{message_timestamp, message_xp, on_cooldown, voice_xp, Multiplier};

fn times(tenths: u8) -> Multiplier {
    Multiplier::from_tenths(tenths).unwrap()
}

#[test]
fn multiplier_lies_between_one_and_five() {
    assert!(Multiplier::from_tenths(9).is_none());
    assert!(Multiplier::from_tenths(0).is_none());
    assert!(Multiplier::from_tenths(51).is_none());
    assert!(Multiplier::from_tenths(255).is_none());
    assert_eq!(times(10).tenths(), 10);
    assert_eq!(times(37).tenths(), 37);
    assert_eq!(times(50).tenths(), 50);
    assert_eq!(Multiplier::default().tenths(), 10);
}

#[test]
fn message_xp_is_the_product_rounded_down() {
    assert_eq!(message_xp(35, times(10)), 35);
    assert_eq!(message_xp(45, times(10)), 45);
    assert_eq!(message_xp(35, times(11)), 38);
    assert_eq!(message_xp(37, times(13)), 48);
    assert_eq!(message_xp(40, times(20)), 80);
    assert_eq!(message_xp(45, times(50)), 225);
    assert_eq!(message_xp(39, times(49)), 191);
}

#[test]
fn voice_xp_is_a_quarter_of_the_product_rounded_down() {
    assert_eq!(voice_xp(100, 140, times(20)), 20);
    assert_eq!(voice_xp(100, 140, times(10)), 10);
    assert_eq!(voice_xp(100, 103, times(10)), 0);
    assert_eq!(voice_xp(100, 104, times(10)), 1);
    assert_eq!(voice_xp(100, 107, times(15)), 2);
    assert_eq!(voice_xp(0, 3_600, times(50)), 4_500);
    assert_eq!(voice_xp(100, 100, times(50)), 0);
}

#[test]
fn voice_xp_of_a_clock_gone_back_is_nothing() {
    assert_eq!(voice_xp(100, 99, times(10)), 0);
    assert_eq!(voice_xp(100, 60, times(20)), 0);
    assert_eq!(voice_xp(i64::MAX, i64::MIN, times(50)), 0);
}

#[test]
fn voice_xp_never_overflows() {
    assert_eq!(voice_xp(i64::MIN, i64::MAX, times(50)), (u64::MAX as i128) * 50 / 40);
}

#[test]
fn message_timestamp_follows_the_identifier() {
    assert_eq!(message_timestamp(0), 1_420_070_400_000);
    assert_eq!(message_timestamp(1 << 22), 1_420_070_400_001);
    assert_eq!(message_timestamp((1 << 22) - 1), 1_420_070_400_000);
    assert_eq!(message_timestamp(999 << 22), 1_420_070_400_999);
    assert_eq!(message_timestamp(1_000 << 22), 1_420_070_401_000);
    assert_eq!(message_timestamp(175_928_847_299_117_063), 1_462_015_105_796);
    assert_eq!(message_timestamp(u64::MAX), 5_818_116_911_103);
}

#[test]
fn cooldown_lasts_sixty_seconds() {
    assert!(!on_cooldown(None, 0));
    assert!(on_cooldown(Some(100_000), 100_000));
    assert!(on_cooldown(Some(100_000), 159_200));
    assert!(on_cooldown(Some(100_000), 159_999));
    assert!(!on_cooldown(Some(100_000), 160_000));
    assert!(!on_cooldown(Some(100_000), 160_001));
    assert!(on_cooldown(Some(100_000), 50_000));
    assert!(on_cooldown(Some(i64::MAX), i64::MAX));
    assert!(!on_cooldown(Some(i64::MIN), i64::MIN + 60_000));
}
