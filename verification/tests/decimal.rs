use guild_xp::decimal::{abbreviate, modulo, Abbreviation};

#[test]
fn modulo_is_the_remainder() {
    assert_eq!(modulo(7, 5), 2);
    assert_eq!(modulo(5, 5), 0);
    assert_eq!(modulo(0, 5), 0);
    assert_eq!(modulo(4, 5), 4);
    assert_eq!(modulo(usize::MAX, 1), 0);
    assert_eq!(modulo(usize::MAX, usize::MAX), 0);
    assert_eq!(modulo(usize::MAX - 1, usize::MAX), usize::MAX - 1);
}

#[test]
fn small_numbers_are_shown_whole() {
    assert_eq!(abbreviate(0), Abbreviation::Whole);
    assert_eq!(abbreviate(999), Abbreviation::Whole);
    assert_eq!(abbreviate(-999), Abbreviation::Whole);
}

#[test]
fn thousands_are_shown_in_thousands() {
    assert_eq!(abbreviate(1_000), Abbreviation::Thousands);
    assert_eq!(abbreviate(-1_000), Abbreviation::Thousands);
    assert_eq!(abbreviate(999_999), Abbreviation::Thousands);
    assert_eq!(abbreviate(-999_999), Abbreviation::Thousands);
}

#[test]
fn millions_are_shown_in_millions() {
    assert_eq!(abbreviate(1_000_000), Abbreviation::Millions);
    assert_eq!(abbreviate(-1_000_000), Abbreviation::Millions);
    assert_eq!(abbreviate(i64::MAX), Abbreviation::Millions);
    assert_eq!(abbreviate(i64::MIN), Abbreviation::Millions);
}

#[test]
fn abbreviation_names_the_unit_of_the_shortened_number() {
    let shown = |decimal: i64| match abbreviate(decimal) {
        Abbreviation::Millions => format!("{:.1}m", decimal as f64 / 1_000_000.0),
        Abbreviation::Thousands => format!("{:.1}k", decimal as f64 / 1_000.0),
        Abbreviation::Whole => decimal.to_string(),
    };
    assert_eq!(shown(1_640_000), "1.6m");
    assert_eq!(shown(12_345), "12.3k");
    assert_eq!(shown(-2_500), "-2.5k");
    assert_eq!(shown(47), "47");
}
