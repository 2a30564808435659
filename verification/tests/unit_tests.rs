use money_counter::pronounce::NumberPronouce;
use money_counter::unit::Unit;

#[test]
fn grouping_round_trip_restores_decimal_digits() {
    for n in [0u128, 7, 42, 100, 999, 1000, 1234567, 1000000007, u128::MAX] {
        let triplets = Unit(n).into_triplets();
        let mut digits: Vec<u8> = Vec::new();
        for t in triplets.iter().rev() {
            digits.extend_from_slice(&t.number);
        }
        let reassembled = String::from_utf8(digits).unwrap();
        let canonical = format!("{}", n);
        assert_eq!(reassembled.trim_start_matches('0'), canonical.trim_start_matches('0'));
        assert_eq!(reassembled.len() % 3, 0);
        assert!(reassembled.ends_with(&canonical));
    }
}

#[test]
fn count_triplets_mark_only_units_group_feminine() {
    let triplets = Unit(1234567).into_triplets();
    assert_eq!(triplets.len(), 3);
    for (i, t) in triplets.iter().enumerate() {
        assert_eq!(t.pos, i);
        assert_eq!(t.feminie, i == 0);
    }
}

#[test]
fn count_one_agrees_feminine() {
    assert_eq!(Unit(1).to_text(), "одна единица");
}

#[test]
fn count_two_takes_genitive_few() {
    assert_eq!(Unit(2).to_text(), "две единицы");
}

#[test]
fn count_five_takes_genitive_many() {
    assert_eq!(Unit(5).to_text(), "пять единиц");
}

#[test]
fn count_twenty_one_agrees_feminine_singular() {
    assert_eq!(Unit(21).to_text(), "двадцать одна единица");
}

#[test]
fn count_teens_take_genitive_many() {
    assert_eq!(Unit(11).to_text(), "одиннадцать единиц");
    assert_eq!(Unit(12).to_text(), "двенадцать единиц");
    assert_eq!(Unit(114).to_text(), "сто четырнадцать единиц");
}

#[test]
fn count_zero_yields_no_numeral_word() {
    assert_eq!(Unit(0).to_text(), "единиц");
}

#[test]
fn count_with_thousands_group() {
    assert_eq!(Unit(1021).to_text(), "одна тысяча двадцать одна единица");
    assert_eq!(Unit(2000).to_text(), "две тысячи единиц");
    assert_eq!(Unit(5000).to_text(), "пять тысяч единиц");
}

#[test]
fn count_skips_empty_middle_groups() {
    assert_eq!(Unit(1000000).to_text(), "один миллион единиц");
    assert_eq!(
        Unit(1000001).to_text(),
        "один миллион одна единица"
    );
}

#[test]
fn count_large_magnitude_scales() {
    assert_eq!(
        Unit(123456789).to_text(),
        "сто двадцать три миллиона четыреста пятьдесят шесть тысяч семьсот восемьдесят девять единиц"
    );
}

#[test]
fn count_maximum_storage_value_renders() {
    // The largest 128-bit value has 39 digits and reaches the
    // undecillion (position 12) scale noun without failing.
    let text = Unit(u128::MAX).to_text();
    assert!(text.starts_with("триста сорок ундециллионов"));
    assert!(text.ends_with("четыреста пятьдесят пять единиц"));
}

#[test]
fn count_arithmetic_exact() {
    assert_eq!(Unit(2).checked_add(Unit(3)), Some(Unit(5)));
    assert_eq!(Unit(5).checked_sub(Unit(2)), Some(Unit(3)));
    assert_eq!(Unit(6).checked_mul(Unit(7)), Some(Unit(42)));
    assert_eq!(Unit(7).checked_div(Unit(2)), Some(Unit(3)));
}

#[test]
fn count_arithmetic_failures() {
    assert_eq!(Unit(u128::MAX).checked_add(Unit(1)), None);
    assert_eq!(Unit(2).checked_sub(Unit(3)), None);
    assert_eq!(Unit(u128::MAX).checked_mul(Unit(2)), None);
    assert_eq!(Unit(1).checked_div(Unit(0)), None);
}
