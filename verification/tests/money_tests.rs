use money_counter::money::Error;
use money_counter::money::Money;
use money_counter::unit::Unit;

fn money(s: &str) -> Money {
    Money::try_from_str(s).unwrap()
}

#[test]
fn decompose_two_fractional_digits() {
    assert_eq!(money("123.45").decompose(), (123, 45));
}

#[test]
fn decompose_one_fractional_digit_scales_tenfold() {
    let m = money("123.4");
    assert_eq!(m.scale, 1);
    assert_eq!(m.decompose(), (123, 40));
}

#[test]
fn decompose_integer_amount_has_no_kopeks() {
    let m = money("100");
    assert_eq!(m.scale, 0);
    assert_eq!(m.decompose(), (100, 0));
}

#[test]
fn three_fractional_digits_rejected() {
    assert_eq!(Money::try_from_str("1.005"), Err(Error::KopekDigitsTooBig));
}

#[test]
fn negative_amount_rejected() {
    assert_eq!(Money::try_from_str("-1.00"), Err(Error::NegativeValue));
}

#[test]
fn malformed_text_rejected() {
    assert_eq!(Money::try_from_str("abc"), Err(Error::ParseFailure));
    assert_eq!(Money::try_from_str(""), Err(Error::ParseFailure));
    assert_eq!(Money::try_from_str("1.2.3"), Err(Error::ParseFailure));
}

#[test]
fn try_new_validates_scale_sign_and_range() {
    assert_eq!(Money::try_new(1005, 3, false), Err(Error::KopekDigitsTooBig));
    assert_eq!(Money::try_new(100, 2, true), Err(Error::NegativeValue));
    assert_eq!(Money::try_new(1u128 << 96, 0, false), Err(Error::Overflow));
    assert_eq!(
        Money::try_new(12345, 2, false),
        Ok(Money { mantissa: 12345, scale: 2, negative: false })
    );
}

#[test]
fn one_ruble_nominative_singular() {
    assert_eq!(money("1.00").to_text(), "один рубль");
}

#[test]
fn two_rubles_genitive_few() {
    assert_eq!(money("2.00").to_text(), "два рубля");
}

#[test]
fn five_rubles_genitive_many() {
    assert_eq!(money("5.00").to_text(), "пять рублей");
}

#[test]
fn eleven_rubles_teen_exception() {
    assert_eq!(money("11.00").to_text(), "одиннадцать рублей");
}

#[test]
fn ruble_and_kopek_phrases_concatenate() {
    assert_eq!(money("1.01").to_text(), "один рубль одна копейка");
    assert_eq!(money("2.22").to_text(), "два рубля двадцать две копейки");
}

#[test]
fn kopek_only_amount_keeps_major_noun() {
    assert_eq!(money("0.05").to_text(), "рублей пять копеек");
}

#[test]
fn zero_amount_keeps_major_noun_only() {
    assert_eq!(money("0").to_text(), "рублей");
}

#[test]
fn thousands_group_feminine_units_masculine() {
    assert_eq!(
        money("1234.00").to_text(),
        "одна тысяча двести тридцать четыре рубля"
    );
}

#[test]
fn single_fractional_digit_pronounced_as_tens_of_kopeks() {
    assert_eq!(money("123.4").to_text(), "сто двадцать три рубля сорок копеек");
}

#[test]
fn whole_amount_omits_minor_phrase() {
    assert_eq!(money("3.00").to_text(), "три рубля");
}

#[test]
fn addition_is_exact_across_scales() {
    let sum = money("1.50").checked_add(&money("2.25")).unwrap();
    assert_eq!(sum.decompose(), (3, 75));
    let mixed = money("1.5").checked_add(&money("2")).unwrap();
    assert_eq!(mixed.decompose(), (3, 50));
}

#[test]
fn subtraction_preserves_sign() {
    let diff = money("1.00").checked_sub(&money("2.50")).unwrap();
    assert!(diff.negative);
    assert_eq!(diff.abs().decompose(), (1, 50));
    assert_eq!(diff.abs().to_text(), "один рубль пятьдесят копеек");
}

#[test]
fn multiplication_by_integer_amount() {
    let product = money("1.50").checked_mul(&money("2")).unwrap();
    assert_eq!(product.decompose(), (3, 0));
}

#[test]
fn multiplication_by_count() {
    let product = money("1.50").checked_mul_unit(&Unit(3)).unwrap();
    assert_eq!(product.decompose(), (4, 50));
    assert_eq!(product.to_text(), "четыре рубля пятьдесят копеек");
}

#[test]
fn division_by_count() {
    let quotient = money("10.00").checked_div_unit(&Unit(4)).unwrap();
    assert_eq!(quotient.decompose(), (2, 50));
}

#[test]
fn division_with_unrepresentable_quotient_rejected() {
    assert_eq!(
        money("1.00").checked_div(&money("3.00")),
        Err(Error::KopekDigitsTooBig)
    );
}

#[test]
fn division_by_zero_fails() {
    assert_eq!(money("1.00").checked_div(&money("0")), Err(Error::Overflow));
    assert_eq!(money("1.00").checked_div_unit(&Unit(0)), Err(Error::Overflow));
}

#[test]
fn kopek_error_message_text() {
    assert_eq!(
        Error::KopekDigitsTooBig.message(),
        "Неверно указано количество копеек, правильное значение: [рубли].(1-99)"
    );
}

#[test]
fn abs_drops_the_sign_only() {
    let m = money("7.25");
    let a = m.abs();
    assert_eq!(a, m);
    assert_eq!(a.decompose(), (7, 25));
}
