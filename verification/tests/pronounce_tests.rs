use money_counter::pronounce::Triplet;

fn units_group(n: u32) -> String {
    let digits = [
        b'0' + (n / 100 % 10) as u8,
        b'0' + (n / 10 % 10) as u8,
        b'0' + (n % 10) as u8,
    ];
    Triplet::new(digits, 0).pronounce()
}

fn units_group_feminine(n: u32) -> String {
    let digits = [
        b'0' + (n / 100 % 10) as u8,
        b'0' + (n / 10 % 10) as u8,
        b'0' + (n % 10) as u8,
    ];
    Triplet::new(digits, 0).into_feminie().pronounce()
}

#[test]
fn units_rendering_zero_is_empty() {
    assert_eq!(units_group(0), "");
}

#[test]
fn units_rendering_masculine_units() {
    assert_eq!(units_group(1), "один");
    assert_eq!(units_group(2), "два");
    assert_eq!(units_group(3), "три");
    assert_eq!(units_group(4), "четыре");
    assert_eq!(units_group(5), "пять");
    assert_eq!(units_group(6), "шесть");
    assert_eq!(units_group(7), "семь");
    assert_eq!(units_group(8), "восемь");
    assert_eq!(units_group(9), "девять");
}

#[test]
fn units_rendering_feminine_one_two() {
    assert_eq!(units_group_feminine(1), "одна");
    assert_eq!(units_group_feminine(2), "две");
    assert_eq!(units_group_feminine(3), "три");
    assert_eq!(units_group_feminine(21), "двадцать одна");
    assert_eq!(units_group_feminine(32), "тридцать две");
}

#[test]
fn units_rendering_teens() {
    assert_eq!(units_group(10), "десять");
    assert_eq!(units_group(11), "одиннадцать");
    assert_eq!(units_group(12), "двенадцать");
    assert_eq!(units_group(13), "тринадцать");
    assert_eq!(units_group(14), "четырнадцать");
    assert_eq!(units_group(15), "пятнадцать");
    assert_eq!(units_group(16), "шестнадцать");
    assert_eq!(units_group(17), "семнадцать");
    assert_eq!(units_group(18), "восемнадцать");
    assert_eq!(units_group(19), "девятнадцать");
}

#[test]
fn units_rendering_decades() {
    assert_eq!(units_group(20), "двадцать");
    assert_eq!(units_group(30), "тридцать");
    assert_eq!(units_group(40), "сорок");
    assert_eq!(units_group(50), "пятьдесят");
    assert_eq!(units_group(60), "шестдесят");
    assert_eq!(units_group(70), "семьдесят");
    assert_eq!(units_group(80), "восемьдесят");
    assert_eq!(units_group(90), "девяносто");
    assert_eq!(units_group(21), "двадцать один");
    assert_eq!(units_group(45), "сорок пять");
    assert_eq!(units_group(99), "девяносто девять");
}

#[test]
fn units_rendering_hundreds() {
    assert_eq!(units_group(100), "сто");
    assert_eq!(units_group(200), "двести");
    assert_eq!(units_group(300), "триста");
    assert_eq!(units_group(400), "четыреста");
    assert_eq!(units_group(500), "пятьсот");
    assert_eq!(units_group(600), "шестьсот");
    assert_eq!(units_group(700), "семьсот");
    assert_eq!(units_group(800), "восемьсот");
    assert_eq!(units_group(900), "девятьсот");
    assert_eq!(units_group(123), "сто двадцать три");
    assert_eq!(units_group(512), "пятьсот двенадцать");
    assert_eq!(units_group(810), "восемьсот десять");
    assert_eq!(units_group(999), "девятьсот девяносто девять");
}

#[test]
fn units_rendering_matches_reference_table_exhaustively() {
    let hundreds = [
        "", "сто", "двести", "триста", "четыреста", "пятьсот", "шестьсот", "семьсот",
        "восемьсот", "девятьсот",
    ];
    let teens = [
        "десять",
        "одиннадцать",
        "двенадцать",
        "тринадцать",
        "четырнадцать",
        "пятнадцать",
        "шестнадцать",
        "семнадцать",
        "восемнадцать",
        "девятнадцать",
    ];
    let decades = [
        "", "", "двадцать", "тридцать", "сорок", "пятьдесят", "шестдесят", "семьдесят",
        "восемьдесят", "девяносто",
    ];
    let ones = [
        "", "один", "два", "три", "четыре", "пять", "шесть", "семь", "восемь", "девять",
    ];
    let ones_fem = [
        "", "одна", "две", "три", "четыре", "пять", "шесть", "семь", "восемь", "девять",
    ];
    for n in 0..=999u32 {
        let h = (n / 100) as usize;
        let t = (n / 10 % 10) as usize;
        let u = (n % 10) as usize;
        for feminine in [false, true] {
            let mut words: Vec<&str> = Vec::new();
            if !hundreds[h].is_empty() {
                words.push(hundreds[h]);
            }
            if t == 1 {
                words.push(teens[u]);
            } else {
                if !decades[t].is_empty() {
                    words.push(decades[t]);
                }
                let unit_word = if feminine { ones_fem[u] } else { ones[u] };
                if !unit_word.is_empty() {
                    words.push(unit_word);
                }
            }
            let expected = words.join(" ");
            let rendered = if feminine {
                units_group_feminine(n)
            } else {
                units_group(n)
            };
            assert_eq!(rendered, expected, "value {} feminine {}", n, feminine);
        }
    }
}

#[test]
fn teen_exception_always_picks_third_form() {
    let forms = ["рубль", "рубля", "рублей"];
    for n in 10..=19u32 {
        let digits = [b'0', b'1', b'0' + (n % 10) as u8];
        let t = Triplet::new(digits, 0);
        assert_eq!(t.triplet_pronounce(forms), "рублей");
    }
}

#[test]
fn trailing_digit_declension_forms() {
    let forms = ["рубль", "рубля", "рублей"];
    let pick = |tens: u8, units: u8| {
        Triplet::new([b'0', b'0' + tens, b'0' + units], 0).triplet_pronounce(forms)
    };
    assert_eq!(pick(0, 1), "рубль");
    assert_eq!(pick(2, 1), "рубль");
    assert_eq!(pick(0, 2), "рубля");
    assert_eq!(pick(0, 3), "рубля");
    assert_eq!(pick(0, 4), "рубля");
    assert_eq!(pick(2, 2), "рубля");
    assert_eq!(pick(0, 0), "рублей");
    assert_eq!(pick(0, 5), "рублей");
    assert_eq!(pick(0, 9), "рублей");
    assert_eq!(pick(1, 1), "рублей");
    assert_eq!(pick(1, 2), "рублей");
    assert_eq!(pick(1, 4), "рублей");
    assert_eq!(pick(3, 0), "рублей");
}

#[test]
fn thousands_group_is_feminine_with_scale_noun() {
    assert_eq!(Triplet::new([b'0', b'0', b'1'], 1).pronounce(), "одна тысяча");
    assert_eq!(Triplet::new([b'0', b'0', b'2'], 1).pronounce(), "две тысячи");
    assert_eq!(Triplet::new([b'0', b'0', b'5'], 1).pronounce(), "пять тысяч");
    assert_eq!(Triplet::new([b'0', b'2', b'1'], 1).pronounce(), "двадцать одна тысяча");
}

#[test]
fn million_group_is_masculine_with_scale_noun() {
    assert_eq!(Triplet::new([b'0', b'0', b'1'], 2).pronounce(), "один миллион");
    assert_eq!(Triplet::new([b'0', b'0', b'2'], 2).pronounce(), "два миллиона");
    assert_eq!(Triplet::new([b'0', b'1', b'2'], 2).pronounce(), "двенадцать миллионов");
}

#[test]
fn empty_group_produces_no_scale_noun() {
    assert_eq!(Triplet::new([b'0', b'0', b'0'], 1).pronounce(), "");
    assert_eq!(Triplet::new([b'0', b'0', b'0'], 5).pronounce(), "");
}
