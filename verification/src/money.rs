//! A fixed-scale monetary amount: construction, decomposition into
//! major (ruble) and minor (kopek) units, pronunciation, and arithmetic
//! carried out by the decimal collaborator.

use crate::digits::group_count;
use crate::digits::group_digits;
use crate::digits::pow10;
use crate::pronounce::declension_form;
use crate::pronounce::form_index;
use crate::pronounce::join_word;
use crate::pronounce::lemma_units_group_digits;
use crate::pronounce::magnitude_triplets;
use crate::pronounce::number_phrase;
use crate::pronounce::pronounce_triplets;
use crate::pronounce::seq_phrase;
use crate::pronounce::joined;
use crate::pronounce::triplet_view;
use crate::pronounce::NumberPronouce;
use crate::pronounce::Triplet;
use crate::unit::Unit;
use vstd::prelude::*;

verus! {

/// What can go wrong when a monetary value is constructed or combined.
#[derive(Clone, Copy, Debug, PartialEq, Eq, Structural)]
pub enum Error {
    /// The source decimal carries more than two fractional digits.
    KopekDigitsTooBig,
    /// The source decimal is negative.
    NegativeValue,
    /// The source text is not a well-formed decimal number.
    ParseFailure,
    /// An arithmetic combination left the representable range.
    Overflow,
}

/// The user-facing message of an error.
pub open spec fn error_message(e: Error) -> Seq<char> {
    match e {
        Error::KopekDigitsTooBig => "Неверно указано количество копеек, правильное значение: [рубли].(1-99)"@,
        Error::NegativeValue => "Отрицательное значение суммы недопустимо"@,
        Error::ParseFailure => "Не удалось разобрать число"@,
        Error::Overflow => "Переполнение при вычислении суммы"@,
    }
}

impl Error {
    /// The user-facing message of this error.
    pub fn message(&self) -> (r: &'static str)
        ensures
            r@ == error_message(*self),
    {
        match self {
            Error::KopekDigitsTooBig => "Неверно указано количество копеек, правильное значение: [рубли].(1-99)",
            Error::NegativeValue => "Отрицательное значение суммы недопустимо",
            Error::ParseFailure => "Не удалось разобрать число",
            Error::Overflow => "Переполнение при вычислении суммы",
        }
    }
}

/// A monetary amount: an unscaled 96-bit magnitude, the count of
/// fractional digits it carries (at most two once validated), and a
/// sign. The value it denotes is `mantissa / 10^scale` rubles.
#[derive(Clone, Copy, Debug, PartialEq, Eq, Structural)]
pub struct Money {
    pub mantissa: u128,
    pub scale: u32,
    pub negative: bool,
}

/// The decomposition of an amount: whole rubles and 0-99 kopeks.
pub type MoneyDecomposed = (u128, u8);

impl Money {
    /// Validity: at most two fractional digits, and a magnitude within
    /// the decimal collaborator's 96-bit mantissa range.
    pub open spec fn wf(&self) -> bool {
        self.scale <= 2 && self.mantissa < 0x1000000000000000000000000
    }

    /// The magnitude of this amount expressed in whole kopeks.
    pub open spec fn kopeks(&self) -> nat {
        self.mantissa as nat * pow10((2 - self.scale) as nat)
    }

    /// The unscaled magnitude of this amount, signed.
    pub open spec fn signed_mantissa(&self) -> int {
        if self.negative {
            -(self.mantissa as int)
        } else {
            self.mantissa as int
        }
    }

    /// The signed value of this amount in kopeks.
    pub open spec fn val(&self) -> int {
        self.signed_mantissa() * pow10((2 - self.scale) as nat)
    }

    /// Validates and builds an amount from an unscaled magnitude, a
    /// fractional scale and a sign: more than two fractional digits,
    /// a negative sign, and a magnitude beyond the 96-bit mantissa
    /// range are each rejected.
    pub fn try_new(mantissa: u128, scale: u32, negative: bool) -> (r: Result<Money, Error>)
        ensures
            scale > 2 ==> r == Err::<Money, Error>(Error::KopekDigitsTooBig),
            scale <= 2 && negative ==> r == Err::<Money, Error>(Error::NegativeValue),
            scale <= 2 && !negative && mantissa >= 0x1000000000000000000000000 ==> r == Err::<
                Money,
                Error,
            >(Error::Overflow),
            scale <= 2 && !negative && mantissa < 0x1000000000000000000000000 ==> r == Ok::<
                Money,
                Error,
            >(Money { mantissa, scale, negative: false }),
    {
        if scale > 2 {
            Err(Error::KopekDigitsTooBig)
        } else if negative {
            Err(Error::NegativeValue)
        } else if mantissa >= 0x1000000000000000000000000 {
            Err(Error::Overflow)
        } else {
            Ok(Money { mantissa, scale, negative: false })
        }
    }

    /// The same amount with the sign dropped.
    pub fn abs(&self) -> (r: Money)
        ensures
            r.mantissa == self.mantissa,
            r.scale == self.scale,
            !r.negative,
            self.wf() ==> r.wf() && r.val() == self.kopeks(),
    {
        Money { mantissa: self.mantissa, scale: self.scale, negative: false }
    }

    /// Splits the magnitude of this amount into whole rubles and the
    /// 0-99 kopek remainder; a single stored fractional digit counts
    /// tens of kopeks.
    pub fn decompose(&self) -> (r: MoneyDecomposed)
        requires
            self.wf(),
        ensures
            r.0 as nat == self.kopeks() / 100,
            r.1 as nat == self.kopeks() % 100,
            r.1 < 100,
    {
        proof {
            assert(pow10(0) == 1);
            assert(pow10(1) == 10);
            assert(pow10(2) == 100);
        }
        if self.scale == 0 {
            proof {
                assert(self.kopeks() == self.mantissa * 100);
                assert(self.mantissa * 100 / 100 == self.mantissa as int) by (nonlinear_arith);
                assert(self.mantissa * 100 % 100 == 0) by (nonlinear_arith);
            }
            (self.mantissa, 0)
        } else if self.scale == 1 {
            proof {
                assert(self.kopeks() == self.mantissa * 10);
                assert(self.mantissa * 10 / 100 == self.mantissa as int / 10) by (nonlinear_arith);
                assert(self.mantissa * 10 % 100 == (self.mantissa as int % 10) * 10)
                    by (nonlinear_arith);
            }
            (self.mantissa / 10, ((self.mantissa % 10) as u8) * 10)
        } else {
            proof {
                assert(self.kopeks() == self.mantissa * 1);
                assert(self.mantissa * 1 == self.mantissa as int);
            }
            (self.mantissa / 100, (self.mantissa % 100) as u8)
        }
    }

    /// The full pronounced text of this amount: rubles with the
    /// masculine currency noun, then kopeks with the feminine one.
    pub fn to_text(&self) -> (r: String)
        requires
            self.wf(),
        ensures
            r@ == money_text(self.kopeks() / 100, self.kopeks() % 100),
    {
        let d = self.decompose();
        d.pronounce()
    }
}

/// Powers of ten are at least one.
pub proof fn lemma_pow10_pos(k: nat)
    ensures
        pow10(k) >= 1,
    decreases k,
{
    if k > 0 {
        lemma_pow10_pos((k - 1) as nat);
    }
}

/// Powers of ten compose additively.
pub proof fn lemma_pow10_adds(a: nat, b: nat)
    ensures
        pow10(a + b) == pow10(a) * pow10(b),
    decreases a,
{
    if a > 0 {
        lemma_pow10_adds((a - 1) as nat, b);
        let pa1 = pow10((a - 1) as nat) as int;
        let pb = pow10(b) as int;
        assert((a + b) - 1 == (a - 1) + b);
        assert(pow10(a + b) == 10 * pow10(((a - 1) + b) as nat));
        assert(pow10(((a - 1) + b) as nat) == pa1 * pb);
        vstd::arithmetic::mul::lemma_mul_is_associative(10, pa1, pb);
        assert(pow10(a + b) == (10 * pa1) * pb);
        assert(pow10(a) == 10 * pa1);
    } else {
        assert(pow10(0) == 1);
        assert(pow10(a + b) == pow10(b));
    }
}

/// The three ASCII digits of a kopek count, most significant first.
pub open spec fn kopek_digits(k: nat) -> Seq<u8> {
    seq![48u8, (48 + k / 10) as u8, (48 + k % 10) as u8]
}

/// The triplet views of the ruble magnitude: no feminine agreement,
/// since the currency noun is masculine.
pub open spec fn money_major_views(n: nat) -> Seq<(Seq<u8>, int, bool)> {
    Seq::new(group_count(n), |p: int| (group_digits(n, p as nat), p, false))
}

/// The declined major currency noun: "рубль" / "рубля" / "рублей".
pub open spec fn ruble_noun(form: int) -> Seq<char> {
    if form == 0 {
        "рубль"@
    } else if form == 1 {
        "рубля"@
    } else {
        "рублей"@
    }
}

/// The declined minor currency noun: "копейка" / "копейки" / "копеек".
pub open spec fn kopek_noun(form: int) -> Seq<char> {
    if form == 0 {
        "копейка"@
    } else if form == 1 {
        "копейки"@
    } else {
        "копеек"@
    }
}

/// The pronounced ruble part: the numeral phrase of the major units
/// followed by the declined major currency noun.
pub open spec fn money_major_phrase(rubles: nat) -> Seq<char> {
    joined(seq_phrase(money_major_views(rubles)), ruble_noun(declension_form(rubles)))
}

/// The full pronounced text of an amount. A zero kopek count omits the
/// minor phrase entirely; otherwise the feminine-agreed kopek numeral
/// and the declined minor noun follow the ruble part.
pub open spec fn money_text(rubles: nat, kopek: nat) -> Seq<char> {
    if kopek == 0 {
        money_major_phrase(rubles)
    } else {
        joined(
            joined(money_major_phrase(rubles), number_phrase(kopek_digits(kopek), 0, true)),
            kopek_noun(form_index(kopek_digits(kopek)[1], kopek_digits(kopek)[2])),
        )
    }
}

impl NumberPronouce for MoneyDecomposed {
    open spec fn spec_triplets(&self) -> Seq<(Seq<u8>, int, bool)> {
        money_major_views(self.0 as nat).push((kopek_digits(self.1 as nat), 0, false))
    }

    open spec fn spec_pronounce(&self) -> Seq<char> {
        money_text(self.0 as nat, self.1 as nat)
    }

    /// The ruble triplets by ascending scale position, then the kopek
    /// triplet at position 0.
    fn into_triplets(&self) -> (r: Vec<Triplet>)
    {
        let mut r = magnitude_triplets(self.0, false);
        r.push(Triplet::new([48, 48 + self.1 / 10, 48 + self.1 % 10], 0));
        proof {
            assert(r@.map_values(|t: Triplet| triplet_view(t)) =~= self.spec_triplets());
        }
        r
    }

    fn pronounce(&self) -> (r: String)
    {
        let major_ts = magnitude_triplets(self.0, false);
        let mut result = pronounce_triplets(&major_ts);
        proof {
            lemma_units_group_digits(self.0 as nat);
            assert(seq_phrase(major_ts@.map_values(|t: Triplet| triplet_view(t))) == seq_phrase(
                money_major_views(self.0 as nat),
            )) by {
                assert(major_ts@.map_values(|t: Triplet| triplet_view(t)) =~= money_major_views(
                    self.0 as nat,
                ));
            }
        }
        let rub = major_ts[0].triplet_pronounce(["рубль", "рубля", "рублей"]);
        join_word(&mut result, rub);
        if self.1 != 0 {
            let kt = Triplet::new([48, 48 + self.1 / 10, 48 + self.1 % 10], 0);
            let ktf = kt.into_feminie();
            let minor = ktf.number_pronounce();
            proof {
                assert(ktf.number@ =~= kopek_digits(self.1 as nat));
            }
            join_word(&mut result, minor.as_str());
            let kop = kt.triplet_pronounce(["копейка", "копейки", "копеек"]);
            join_word(&mut result, kop);
        }
        result
    }
}

/// The constituent parts of a decimal value, as the decimal
/// collaborator exposes them: a 96-bit magnitude in three 32-bit words,
/// a fractional scale, and a sign.
#[derive(Clone, Copy, Debug, PartialEq, Eq, Structural)]
pub struct DecParts {
    pub lo: u32,
    pub mid: u32,
    pub hi: u32,
    pub scale: u32,
    pub negative: bool,
}

/// A 96-bit magnitude assembled from three 32-bit words.
pub open spec fn words_val(lo: u32, mid: u32, hi: u32) -> nat {
    (hi as nat) * 0x10000000000000000 + (mid as nat) * 0x100000000 + (lo as nat)
}

/// The unscaled magnitude of decimal parts.
pub open spec fn mant(p: DecParts) -> nat {
    words_val(p.lo, p.mid, p.hi)
}

/// The signed unscaled magnitude of decimal parts.
pub open spec fn sgn_mant(p: DecParts) -> int {
    if p.negative {
        -(mant(p) as int)
    } else {
        mant(p) as int
    }
}

/// The larger of two operand scales.
pub open spec fn max_scale(a: DecParts, b: DecParts) -> int {
    if a.scale >= b.scale {
        a.scale as int
    } else {
        b.scale as int
    }
}

/// The exact signed sum of two decimal values, as an unscaled magnitude
/// at the larger of the two scales.
pub open spec fn aligned_sum(a: DecParts, b: DecParts) -> int {
    sgn_mant(a) * pow10((max_scale(a, b) - a.scale) as nat) + sgn_mant(b) * pow10(
        (max_scale(a, b) - b.scale) as nat,
    )
}

/// The exact signed difference of two decimal values, as an unscaled
/// magnitude at the larger of the two scales.
pub open spec fn aligned_diff(a: DecParts, b: DecParts) -> int {
    sgn_mant(a) * pow10((max_scale(a, b) - a.scale) as nat) - sgn_mant(b) * pow10(
        (max_scale(a, b) - b.scale) as nat,
    )
}

/// Whether a signed magnitude fits the 96-bit mantissa range.
pub open spec fn fits_96(v: int) -> bool {
    -0x1000000000000000000000000 < v < 0x1000000000000000000000000
}

/// What the decimal collaborator parses a string into: the mantissa
/// words, scale and sign of the parsed value, or nothing when the text
/// is rejected.
pub uninterp spec fn parsed_decimal(s: Seq<char>) -> Option<(u32, u32, u32, u32, bool)>;

/// What the decimal collaborator's division yields: the rounded
/// quotient of two decimal values, a function of the operands alone, or
/// nothing on division by zero or overflow.
pub uninterp spec fn dec_quotient(a: DecParts, b: DecParts) -> Option<DecParts>;

/// Relies on rust_decimal's Decimal::from_str_exact to parse a decimal
/// literal, a function of the characters alone, and on Decimal::unpack
/// to expose the parts (low, middle and high mantissa words, scale,
/// sign) of the parsed value; any decimal's scale is at most 28.
#[verifier::external_body]
fn parse_decimal(s: &str) -> (r: Option<(u32, u32, u32, u32, bool)>)
    ensures
        r == parsed_decimal(s@),
        r matches Some(p) ==> p.3 <= 28,
{
    match rust_decimal::Decimal::from_str_exact(s) {
        Ok(d) => {
            let u = d.unpack();
            Some((u.lo, u.mid, u.hi, u.scale, u.negative))
        },
        Err(_) => None,
    }
}

/// Relies on rust_decimal's Decimal::checked_add, with
/// Decimal::from_parts and Decimal::unpack converting at the boundary:
/// addition aligns the operands at the larger scale and is exact
/// whenever the aligned sum fits the 96-bit mantissa, and the result's
/// scale never exceeds the larger operand scale.
#[verifier::external_body]
fn dec_checked_add(a: DecParts, b: DecParts) -> (r: Option<DecParts>)
    requires
        a.scale <= 28,
        b.scale <= 28,
    ensures
        r matches Some(p) ==> p.scale <= max_scale(a, b),
        r is None ==> !fits_96(aligned_sum(a, b)),
        r matches Some(p) ==> (fits_96(aligned_sum(a, b)) ==> sgn_mant(p) * pow10(
            (max_scale(a, b) - p.scale) as nat,
        ) == aligned_sum(a, b)),
{
    let da = rust_decimal::Decimal::from_parts(a.lo, a.mid, a.hi, a.negative, a.scale);
    let db = rust_decimal::Decimal::from_parts(b.lo, b.mid, b.hi, b.negative, b.scale);
    match da.checked_add(db) {
        Some(d) => {
            let u = d.unpack();
            Some(DecParts { lo: u.lo, mid: u.mid, hi: u.hi, scale: u.scale, negative: u.negative })
        },
        None => None,
    }
}

/// Relies on rust_decimal's Decimal::checked_sub, with
/// Decimal::from_parts and Decimal::unpack converting at the boundary:
/// subtraction aligns the operands at the larger scale and is exact
/// whenever the aligned difference fits the 96-bit mantissa, and the
/// result's scale never exceeds the larger operand scale.
#[verifier::external_body]
fn dec_checked_sub(a: DecParts, b: DecParts) -> (r: Option<DecParts>)
    requires
        a.scale <= 28,
        b.scale <= 28,
    ensures
        r matches Some(p) ==> p.scale <= max_scale(a, b),
        r is None ==> !fits_96(aligned_diff(a, b)),
        r matches Some(p) ==> (fits_96(aligned_diff(a, b)) ==> sgn_mant(p) * pow10(
            (max_scale(a, b) - p.scale) as nat,
        ) == aligned_diff(a, b)),
{
    let da = rust_decimal::Decimal::from_parts(a.lo, a.mid, a.hi, a.negative, a.scale);
    let db = rust_decimal::Decimal::from_parts(b.lo, b.mid, b.hi, b.negative, b.scale);
    match da.checked_sub(db) {
        Some(d) => {
            let u = d.unpack();
            Some(DecParts { lo: u.lo, mid: u.mid, hi: u.hi, scale: u.scale, negative: u.negative })
        },
        None => None,
    }
}

/// Relies on rust_decimal's Decimal::checked_mul, with
/// Decimal::from_parts and Decimal::unpack converting at the boundary:
/// the product is exact, at the sum of the operand scales, whenever the
/// mantissa product fits 96 bits (a zero product may come back at a
/// smaller scale), and the result's scale never exceeds that sum.
#[verifier::external_body]
fn dec_checked_mul(a: DecParts, b: DecParts) -> (r: Option<DecParts>)
    requires
        a.scale + b.scale <= 28,
    ensures
        r matches Some(p) ==> p.scale <= a.scale + b.scale,
        r is None ==> mant(a) * mant(b) >= 0x1000000000000000000000000,
        r matches Some(p) ==> (mant(a) * mant(b) < 0x1000000000000000000000000 ==> sgn_mant(p)
            * pow10(((a.scale + b.scale) - p.scale) as nat) == sgn_mant(a) * sgn_mant(b)),
{
    let da = rust_decimal::Decimal::from_parts(a.lo, a.mid, a.hi, a.negative, a.scale);
    let db = rust_decimal::Decimal::from_parts(b.lo, b.mid, b.hi, b.negative, b.scale);
    match da.checked_mul(db) {
        Some(d) => {
            let u = d.unpack();
            Some(DecParts { lo: u.lo, mid: u.mid, hi: u.hi, scale: u.scale, negative: u.negative })
        },
        None => None,
    }
}

/// Relies on rust_decimal's Decimal::checked_div, with
/// Decimal::from_parts and Decimal::unpack converting at the boundary.
/// The rounded quotient depends on the operands alone, so it carries
/// the name `dec_quotient`. Division by zero yields nothing, nothing
/// comes back only then or on overflow of a nonzero dividend, a zero
/// dividend yields the zero decimal, and any quotient carries a scale
/// of at most 28.
#[verifier::external_body]
fn dec_checked_div(a: DecParts, b: DecParts) -> (r: Option<DecParts>)
    requires
        a.scale <= 28,
        b.scale <= 28,
    ensures
        r == dec_quotient(a, b),
        mant(b) == 0 ==> r is None,
        r is None ==> mant(a) != 0 || mant(b) == 0,
        r matches Some(p) ==> p.scale <= 28,
        r matches Some(p) ==> (mant(a) == 0 ==> p == (DecParts {
            lo: 0,
            mid: 0,
            hi: 0,
            scale: 0,
            negative: false,
        })),
{
    let da = rust_decimal::Decimal::from_parts(a.lo, a.mid, a.hi, a.negative, a.scale);
    let db = rust_decimal::Decimal::from_parts(b.lo, b.mid, b.hi, b.negative, b.scale);
    match da.checked_div(db) {
        Some(d) => {
            let u = d.unpack();
            Some(DecParts { lo: u.lo, mid: u.mid, hi: u.hi, scale: u.scale, negative: u.negative })
        },
        None => None,
    }
}

/// Assembles a 96-bit magnitude from its three 32-bit words.
fn words_mantissa(lo: u32, mid: u32, hi: u32) -> (r: u128)
    ensures
        r as nat == words_val(lo, mid, hi),
        r < 0x1000000000000000000000000,
{
    (hi as u128) * 0x10000000000000000 + (mid as u128) * 0x100000000 + (lo as u128)
}

/// Splits a 96-bit magnitude into its three 32-bit words.
fn mantissa_words(m: u128) -> (r: (u32, u32, u32))
    requires
        m < 0x1000000000000000000000000,
    ensures
        words_val(r.0, r.1, r.2) == m as nat,
        r.0 == m as int % 0x100000000,
        r.1 == (m as int / 0x100000000) % 0x100000000,
        r.2 == m as int / 0x10000000000000000,
{
    let lo = (m % 0x100000000) as u32;
    let mid = ((m / 0x100000000) % 0x100000000) as u32;
    let hi = (m / 0x10000000000000000) as u32;
    proof {
        let mi = m as int;
        vstd::arithmetic::div_mod::lemma_fundamental_div_mod(mi, 0x100000000);
        vstd::arithmetic::div_mod::lemma_fundamental_div_mod(mi / 0x100000000, 0x100000000);
        vstd::arithmetic::div_mod::lemma_div_denominator(mi, 0x100000000, 0x100000000);
        assert(mi / 0x10000000000000000 < 0x100000000) by (nonlinear_arith)
            requires
                0 <= mi < 0x1000000000000000000000000,
        ;
        assert(0x100000000int * (0x100000000 * (mi / 0x10000000000000000)) == 0x10000000000000000
            * (mi / 0x10000000000000000)) by (nonlinear_arith);
        assert(0x100000000int * (0x100000000 * (mi / 0x10000000000000000) + (mi / 0x100000000)
            % 0x100000000) == 0x100000000 * (0x100000000 * (mi / 0x10000000000000000))
            + 0x100000000 * ((mi / 0x100000000) % 0x100000000)) by (nonlinear_arith);
    }
    (lo, mid, hi)
}

/// An unscaled magnitude at one scale, re-expressed in kopeks.
proof fn lemma_rescale_to_kopeks(sgn: int, scale: int, smax: int)
    requires
        0 <= scale <= smax <= 2,
    ensures
        sgn * pow10((2 - scale) as nat) == (sgn * pow10((smax - scale) as nat)) * pow10(
            (2 - smax) as nat,
        ),
{
    lemma_pow10_adds((smax - scale) as nat, (2 - smax) as nat);
    assert((smax - scale) + (2 - smax) == 2 - scale);
    vstd::arithmetic::mul::lemma_mul_is_associative(
        sgn,
        pow10((smax - scale) as nat) as int,
        pow10((2 - smax) as nat) as int,
    );
}

/// A value that fits the 96-bit range keeps fitting after the scale
/// factor is divided out.
proof fn lemma_fits_transfer(al: int, f: int, v: int)
    requires
        f >= 1,
        v == al * f,
        fits_96(v),
    ensures
        fits_96(al),
{
    if al >= 0x1000000000000000000000000 {
        assert(al * f >= al) by (nonlinear_arith)
            requires
                f >= 1 && al >= 0,
        ;
        assert(false);
    }
    if al <= -0x1000000000000000000000000 {
        assert(al * f <= al) by (nonlinear_arith)
            requires
                f >= 1 && al <= 0,
        ;
        assert(false);
    }
}

/// The exact sum and difference of two amounts, in kopeks, equal the
/// aligned forms scaled back to kopeks.
proof fn lemma_val_sum_aligned(pa: DecParts, pb: DecParts, va: int, vb: int)
    requires
        pa.scale <= 2,
        pb.scale <= 2,
        va == sgn_mant(pa) * pow10((2 - pa.scale) as nat),
        vb == sgn_mant(pb) * pow10((2 - pb.scale) as nat),
    ensures
        va + vb == aligned_sum(pa, pb) * pow10((2 - max_scale(pa, pb)) as nat),
        va - vb == aligned_diff(pa, pb) * pow10((2 - max_scale(pa, pb)) as nat),
{
    let smax = max_scale(pa, pb);
    let f = pow10((2 - smax) as nat) as int;
    let ax = sgn_mant(pa) * pow10((smax - pa.scale) as nat) as int;
    let bx = sgn_mant(pb) * pow10((smax - pb.scale) as nat) as int;
    lemma_rescale_to_kopeks(sgn_mant(pa), pa.scale as int, smax);
    lemma_rescale_to_kopeks(sgn_mant(pb), pb.scale as int, smax);
    assert(va == ax * f);
    assert(vb == bx * f);
    vstd::arithmetic::mul::lemma_mul_is_distributive_add_other_way(f, ax, bx);
    vstd::arithmetic::mul::lemma_mul_is_distributive_sub_other_way(f, ax, bx);
}

/// An exact combination result, given as an unscaled magnitude at the
/// combination scale, denotes the expected kopek value.
proof fn lemma_result_val(q: DecParts, smax: int, target: int, v: int)
    requires
        q.scale <= smax <= 2,
        sgn_mant(q) * pow10((smax - q.scale) as nat) == target,
        v == target * pow10((2 - smax) as nat),
    ensures
        sgn_mant(q) * pow10((2 - q.scale) as nat) == v,
{
    lemma_rescale_to_kopeks(sgn_mant(q), q.scale as int, smax);
}

/// The decimal-parts image of an amount: its mantissa split into three
/// 32-bit words, with its scale and sign.
pub open spec fn money_parts(m: Money) -> DecParts {
    DecParts {
        lo: (m.mantissa % 0x100000000) as u32,
        mid: ((m.mantissa / 0x100000000) % 0x100000000) as u32,
        hi: (m.mantissa / 0x10000000000000000) as u32,
        scale: m.scale,
        negative: m.negative,
    }
}

/// The amount that a decimal combination outcome denotes: an overflow
/// when the combination failed, a rejection when the result carries
/// more than two fractional digits, and the exact value otherwise.
pub open spec fn dec_result_money(p: Option<DecParts>) -> Result<Money, Error> {
    match p {
        None => Err(Error::Overflow),
        Some(q) => if q.scale > 2 {
            Err(Error::KopekDigitsTooBig)
        } else {
            Ok(Money { mantissa: mant(q) as u128, scale: q.scale, negative: q.negative })
        },
    }
}

/// A count taken as a whole-ruble amount.
pub open spec fn count_money(c: Unit) -> Money {
    Money { mantissa: c.0, scale: 0, negative: false }
}

impl Money {
    /// This amount as decimal parts for the collaborator.
    fn to_dec_parts(&self) -> (r: DecParts)
        requires
            self.wf(),
        ensures
            r == money_parts(*self),
            mant(r) == self.mantissa as nat,
            sgn_mant(r) == self.signed_mantissa(),
            r.scale == self.scale,
            r.negative == self.negative,
    {
        let (lo, mid, hi) = mantissa_words(self.mantissa);
        DecParts { lo, mid, hi, scale: self.scale, negative: self.negative }
    }

    /// Turns the outcome of a decimal combination into an amount,
    /// exactly as `dec_result_money` describes it: a failed combination
    /// is an overflow, a result carrying more than two fractional
    /// digits is rejected, and anything else is taken over exactly.
    pub fn from_dec_result(p: Option<DecParts>) -> (r: Result<Money, Error>)
        ensures
            r == dec_result_money(p),
            r matches Ok(m) ==> m.wf(),
    {
        match p {
            None => Err(Error::Overflow),
            Some(q) => {
                if q.scale > 2 {
                    Err(Error::KopekDigitsTooBig)
                } else {
                    let mantissa = words_mantissa(q.lo, q.mid, q.hi);
                    Ok(Money { mantissa, scale: q.scale, negative: q.negative })
                }
            },
        }
    }

    /// Parses a decimal literal into an amount. A text the decimal
    /// collaborator rejects is a parse failure; a parsed value with
    /// more than two fractional digits or a negative sign is rejected
    /// as the corresponding construction error.
    pub fn try_from_str(s: &str) -> (r: Result<Money, Error>)
        ensures
            parsed_decimal(s@) is None ==> r == Err::<Money, Error>(Error::ParseFailure),
            parsed_decimal(s@) matches Some(p) ==> (p.3 > 2 ==> r == Err::<Money, Error>(
                Error::KopekDigitsTooBig,
            )),
            parsed_decimal(s@) matches Some(p) ==> (p.3 <= 2 && p.4 ==> r == Err::<Money, Error>(
                Error::NegativeValue,
            )),
            parsed_decimal(s@) matches Some(p) ==> (p.3 <= 2 && !p.4 ==> r == Ok::<Money, Error>(
                Money {
                    mantissa: words_val(p.0, p.1, p.2) as u128,
                    scale: p.3,
                    negative: false,
                },
            )),
            r matches Ok(m) ==> m.wf() && !m.negative,
    {
        match parse_decimal(s) {
            None => Err(Error::ParseFailure),
            Some((lo, mid, hi, scale, negative)) => {
                if scale > 2 {
                    Err(Error::KopekDigitsTooBig)
                } else if negative {
                    Err(Error::NegativeValue)
                } else {
                    let mantissa = words_mantissa(lo, mid, hi);
                    Ok(Money { mantissa, scale, negative: false })
                }
            },
        }
    }

    /// The sum of two amounts. Success is owed whenever the exact sum,
    /// in kopeks, fits the 96-bit mantissa range; the result is then
    /// exact.
    pub fn checked_add(&self, rhs: &Money) -> (r: Result<Money, Error>)
        requires
            self.wf(),
            rhs.wf(),
        ensures
            fits_96(self.val() + rhs.val()) ==> (r matches Ok(m) && m.wf() && m.val() == self.val()
                + rhs.val()),
            r matches Ok(m) ==> m.wf(),
    {
        let pa = self.to_dec_parts();
        let pb = rhs.to_dec_parts();
        let res = dec_checked_add(pa, pb);
        let ghost smax = max_scale(pa, pb);
        proof {
            lemma_val_sum_aligned(pa, pb, self.val(), rhs.val());
            if fits_96(self.val() + rhs.val()) {
                lemma_pow10_pos((2 - smax) as nat);
                lemma_fits_transfer(
                    aligned_sum(pa, pb),
                    pow10((2 - smax) as nat) as int,
                    self.val() + rhs.val(),
                );
            }
        }
        let out = Money::from_dec_result(res);
        proof {
            if fits_96(self.val() + rhs.val()) {
                let q = res->Some_0;
                lemma_result_val(q, smax, aligned_sum(pa, pb), self.val() + rhs.val());
            }
        }
        out
    }

    /// The difference of two amounts. Success is owed whenever the
    /// exact difference, in kopeks, fits the 96-bit mantissa range; the
    /// result is then exact, and carries a sign when the subtrahend is
    /// the larger.
    pub fn checked_sub(&self, rhs: &Money) -> (r: Result<Money, Error>)
        requires
            self.wf(),
            rhs.wf(),
        ensures
            fits_96(self.val() - rhs.val()) ==> (r matches Ok(m) && m.wf() && m.val() == self.val()
                - rhs.val()),
            r matches Ok(m) ==> m.wf(),
    {
        let pa = self.to_dec_parts();
        let pb = rhs.to_dec_parts();
        let res = dec_checked_sub(pa, pb);
        let ghost smax = max_scale(pa, pb);
        proof {
            lemma_val_sum_aligned(pa, pb, self.val(), rhs.val());
            if fits_96(self.val() - rhs.val()) {
                lemma_pow10_pos((2 - smax) as nat);
                lemma_fits_transfer(
                    aligned_diff(pa, pb),
                    pow10((2 - smax) as nat) as int,
                    self.val() - rhs.val(),
                );
            }
        }
        let out = Money::from_dec_result(res);
        proof {
            if fits_96(self.val() - rhs.val()) {
                let q = res->Some_0;
                lemma_result_val(q, smax, aligned_diff(pa, pb), self.val() - rhs.val());
            }
        }
        out
    }

    /// The product of two amounts, in ruble terms, so that one hundred
    /// times the resulting kopek value equals the product of the two
    /// kopek values. Success is owed whenever the mantissa product fits
    /// 96 bits and the scales sum to at most two; a finer product is
    /// rejected for carrying more than two fractional digits.
    pub fn checked_mul(&self, rhs: &Money) -> (r: Result<Money, Error>)
        requires
            self.wf(),
            rhs.wf(),
        ensures
            self.mantissa * rhs.mantissa < 0x1000000000000000000000000 && self.scale + rhs.scale
                <= 2 ==> (r matches Ok(m) && m.wf() && 100 * m.val() == self.val() * rhs.val()),
            r matches Ok(m) ==> m.wf(),
    {
        let pa = self.to_dec_parts();
        let pb = rhs.to_dec_parts();
        let res = dec_checked_mul(pa, pb);
        let out = Money::from_dec_result(res);
        proof {
            if self.mantissa * rhs.mantissa < 0x1000000000000000000000000 && self.scale + rhs.scale
                <= 2 {
                let q = res->Some_0;
                let ssum = pa.scale + pb.scale;
                assert(mant(pa) * mant(pb) < 0x1000000000000000000000000);
                lemma_result_val(
                    q,
                    ssum as int,
                    sgn_mant(pa) * sgn_mant(pb),
                    (sgn_mant(pa) * sgn_mant(pb)) * pow10((2 - ssum) as nat),
                );
                lemma_mul_val_product(pa, pb, self.val(), rhs.val());
            }
        }
        out
    }

    /// The quotient of two amounts: exactly the image, under
    /// `dec_result_money`, of the collaborator's named quotient
    /// `dec_quotient`. Division by zero fails, a zero dividend yields
    /// the zero amount, and a quotient carrying more than two
    /// fractional digits is rejected.
    pub fn checked_div(&self, rhs: &Money) -> (r: Result<Money, Error>)
        requires
            self.wf(),
            rhs.wf(),
        ensures
            r == dec_result_money(dec_quotient(money_parts(*self), money_parts(*rhs))),
            rhs.mantissa == 0 ==> r == Err::<Money, Error>(Error::Overflow),
            self.mantissa == 0 && rhs.mantissa != 0 ==> (r matches Ok(m) && m.val() == 0),
            r matches Ok(m) ==> m.wf(),
    {
        let pa = self.to_dec_parts();
        let pb = rhs.to_dec_parts();
        let res = dec_checked_div(pa, pb);
        let out = Money::from_dec_result(res);
        proof {
            if self.mantissa == 0 && rhs.mantissa != 0 {
                let zero_parts = DecParts { lo: 0, mid: 0, hi: 0, scale: 0, negative: false };
                assert(mant(pa) == 0 && mant(pb) != 0);
                assert(res matches Some(q) && q == zero_parts);
                assert(mant(zero_parts) == 0);
                let m = Money { mantissa: 0u128, scale: 0u32, negative: false };
                assert(out == Ok::<Money, Error>(m));
                assert(m.signed_mantissa() == 0);
                assert(m.val() == 0);
            }
        }
        out
    }

    /// The amount scaled by a count. Success is owed whenever the count
    /// lies within the 96-bit mantissa range and the mantissa product
    /// fits it too; the result is then exactly the count-fold value.
    pub fn checked_mul_unit(&self, rhs: &Unit) -> (r: Result<Money, Error>)
        requires
            self.wf(),
        ensures
            rhs.0 >= 0x1000000000000000000000000 ==> r == Err::<Money, Error>(Error::Overflow),
            rhs.0 < 0x1000000000000000000000000 && self.mantissa * rhs.0
                < 0x1000000000000000000000000 ==> (r matches Ok(m) && m.wf() && m.val()
                == self.val() * rhs.0),
            r matches Ok(m) ==> m.wf(),
    {
        if rhs.0 >= 0x1000000000000000000000000u128 {
            Err(Error::Overflow)
        } else {
            let b = Money { mantissa: rhs.0, scale: 0, negative: false };
            let out = self.checked_mul(&b);
            proof {
                assert(pow10(0) == 1);
                assert(pow10(1) == 10);
                assert(pow10(2) == 100);
                if self.mantissa * rhs.0 < 0x1000000000000000000000000 {
                    let m = out->Ok_0;
                    assert(b.val() == (rhs.0 as int) * 100);
                    assert(100 * m.val() == self.val() * ((rhs.0 as int) * 100));
                    assert(self.val() * ((rhs.0 as int) * 100) == (self.val() * rhs.0) * 100)
                        by (nonlinear_arith);
                }
            }
            out
        }
    }

    /// The amount divided by a count: for a count in range, exactly the
    /// image of the collaborator's named quotient, the count taken as a
    /// whole-ruble amount. A zero or out-of-range count fails, and a
    /// zero dividend yields the zero amount.
    pub fn checked_div_unit(&self, rhs: &Unit) -> (r: Result<Money, Error>)
        requires
            self.wf(),
        ensures
            rhs.0 == 0 ==> r == Err::<Money, Error>(Error::Overflow),
            rhs.0 >= 0x1000000000000000000000000 ==> r == Err::<Money, Error>(Error::Overflow),
            rhs.0 < 0x1000000000000000000000000 ==> r == dec_result_money(
                dec_quotient(money_parts(*self), money_parts(count_money(*rhs))),
            ),
            self.mantissa == 0 && rhs.0 != 0 && rhs.0 < 0x1000000000000000000000000 ==> (
            r matches Ok(m) && m.val() == 0),
            r matches Ok(m) ==> m.wf(),
    {
        if rhs.0 >= 0x1000000000000000000000000u128 {
            Err(Error::Overflow)
        } else {
            let b = Money { mantissa: rhs.0, scale: 0, negative: false };
            self.checked_div(&b)
        }
    }
}

/// The product of two kopek values equals one hundred times the product
/// of the unscaled magnitudes re-expressed in kopeks.
proof fn lemma_mul_val_product(pa: DecParts, pb: DecParts, va: int, vb: int)
    requires
        pa.scale + pb.scale <= 2,
        pa.scale <= 2,
        pb.scale <= 2,
        va == sgn_mant(pa) * pow10((2 - pa.scale) as nat),
        vb == sgn_mant(pb) * pow10((2 - pb.scale) as nat),
    ensures
        va * vb == ((sgn_mant(pa) * sgn_mant(pb)) * pow10((2 - (pa.scale + pb.scale)) as nat))
            * 100,
{
    let sa = pa.scale as nat;
    let sb = pb.scale as nat;
    let fa = pow10((2 - sa) as nat) as int;
    let fb = pow10((2 - sb) as nat) as int;
    let fs = pow10((2 - (sa + sb)) as nat) as int;
    lemma_pow10_adds((2 - sa) as nat, (2 - sb) as nat);
    assert((2 - sa) + (2 - sb) == (2 - (sa + sb)) + 2);
    lemma_pow10_adds((2 - (sa + sb)) as nat, 2);
    assert(pow10(2) == 100) by {
        assert(pow10(0) == 1);
        assert(pow10(1) == 10);
    }
    assert(fa * fb == fs * 100);
    assert((sgn_mant(pa) * fa) * (sgn_mant(pb) * fb) == (sgn_mant(pa) * sgn_mant(pb)) * (fa * fb))
        by (nonlinear_arith);
    assert((sgn_mant(pa) * sgn_mant(pb)) * (fs * 100) == ((sgn_mant(pa) * sgn_mant(pb)) * fs)
        * 100) by (nonlinear_arith);
}

} // verus!
