//! Rendering of one three-digit group (`Triplet`) as Russian words, and
//! the three-way declension of the noun attached to a numeral.
//!
//! Digits travel as ASCII bytes throughout: 48 is the digit 0, 49 the
//! digit 1, and so on up to 57 for the digit 9.

use crate::digits::digits_ascii;
use crate::digits::group_count;
use crate::digits::group_digits;
use crate::digits::lemma_digits_are_ascii;
use crate::digits::lemma_padded_len;
use crate::digits::lemma_u128_digits_fit;
use crate::digits::pad_len;
use crate::digits::padded_digits;
use crate::digits::u128_padded_digits;
use vstd::prelude::*;
use vstd::string::StringExecFns;

verus! {

/// One group of three decimal digits at a power-of-1000 scale position.
///
/// `number` holds exactly three ASCII digits, most significant first,
/// zero-padded. `pos` is the scale position (0 = units group, 1 =
/// thousands, ...), supported up to 12. `feminie` selects the feminine
/// forms of "one" and "two" when the attached noun is feminine.
pub struct Triplet {
    pub number: [u8; 3],
    pub pos: usize,
    pub feminie: bool,
}

/// The view of the empty string literal is the empty character sequence.
pub proof fn lemma_empty_strlit()
    ensures
        ""@ == Seq::<char>::empty(),
{
    reveal_strlit("");
    assert(""@ =~= Seq::<char>::empty());
}

/// The Russian word for a hundreds digit; digit 0 yields no word.
pub open spec fn hundreds_word(d: u8) -> Seq<char> {
    if d == 49 {
        "сто"@
    } else if d == 50 {
        "двести"@
    } else if d == 51 {
        "триста"@
    } else if d == 52 {
        "четыреста"@
    } else if d == 53 {
        "пятьсот"@
    } else if d == 54 {
        "шестьсот"@
    } else if d == 55 {
        "семьсот"@
    } else if d == 56 {
        "восемьсот"@
    } else if d == 57 {
        "девятьсот"@
    } else {
        Seq::empty()
    }
}

/// The word for 10 plus a units digit (the teens are lexical units).
pub open spec fn teen_word(u: u8) -> Seq<char> {
    if u == 48 {
        "десять"@
    } else if u == 49 {
        "одиннадцать"@
    } else if u == 50 {
        "двенадцать"@
    } else if u == 51 {
        "тринадцать"@
    } else if u == 52 {
        "четырнадцать"@
    } else if u == 53 {
        "пятнадцать"@
    } else if u == 54 {
        "шестнадцать"@
    } else if u == 55 {
        "семнадцать"@
    } else if u == 56 {
        "восемнадцать"@
    } else if u == 57 {
        "девятнадцать"@
    } else {
        Seq::empty()
    }
}

/// The decade word for a tens digit of 2 to 9.
pub open spec fn tens_word(t: u8) -> Seq<char> {
    if t == 50 {
        "двадцать"@
    } else if t == 51 {
        "тридцать"@
    } else if t == 52 {
        "сорок"@
    } else if t == 53 {
        "пятьдесят"@
    } else if t == 54 {
        "шестдесят"@
    } else if t == 55 {
        "семьдесят"@
    } else if t == 56 {
        "восемьдесят"@
    } else if t == 57 {
        "девяносто"@
    } else {
        Seq::empty()
    }
}

/// The word for a units digit; 1 and 2 have feminine forms, 0 yields no
/// word.
pub open spec fn units_word(u: u8, fem: bool) -> Seq<char> {
    if u == 49 {
        if fem {
            "одна"@
        } else {
            "один"@
        }
    } else if u == 50 {
        if fem {
            "две"@
        } else {
            "два"@
        }
    } else if u == 51 {
        "три"@
    } else if u == 52 {
        "четыре"@
    } else if u == 53 {
        "пять"@
    } else if u == 54 {
        "шесть"@
    } else if u == 55 {
        "семь"@
    } else if u == 56 {
        "восемь"@
    } else if u == 57 {
        "девять"@
    } else {
        Seq::empty()
    }
}

/// The word for the tens-and-units pair: a teen word when the tens digit
/// is 1, else the decade word.
pub open spec fn tens_phrase(t: u8, u: u8) -> Seq<char> {
    if t == 49 {
        teen_word(u)
    } else {
        tens_word(t)
    }
}

/// Whether the units digit is already consumed by a teen word (11-19).
pub open spec fn units_consumed(t: u8, u: u8) -> bool {
    t == 49 && 49 <= u <= 57
}

/// Joins two word sequences with a single space, skipping empty sides.
pub open spec fn joined(a: Seq<char>, b: Seq<char>) -> Seq<char> {
    if a.len() == 0 {
        b
    } else if b.len() == 0 {
        a
    } else {
        a + " "@ + b
    }
}

/// Which of the three supplied noun forms a numeral ending in the given
/// tens and units digits selects: the teens always take the third
/// (genitive-plural) form; otherwise a trailing 1 takes the first
/// (nominative-singular) form, a trailing 2-4 the second (genitive-few)
/// form, and anything else the third form.
pub open spec fn form_index(t: u8, u: u8) -> int {
    if t == 49 {
        2
    } else if u == 49 {
        0
    } else if 50 <= u <= 52 {
        1
    } else {
        2
    }
}

/// The full digit phrase of a triplet with digits `d`, scale position
/// `pos` and feminine flag `fem`: hundreds word, tens or teen word, and
/// units word, joined by single spaces. The units word is feminine when
/// the triplet is feminine-agreed or stands at the thousands position
/// (the word for "thousand" is grammatically feminine).
pub open spec fn number_phrase(d: Seq<u8>, pos: int, fem: bool) -> Seq<char> {
    let h = hundreds_word(d[0]);
    let tn = tens_phrase(d[1], d[2]);
    let un = if units_consumed(d[1], d[2]) {
        Seq::<char>::empty()
    } else {
        units_word(d[2], fem || pos == 1)
    };
    joined(joined(h, tn), un)
}

/// The declined scale noun (thousand, million, ...) for a scale
/// position, in one of its three declension forms; position 0 carries no
/// scale noun of its own.
pub open spec fn scale_word(pos: int, form: int) -> Seq<char> {
    if pos == 1 {
        if form == 0 { "тысяча"@ } else if form == 1 { "тысячи"@ } else { "тысяч"@ }
    } else if pos == 2 {
        if form == 0 { "миллион"@ } else if form == 1 { "миллиона"@ } else { "миллионов"@ }
    } else if pos == 3 {
        if form == 0 { "миллиард"@ } else if form == 1 { "миллиарда"@ } else { "миллиардов"@ }
    } else if pos == 4 {
        if form == 0 { "триллион"@ } else if form == 1 { "триллиона"@ } else { "триллионов"@ }
    } else if pos == 5 {
        if form == 0 { "квадриллион"@ } else if form == 1 { "квадриллиона"@ } else { "квадриллионов"@ }
    } else if pos == 6 {
        if form == 0 { "квинтиллион"@ } else if form == 1 { "квинтиллиона"@ } else { "квинтиллионов"@ }
    } else if pos == 7 {
        if form == 0 { "секстиллион"@ } else if form == 1 { "секстиллиона"@ } else { "секстиллионов"@ }
    } else if pos == 8 {
        if form == 0 { "септиллион"@ } else if form == 1 { "септиллиона"@ } else { "септиллионов"@ }
    } else if pos == 9 {
        if form == 0 { "октиллион"@ } else if form == 1 { "октиллиона"@ } else { "октиллионов"@ }
    } else if pos == 10 {
        if form == 0 { "нониллион"@ } else if form == 1 { "нониллиона"@ } else { "нониллионов"@ }
    } else if pos == 11 {
        if form == 0 { "дециллион"@ } else if form == 1 { "дециллиона"@ } else { "дециллионов"@ }
    } else if pos == 12 {
        if form == 0 { "ундециллион"@ } else if form == 1 { "ундециллиона"@ } else { "ундециллионов"@ }
    } else {
        Seq::empty()
    }
}

/// The complete phrase of one triplet: its digit phrase followed by its
/// declined scale noun. A triplet whose digit phrase is empty yields
/// nothing at all, so that no stray scale noun is produced.
pub open spec fn triplet_phrase(d: Seq<u8>, pos: int, fem: bool) -> Seq<char> {
    let np = number_phrase(d, pos, fem);
    if np.len() == 0 || pos == 0 {
        np
    } else {
        np + " "@ + scale_word(pos, form_index(d[1], d[2]))
    }
}

/// The joined phrase of the triplets at positions `i` and above, most
/// significant first, empty renderings skipped.
pub open spec fn seq_phrase_from(ts: Seq<(Seq<u8>, int, bool)>, i: int) -> Seq<char>
    decreases ts.len() - i,
{
    if i < 0 || i >= ts.len() {
        Seq::empty()
    } else {
        joined(seq_phrase_from(ts, i + 1), triplet_phrase(ts[i].0, ts[i].1, ts[i].2))
    }
}

/// The joined phrase of a whole triplet sequence, most significant
/// group first.
pub open spec fn seq_phrase(ts: Seq<(Seq<u8>, int, bool)>) -> Seq<char> {
    seq_phrase_from(ts, 0)
}

/// The view of a triplet: its digits, scale position and feminine flag.
pub open spec fn triplet_view(t: Triplet) -> (Seq<u8>, int, bool) {
    (t.number@, t.pos as int, t.feminie)
}

/// Appends a word to a phrase, separating with a single space when both
/// sides are non-empty.
pub fn join_word(s: &mut String, w: &str)
    ensures
        final(s)@ == joined(old(s)@, w@),
{
    if w.is_empty() {
    } else if s.as_str().is_empty() {
        s.append(w);
        proof {
            assert(old(s)@ + w@ =~= w@);
        }
    } else {
        s.append(" ");
        s.append(w);
    }
}

impl Triplet {
    pub fn new(number: [u8; 3], pos: usize) -> (r: Triplet)
        ensures
            r.number == number,
            r.pos == pos,
            !r.feminie,
    {
        Triplet { number, pos, feminie: false }
    }

    /// A copy of this triplet with the feminine flag set.
    pub fn into_feminie(&self) -> (r: Triplet)
        ensures
            r.number == self.number,
            r.pos == self.pos,
            r.feminie,
    {
        Triplet { feminie: true, number: self.number, pos: self.pos }
    }

    /// The word for the hundreds digit.
    pub fn pronounce_hundreeds(&self) -> (r: &'static str)
        ensures
            r@ == hundreds_word(self.number@[0]),
    {
        proof {
            lemma_empty_strlit();
        }
        match self.number[0] {
            49 => "сто",
            50 => "двести",
            51 => "триста",
            52 => "четыреста",
            53 => "пятьсот",
            54 => "шестьсот",
            55 => "семьсот",
            56 => "восемьсот",
            57 => "девятьсот",
            _ => "",
        }
    }

    /// The teen or decade word for the tens-and-units digits. The second
    /// component tells whether the units digit was consumed by a teen
    /// word, so that no separate units word follows.
    pub fn pronounce_tens(&self) -> (r: (&'static str, bool))
        ensures
            r.0@ == tens_phrase(self.number@[1], self.number@[2]),
            r.1 == units_consumed(self.number@[1], self.number@[2]),
    {
        proof {
            lemma_empty_strlit();
        }
        match self.number[1] {
            49 => match self.number[2] {
                49 => ("одиннадцать", true),
                50 => ("двенадцать", true),
                51 => ("тринадцать", true),
                52 => ("четырнадцать", true),
                53 => ("пятнадцать", true),
                54 => ("шестнадцать", true),
                55 => ("семнадцать", true),
                56 => ("восемнадцать", true),
                57 => ("девятнадцать", true),
                48 => ("десять", false),
                _ => ("", false),
            },
            50 => ("двадцать", false),
            51 => ("тридцать", false),
            52 => ("сорок", false),
            53 => ("пятьдесят", false),
            54 => ("шестдесят", false),
            55 => ("семьдесят", false),
            56 => ("восемьдесят", false),
            57 => ("девяносто", false),
            _ => ("", false),
        }
    }

    /// The word for the units digit, in the feminine form when this
    /// triplet is feminine-agreed.
    pub fn pronounce_units(&self) -> (r: &'static str)
        ensures
            r@ == units_word(self.number@[2], self.feminie),
    {
        proof {
            lemma_empty_strlit();
        }
        match self.number[2] {
            49 => if self.feminie {
                "одна"
            } else {
                "один"
            },
            50 => if self.feminie {
                "две"
            } else {
                "два"
            },
            51 => "три",
            52 => "четыре",
            53 => "пять",
            54 => "шесть",
            55 => "семь",
            56 => "восемь",
            57 => "девять",
            _ => "",
        }
    }

    /// The digit phrase of this triplet, without any scale noun.
    pub fn number_pronounce(&self) -> (r: String)
        ensures
            r@ == number_phrase(self.number@, self.pos as int, self.feminie),
    {
        let mut s = String::new();
        join_word(&mut s, self.pronounce_hundreeds());
        let (tens, units_processed) = self.pronounce_tens();
        join_word(&mut s, tens);
        if !units_processed {
            if self.pos == 1 {
                join_word(&mut s, self.into_feminie().pronounce_units());
            } else {
                join_word(&mut s, self.pronounce_units());
            }
        }
        s
    }

    /// Picks the declension of an externally supplied noun that agrees
    /// with this triplet's trailing two digits: `pronounces` holds the
    /// nominative-singular, genitive-few and genitive-many forms.
    pub fn triplet_pronounce<'a>(&self, pronounces: [&'a str; 3]) -> (r: &'a str)
        ensures
            r@ == pronounces@[form_index(self.number@[1], self.number@[2])]@,
    {
        if self.number[1] == 49 {
            pronounces[2]
        } else if self.number[2] == 49 {
            pronounces[0]
        } else if 50 <= self.number[2] && self.number[2] <= 52 {
            pronounces[1]
        } else {
            pronounces[2]
        }
    }

    /// The complete phrase of this triplet: digit phrase plus declined
    /// scale noun, or nothing when the digit phrase is empty.
    pub fn pronounce(&self) -> (r: String)
        requires
            self.pos <= 12,
        ensures
            r@ == triplet_phrase(self.number@, self.pos as int, self.feminie),
    {
        let mut pronounced = self.number_pronounce();
        if !pronounced.as_str().is_empty() && self.pos != 0 {
            let w = self.triplet_pronounce(scale_noun_forms(self.pos));
            pronounced.append(" ");
            pronounced.append(w);
        }
        pronounced
    }
}

/// The three declension forms of the scale noun at a position.
fn scale_noun_forms(pos: usize) -> (r: [&'static str; 3])
    requires
        1 <= pos <= 12,
    ensures
        forall|f: int| 0 <= f < 3 ==> (#[trigger] r@[f])@ == scale_word(pos as int, f),
{
    match pos {
        1 => ["тысяча", "тысячи", "тысяч"],
        2 => ["миллион", "миллиона", "миллионов"],
        3 => ["миллиард", "миллиарда", "миллиардов"],
        4 => ["триллион", "триллиона", "триллионов"],
        5 => ["квадриллион", "квадриллиона", "квадриллионов"],
        6 => ["квинтиллион", "квинтиллиона", "квинтиллионов"],
        7 => ["секстиллион", "секстиллиона", "секстиллионов"],
        8 => ["септиллион", "септиллиона", "септиллионов"],
        9 => ["октиллион", "октиллиона", "октиллионов"],
        10 => ["нониллион", "нониллиона", "нониллионов"],
        11 => ["дециллион", "дециллиона", "дециллионов"],
        _ => ["ундециллион", "ундециллиона", "ундециллионов"],
    }
}

/// Renders a triplet sequence from the most significant group down to
/// the units group, joining the non-empty renderings with single spaces.
pub fn pronounce_triplets(triplets: &Vec<Triplet>) -> (r: String)
    requires
        forall|i: int| 0 <= i < triplets@.len() ==> (#[trigger] triplets@[i]).pos <= 12,
    ensures
        r@ == seq_phrase(triplets@.map_values(|t: Triplet| triplet_view(t))),
{
    let ghost views = triplets@.map_values(|t: Triplet| triplet_view(t));
    let mut result = String::new();
    let mut i: usize = triplets.len();
    while i > 0
        invariant
            i <= triplets@.len(),
            views == triplets@.map_values(|t: Triplet| triplet_view(t)),
            forall|j: int| 0 <= j < triplets@.len() ==> (#[trigger] triplets@[j]).pos <= 12,
            result@ == seq_phrase_from(views, i as int),
        decreases i,
    {
        i = i - 1;
        let p = triplets[i].pronounce();
        join_word(&mut result, p.as_str());
    }
    result
}

/// The capability of decomposing into an ordered triplet sequence and of
/// rendering the full pronounced phrase built from it.
pub trait NumberPronouce {
    /// The triplet views (digits, scale position, feminine flag) of this
    /// value, indexed by ascending scale position.
    spec fn spec_triplets(&self) -> Seq<(Seq<u8>, int, bool)>;

    /// The full pronounced phrase of this value.
    spec fn spec_pronounce(&self) -> Seq<char>;

    /// Decomposes this value into its ordered triplet sequence,
    /// position 0 (the units group) first.
    fn into_triplets(&self) -> (r: Vec<Triplet>)
        ensures
            r@.map_values(|t: Triplet| triplet_view(t)) == self.spec_triplets(),
            forall|i: int| 0 <= i < r@.len() ==> (#[trigger] r@[i]).pos <= 12,
    ;

    /// Renders the full phrase of this value.
    fn pronounce(&self) -> (r: String)
        ensures
            r@ == self.spec_pronounce(),
    ;
}

/// Splits a magnitude into its ordered triplets: position 0 (the units
/// group) first. When `feminine_units` is set, the units group is
/// feminine-agreed, as grammatical gender of the attached noun demands.
pub fn magnitude_triplets(n: u128, feminine_units: bool) -> (r: Vec<Triplet>)
    ensures
        r@.len() == group_count(n as nat),
        1 <= r@.len() <= 13,
        forall|p: int|
            0 <= p < r@.len() ==> (#[trigger] r@[p]).number@ == group_digits(n as nat, p as nat),
        forall|p: int| 0 <= p < r@.len() ==> (#[trigger] r@[p]).pos == p,
        forall|p: int|
            0 <= p < r@.len() ==> (#[trigger] r@[p]).feminie == (p == 0 && feminine_units),
{
    proof {
        lemma_u128_digits_fit(n as nat);
        lemma_padded_len(n as nat);
    }
    let padded = u128_padded_digits(n);
    let total: usize = padded.len() / 3;
    let mut r: Vec<Triplet> = Vec::new();
    let mut p: usize = 0;
    while p < total
        invariant
            padded@ == padded_digits(n as nat),
            3 * total == padded@.len(),
            total == group_count(n as nat),
            1 <= total <= 13,
            p <= total,
            r@.len() == p,
            forall|q: int|
                0 <= q < p ==> (#[trigger] r@[q]).number@ == group_digits(n as nat, q as nat),
            forall|q: int| 0 <= q < p ==> (#[trigger] r@[q]).pos == q,
            forall|q: int|
                0 <= q < p ==> (#[trigger] r@[q]).feminie == (q == 0 && feminine_units),
        decreases total - p,
    {
        let base: usize = padded.len() - 3 * p;
        let tri: [u8; 3] = [padded[base - 3], padded[base - 2], padded[base - 1]];
        proof {
            assert(tri@ =~= group_digits(n as nat, p as nat));
        }
        let t = Triplet::new(tri, p);
        if p == 0 && feminine_units {
            r.push(t.into_feminie());
        } else {
            r.push(t);
        }
        p = p + 1;
    }
    r
}

/// The last digit of the canonical representation is the last decimal
/// digit of the value.
proof fn lemma_digits_last(m: nat)
    ensures
        digits_ascii(m).last() == (48 + m % 10) as u8,
{
    lemma_digits_are_ascii(m);
}

/// The units group of a magnitude ends with the ASCII forms of the
/// value's tens and units digits.
pub proof fn lemma_units_group_digits(n: nat)
    ensures
        group_digits(n, 0).len() == 3,
        group_digits(n, 0)[1] == (48 + (n / 10) % 10) as u8,
        group_digits(n, 0)[2] == (48 + n % 10) as u8,
{
    lemma_padded_len(n);
    lemma_digits_are_ascii(n);
    lemma_digits_last(n);
    let l = padded_digits(n).len() as int;
    assert(group_digits(n, 0) =~= padded_digits(n).subrange(l - 3, l));
    assert(padded_digits(n)[l - 1] == digits_ascii(n).last());
    if n < 10 {
        assert(pad_len(n) == 2);
        assert(padded_digits(n)[l - 2] == 48);
        assert((n / 10) % 10 == 0);
    } else {
        assert(digits_ascii(n) == digits_ascii(n / 10) + seq![(n % 10 + 48) as u8]);
        lemma_digits_last(n / 10);
        let dlen = digits_ascii(n).len() as int;
        assert(digits_ascii(n)[dlen - 2] == digits_ascii(n / 10).last());
        assert(padded_digits(n)[l - 2] == digits_ascii(n)[dlen - 2]);
    }
}

/// The noun form a numeral value selects, by its trailing two decimal
/// digits.
pub open spec fn declension_form(n: nat) -> int {
    form_index((48 + (n / 10) % 10) as u8, (48 + n % 10) as u8)
}

/// Teen exception: a value whose last two digits lie in 10 to 19 always
/// selects the genitive-plural (third) noun form, whatever its trailing
/// digit.
pub proof fn lemma_teen_exception(n: nat)
    requires
        10 <= n % 100 <= 19,
    ensures
        declension_form(n) == 2,
{
    lemma_mod_100_breakdown(n);
}

/// Trailing-digit declension: a trailing 1 outside the teens selects the
/// first form, a trailing 2-4 outside the teens the second form, and
/// every other value the third form.
pub proof fn lemma_trailing_digit_declension(n: nat)
    ensures
        n % 10 == 1 && n % 100 != 11 ==> declension_form(n) == 0,
        2 <= n % 10 <= 4 && !(12 <= n % 100 <= 14) ==> declension_form(n) == 1,
        !(n % 10 == 1 && n % 100 != 11) && !(2 <= n % 10 <= 4 && !(12 <= n % 100 <= 14))
            ==> declension_form(n) == 2,
{
    lemma_mod_100_breakdown(n);
}

/// The last two decimal digits of a value are its remainder modulo 100.
proof fn lemma_mod_100_breakdown(n: nat)
    ensures
        n % 100 == 10 * ((n / 10) % 10) + n % 10,
        0 <= (n / 10) % 10 <= 9,
        0 <= n % 10 <= 9,
{
    assert(n % 100 == 10 * ((n / 10) % 10) + n % 10) by (nonlinear_arith);
}

} // verus!
