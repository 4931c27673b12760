use vstd::prelude::*;

use crate::decimal::{
    abs, below_one, exceeds_one, gt_one, lemma_pow10_monotone, lemma_pow10_positive, lt_one, pow10,
    Decimal,
};
use crate::scale::SIScale;

verus! {

/// The physical quantities a value can measure.
#[derive(Clone, Copy, Debug, PartialEq, Eq, Structural)]
pub enum SIUnit {
    Farad,
    Second,
    Ohm,
    Metre,
}

impl SIUnit {
    /// The unit's display symbol.
    pub open spec fn symbol_spec(self) -> Seq<char> {
        match self {
            SIUnit::Farad => seq!['F'],
            SIUnit::Second => seq!['s'],
            SIUnit::Ohm => seq!['o'],
            SIUnit::Metre => seq!['m'],
        }
    }

    /// The unit a symbol character names, if any.
    pub open spec fn of_symbol(c: char) -> Option<SIUnit> {
        if c == 'f' || c == 'F' {
            Some(SIUnit::Farad)
        } else if c == 'o' {
            Some(SIUnit::Ohm)
        } else if c == 's' || c == 'S' {
            Some(SIUnit::Second)
        } else {
            None
        }
    }

    pub fn symbol(self) -> (r: &'static str)
        ensures
            r@ == self.symbol_spec(),
    {
        match self {
            SIUnit::Farad => {
                proof {
                    reveal_strlit("F");
                }
                "F"
            },
            SIUnit::Second => {
                proof {
                    reveal_strlit("s");
                }
                "s"
            },
            SIUnit::Ohm => {
                proof {
                    reveal_strlit("o");
                }
                "o"
            },
            SIUnit::Metre => {
                proof {
                    reveal_strlit("m");
                }
                "m"
            },
        }
    }

    /// Reads a unit from the last character of `s`; an unknown one is handed back.
    pub fn from_str(s: &str) -> (r: Result<SIUnit, char>)
        requires
            s@.len() > 0,
        ensures
            r == match SIUnit::of_symbol(s@.last()) {
                Some(u) => Ok(u),
                None => Err(s@.last()),
            },
    {
        let n = s.unicode_len();
        let c = s.get_char(n - 1);
        if c == 'f' || c == 'F' {
            Ok(SIUnit::Farad)
        } else if c == 'o' {
            Ok(SIUnit::Ohm)
        } else if c == 's' || c == 'S' {
            Ok(SIUnit::Second)
        } else {
            Err(c)
        }
    }
}

/// Why a text could not be read as a quantity.
#[derive(Clone, Copy, Debug, PartialEq, Eq, Structural)]
pub enum ParseError {
    /// The leading run of digits and dots is not a decimal number.
    Malformed,
}

/// A physical value: `val` read at `scale`, of kind `unit`.
#[derive(Clone, Copy, Debug, PartialEq, Eq, Structural)]
pub struct SINumber {
    pub scale: SIScale,
    pub unit: SIUnit,
    pub val: Decimal,
}

/// Whether `|display value| > 1000` for `v` shown at `s`.
pub open spec fn too_big(v: Decimal, s: SIScale) -> bool {
    gt_one(v.mantissa as int, v.exponent + 3 * s.level() - 3)
}

/// Whether `0 < |display value| < 1` for `v` shown at `s`.
pub open spec fn too_small(v: Decimal, s: SIScale) -> bool {
    v.mantissa != 0 && lt_one(v.mantissa as int, v.exponent + 3 * s.level())
}

/// Steps toward `Unit` while the display value is above 1000.
pub open spec fn walk_up(v: Decimal, s: SIScale) -> SIScale
    decreases s.level(),
{
    if s != SIScale::Unit && too_big(v, s) {
        walk_up(v, s.up())
    } else {
        s
    }
}

/// Steps toward `Femto` while the display value is below 1.
pub open spec fn walk_down(v: Decimal, s: SIScale) -> SIScale
    decreases 5 - s.level(),
{
    if s != SIScale::Femto && too_small(v, s) {
        walk_down(v, s.down())
    } else {
        s
    }
}

/// The scale that normalization settles on for `v`, starting at `s`.
pub open spec fn settled(v: Decimal, s: SIScale) -> SIScale {
    if too_big(v, s) {
        walk_up(v, s)
    } else if too_small(v, s) {
        walk_down(v, s)
    } else {
        s
    }
}

/// A number's display value is never both above 1000 at one scale and below 1
/// at the next finer one.
proof fn lemma_not_both(v: Decimal, s: SIScale)
    requires
        s != SIScale::Unit,
    ensures
        !(too_big(v, s) && too_small(v, s.up())),
        !(too_big(v, s.down()) && too_small(v, s)) || s == SIScale::Femto,
{
}

proof fn lemma_walk_up(v: Decimal, s: SIScale)
    ensures
        walk_up(v, s) == SIScale::Unit || !too_big(v, walk_up(v, s)),
        walk_up(v, s) == s || too_big(v, walk_up(v, s).down()),
        walk_up(v, s) == s || walk_up(v, s) != SIScale::Femto,
    decreases s.level(),
{
    if s != SIScale::Unit && too_big(v, s) {
        lemma_walk_up(v, s.up());
    }
}

proof fn lemma_walk_down(v: Decimal, s: SIScale)
    ensures
        walk_down(v, s) == SIScale::Femto || !too_small(v, walk_down(v, s)),
        walk_down(v, s) == s || too_small(v, walk_down(v, s).up()),
        walk_down(v, s) == s || walk_down(v, s) != SIScale::Unit,
    decreases 5 - s.level(),
{
    if s != SIScale::Femto && too_small(v, s) {
        lemma_walk_down(v, s.down());
    }
}

/// Normalizing twice gives what normalizing once gives: a settled scale is a
/// fixed point of the walk.
pub proof fn lemma_settled_idempotent(v: Decimal, s: SIScale)
    ensures
        settled(v, settled(v, s)) == settled(v, s),
{
    let r = settled(v, s);
    if too_big(v, s) {
        lemma_walk_up(v, s);
        if r != s {
            lemma_not_both(v, r.down());
        }
    } else if too_small(v, s) {
        lemma_walk_down(v, s);
        if r != s {
            lemma_not_both(v, r);
        }
    }
}

/// Normalizing an already normalized quantity changes nothing.
pub proof fn lemma_adjust_idempotent(q: SINumber)
    ensures
        q.adjusted().adjusted() == q.adjusted(),
{
    lemma_settled_idempotent(q.val, q.scale);
}

proof fn lemma_gt_one_grows(m: int, d: int)
    ensures
        gt_one(m, d) ==> gt_one(m, d + 3),
        lt_one(m, d + 3) ==> lt_one(m, d),
{
    lemma_pow10_positive(0);
    if d >= 0 {
        let p = pow10(d as nat);
        let q = pow10((d + 3) as nat);
        lemma_pow10_monotone(d as nat, (d + 3) as nat);
        lemma_pow10_positive(d as nat);
        assert(abs(m) * q >= abs(m) * p) by (nonlinear_arith)
            requires q >= p, abs(m) >= 0;
        if abs(m) >= 1 {
            assert(abs(m) * p >= 1) by (nonlinear_arith)
                requires abs(m) >= 1, p >= 1;
        }
    } else if d + 3 >= 0 {
        let q = pow10((d + 3) as nat);
        lemma_pow10_positive((d + 3) as nat);
        lemma_pow10_positive((-d) as nat);
        if abs(m) >= 1 {
            assert(abs(m) * q >= abs(m)) by (nonlinear_arith)
                requires abs(m) >= 1, q >= 1;
        }
    } else {
        lemma_pow10_monotone((-d - 3) as nat, (-d) as nat);
    }
}

proof fn lemma_big_spreads(v: Decimal, s: SIScale, t: SIScale)
    requires
        too_big(v, s),
        s.level() <= t.level(),
    ensures
        too_big(v, t),
    decreases t.level() - s.level(),
{
    if s.level() < t.level() {
        lemma_gt_one_grows(v.mantissa as int, v.exponent + 3 * s.level() - 3);
        lemma_big_spreads(v, s.down(), t);
    }
}

proof fn lemma_small_spreads(v: Decimal, s: SIScale, t: SIScale)
    requires
        too_small(v, s),
        t.level() <= s.level(),
    ensures
        too_small(v, t),
    decreases s.level() - t.level(),
{
    if t.level() < s.level() {
        lemma_gt_one_grows(v.mantissa as int, v.exponent + 3 * s.level() - 3);
        lemma_small_spreads(v, s.up(), t);
    }
}

/// Whenever some scale shows `v` neither above 1000 nor strictly between 0
/// and 1, normalization ends on such a scale, from whatever scale it starts.
pub proof fn lemma_settles_in_range(v: Decimal, s: SIScale, t: SIScale)
    requires
        !too_big(v, t),
        !too_small(v, t),
    ensures
        !too_big(v, settled(v, s)),
        !too_small(v, settled(v, s)),
{
    let r = settled(v, s);
    if too_big(v, s) {
        lemma_walk_up(v, s);
        if too_big(v, r) {
            lemma_big_spreads(v, r, t);
        }
        if r != s {
            lemma_not_both(v, r.down());
        }
    } else if too_small(v, s) {
        lemma_walk_down(v, s);
        if too_small(v, r) {
            lemma_small_spreads(v, r, t);
        }
        if r != s {
            lemma_not_both(v, r);
        }
    }
}

/// A digit or a decimal point.
pub open spec fn is_num_char(c: char) -> bool {
    ('0' <= c && c <= '9') || c == '.'
}

/// The leading run of digits and decimal points of `s`.
pub open spec fn numeric_run(s: Seq<char>) -> Seq<char>
    decreases s.len(),
{
    if s.len() == 0 || !is_num_char(s[0]) {
        seq![]
    } else {
        seq![s[0]] + numeric_run(s.drop_first())
    }
}

/// How many decimal points `r` holds.
pub open spec fn dot_count(r: Seq<char>) -> nat
    decreases r.len(),
{
    if r.len() == 0 {
        0
    } else {
        dot_count(r.drop_last()) + if r.last() == '.' { 1nat } else { 0nat }
    }
}

/// The value of a digit character.
pub open spec fn digit_of(c: char) -> nat {
    ((c as u32) - ('0' as u32)) as nat
}

/// Reading `r` left to right: the leading digits kept so far as one integer,
/// the power of ten that places them, and whether a digit has been dropped.
/// Digits are kept while that integer fits an `i64`; from the first that does
/// not, every later digit is dropped, and each one dropped before the decimal
/// point raises the exponent by one.
pub open spec fn kept(r: Seq<char>) -> (nat, int, bool)
    decreases r.len(),
{
    if r.len() == 0 {
        (0, 0, false)
    } else {
        let p = kept(r.drop_last());
        let c = r.last();
        let after_point = dot_count(r.drop_last()) > 0;
        if c == '.' {
            p
        } else if p.2 || p.0 * 10 + digit_of(c) > i64::MAX {
            (p.0, if after_point { p.1 } else { p.1 + 1 }, true)
        } else {
            (p.0 * 10 + digit_of(c), if after_point { p.1 - 1 } else { p.1 }, false)
        }
    }
}

/// The digits of `r`, decimal points skipped, read as one integer.
pub open spec fn digit_value(r: Seq<char>) -> nat
    decreases r.len(),
{
    if r.len() == 0 {
        0
    } else if r.last() == '.' {
        digit_value(r.drop_last())
    } else {
        digit_value(r.drop_last()) * 10 + digit_of(r.last())
    }
}

/// How many characters of `r` follow its first decimal point.
pub open spec fn fraction_len(r: Seq<char>) -> nat
    decreases r.len(),
{
    if r.len() == 0 {
        0
    } else if dot_count(r.drop_last()) > 0 {
        fraction_len(r.drop_last()) + 1
    } else {
        0
    }
}

/// A run that reads as a decimal number: at most one point, at least one digit.
pub open spec fn well_formed(r: Seq<char>) -> bool {
    dot_count(r) <= 1 && dot_count(r) < r.len()
}

/// The value a well-formed run reads as.
pub open spec fn run_value(r: Seq<char>) -> Decimal {
    Decimal { mantissa: kept(r).0 as i64, exponent: kept(r).1 as i64 }
}

/// A numeral whose digits fit an `i64` is read exactly: all its digits, placed
/// by the number of digits after the point.
pub proof fn lemma_short_run_exact(r: Seq<char>)
    requires
        dot_count(r) <= 1,
        digit_value(r) <= i64::MAX,
    ensures
        kept(r) == (digit_value(r), -(fraction_len(r) as int), false),
    decreases r.len(),
{
    if r.len() > 0 {
        let q = r.drop_last();
        assert(digit_value(q) <= digit_value(r));
        lemma_short_run_exact(q);
    }
}

pub uninterp spec fn alphabetic(c: char) -> bool;

/// The alphabetic characters of `s`, in order.
pub open spec fn letters(s: Seq<char>) -> Seq<char>
    decreases s.len(),
{
    if s.len() == 0 {
        seq![]
    } else if alphabetic(s.last()) {
        letters(s.drop_last()).push(s.last())
    } else {
        letters(s.drop_last())
    }
}

/// The scale named by the letters `found` of a text that ends in a letter or
/// not: no final letter means `Unit`; a lone `m` on a length is the metre;
/// otherwise the first letter, read leniently.
pub open spec fn scale_for(found: Seq<char>, ends_in_letter: bool, unit: SIUnit) -> SIScale {
    if !ends_in_letter || found.len() == 0 {
        SIScale::Unit
    } else if unit == SIUnit::Metre && found == seq!['m'] {
        SIScale::Unit
    } else {
        SIScale::from_char_spec(found[0])
    }
}

/// The scale that a text names through its letters.
pub open spec fn parsed_scale(s: Seq<char>, unit: SIUnit) -> SIScale {
    scale_for(letters(s), s.len() > 0 && alphabetic(s.last()), unit)
}

/// What reading `s` as a quantity of kind `unit` gives.
pub open spec fn parse_spec(s: Seq<char>, unit: SIUnit) -> Result<SINumber, ParseError> {
    let r = numeric_run(s);
    if !well_formed(r) {
        Err(ParseError::Malformed)
    } else {
        Ok(SINumber { scale: parsed_scale(s, unit), unit, val: run_value(r) })
    }
}

/// A text that reads as a number and ends in letters whose first is no scale
/// tag reads at `Unit`: an unknown tag is no error.
pub proof fn lemma_unknown_tag_is_unit(s: Seq<char>, unit: SIUnit)
    requires
        well_formed(numeric_run(s)),
        s.len() > 0,
        alphabetic(s.last()),
        SIScale::of_tag(letters(s)[0]) is None,
    ensures
        parse_spec(s, unit) is Ok,
        parse_spec(s, unit)->Ok_0.scale == SIScale::Unit,
{
}

/// Relies on char::is_alphabetic: whether `c` has Unicode's Alphabetic property.
#[verifier::external_body]
fn is_alphabetic(c: char) -> (r: bool)
    ensures
        r == alphabetic(c),
        ('a' <= c && c <= 'z') || ('A' <= c && c <= 'Z') ==> r,
        ('0' <= c && c <= '9') || c == '.' ==> !r,
{
    c.is_alphabetic()
}

proof fn lemma_numeric_run(s: Seq<char>, k: nat)
    requires
        k <= s.len(),
        forall|j: int| 0 <= j < k ==> is_num_char(#[trigger] s[j]),
        k == s.len() || !is_num_char(s[k as int]),
    ensures
        numeric_run(s) == s.subrange(0, k as int),
    decreases k,
{
    if k == 0 {
        assert(s.subrange(0, 0) =~= seq![]);
    } else {
        let t = s.drop_first();
        assert forall|j: int| 0 <= j < k - 1 implies is_num_char(#[trigger] t[j]) by {
            assert(t[j] == s[j + 1]);
        }
        lemma_numeric_run(t, (k - 1) as nat);
        assert(s.subrange(0, k as int) =~= seq![s[0]] + t.subrange(0, k - 1));
    }
}

fn is_num(c: char) -> (r: bool)
    ensures
        r == is_num_char(c),
{
    ('0' <= c && c <= '9') || c == '.'
}

fn step_exponent(s: SIScale) -> (r: i128)
    ensures
        r == 3 * s.level(),
{
    match s {
        SIScale::Unit => 0,
        SIScale::Milli => 3,
        SIScale::Micro => 6,
        SIScale::Nano => 9,
        SIScale::Pico => 12,
        SIScale::Femto => 15,
    }
}

fn is_too_big(v: Decimal, s: SIScale) -> (r: bool)
    ensures
        r == too_big(v, s),
{
    exceeds_one(v.mantissa, v.exponent as i128 + step_exponent(s) - 3)
}

fn is_too_small(v: Decimal, s: SIScale) -> (r: bool)
    ensures
        r == too_small(v, s),
{
    v.mantissa != 0 && below_one(v.mantissa, v.exponent as i128 + step_exponent(s))
}

impl SINumber {
    /// The value shown at this quantity's scale: `val * inverse_factor`.
    pub open spec fn display_spec(self) -> Decimal {
        self.val.times(self.scale.inverse_factor())
    }

    /// The quantity after normalization.
    pub open spec fn adjusted(self) -> SINumber {
        SINumber { scale: settled(self.val, self.scale), ..self }
    }

    pub fn new(val: Decimal, scale: SIScale, unit: SIUnit) -> (r: SINumber)
        ensures
            r == (SINumber { scale, unit, val }),
    {
        SINumber { scale, unit, val }
    }

    /// Moves the scale, one step at a time, toward the one at which the
    /// display value lies in `[1, 1000]`, stopping at `Unit` or `Femto`.
    /// Zero keeps its scale.
    pub fn adjust_scale(&mut self)
        ensures
            *final(self) == old(self).adjusted(),
    {
        let v = self.val;
        let ghost start = self.scale;
        if is_too_big(v, self.scale) {
            while self.scale != SIScale::Unit && is_too_big(v, self.scale)
                invariant
                    self.val == v,
                    self.unit == old(self).unit,
                    walk_up(v, self.scale) == walk_up(v, start),
                decreases self.scale.level(),
            {
                self.scale = self.scale.shift_up();
            }
        } else if is_too_small(v, self.scale) {
            while self.scale != SIScale::Femto && is_too_small(v, self.scale)
                invariant
                    self.val == v,
                    self.unit == old(self).unit,
                    walk_down(v, self.scale) == walk_down(v, start),
                decreases 5 - self.scale.level(),
            {
                self.scale = self.scale.shift_down();
            }
        }
    }

    /// A normalized copy; `self` is left as it is.
    pub fn normalized(&self) -> (r: SINumber)
        ensures
            r == self.adjusted(),
            r.val == self.val,
            r.unit == self.unit,
    {
        let mut q = *self;
        q.adjust_scale();
        q
    }

    /// Reads a quantity of kind `unit` from text such as `"1.25mF"`: a leading
    /// run of digits and one decimal point, then letters whose first names the
    /// scale. No letters at the end, or an unknown first letter, mean `Unit`; for
    /// lengths a lone `m` is the metre, not milli.
    pub fn from_str(s: &str, unit: SIUnit) -> (r: Result<SINumber, ParseError>)
        requires
            s@.len() <= i64::MAX,
        ensures
            r == parse_spec(s@, unit),
    {
        let n = s.unicode_len();
        let mut k: usize = 0;
        while k < n && is_num(s.get_char(k))
            invariant
                k <= n,
                n == s@.len(),
                forall|j: int| 0 <= j < k ==> is_num_char(#[trigger] s@[j]),
            decreases n - k,
        {
            k = k + 1;
        }
        proof {
            lemma_numeric_run(s@, k as nat);
        }
        let ghost run = s@.subrange(0, k as int);
        let mut j: usize = 0;
        let mut dots: usize = 0;
        let mut exp: i64 = 0;
        let mut acc: i64 = 0;
        let mut full: bool = false;
        while j < k
            invariant
                j <= k <= n,
                n == s@.len(),
                n <= i64::MAX,
                run == s@.subrange(0, k as int),
                forall|i: int| 0 <= i < k ==> is_num_char(#[trigger] s@[i]),
                dots == dot_count(run.subrange(0, j as int)),
                dots <= j,
                kept(run.subrange(0, j as int)) == (acc as nat, exp as int, full),
                acc >= 0,
                -(j as int) <= exp <= j,
            decreases k - j,
        {
            let c = s.get_char(j);
            let ghost before = run.subrange(0, j as int);
            let ghost after = run.subrange(0, j + 1);
            proof {
                assert(after.drop_last() =~= before);
                assert(after.last() == c);
                assert(is_num_char(s@[j as int]));
            }
            if c == '.' {
                dots = dots + 1;
            } else {
                let d: i64 = (c as u32 - '0' as u32) as i64;
                if full || acc > (i64::MAX - d) / 10 {
                    full = true;
                    if dots == 0 {
                        exp = exp + 1;
                    }
                } else {
                    acc = acc * 10 + d;
                    if dots > 0 {
                        exp = exp - 1;
                    }
                }
            }
            j = j + 1;
        }
        assert(run.subrange(0, k as int) =~= run);
        if dots > 1 || dots >= k {
            return Err(ParseError::Malformed);
        }
        let val = Decimal::new(acc, exp);
        let scale = SINumber::scale_of(s, unit);
        Ok(SINumber { scale, unit, val })
    }

    fn scale_of(s: &str, unit: SIUnit) -> (r: SIScale)
        ensures
            r == parsed_scale(s@, unit),
    {
        let n = s.unicode_len();
        let mut found: Vec<char> = Vec::new();
        let mut i: usize = 0;
        while i < n
            invariant
                i <= n,
                n == s@.len(),
                found@ == letters(s@.subrange(0, i as int)),
            decreases n - i,
        {
            let c = s.get_char(i);
            proof {
                assert(s@.subrange(0, i + 1).drop_last() =~= s@.subrange(0, i as int));
            }
            if is_alphabetic(c) {
                found.push(c);
            }
            i = i + 1;
        }
        assert(s@.subrange(0, n as int) =~= s@);
        let ends_in_letter = n > 0 && is_alphabetic(s.get_char(n - 1));
        SINumber::scale_from_letters(&found, ends_in_letter, unit)
    }

    /// The scale named by the letters of a text, given whether the text ends
    /// in a letter.
    pub fn scale_from_letters(found: &Vec<char>, ends_in_letter: bool, unit: SIUnit) -> (r: SIScale)
        ensures
            r == scale_for(found@, ends_in_letter, unit),
    {
        if !ends_in_letter || found.len() == 0 {
            return SIScale::Unit;
        }
        if unit == SIUnit::Metre && found.len() == 1 && found[0] == 'm' {
            assert(found@ =~= seq!['m']);
            return SIScale::Unit;
        }
        assert(found@.len() != 1 || found@[0] != 'm' ==> found@ != seq!['m']);
        SIScale::from_char(found[0])
    }

    /// The value shown at this quantity's scale.
    pub fn display_value(&self) -> (r: Decimal)
        requires
            self.val.exponent + 3 * self.scale.level() <= i64::MAX,
        ensures
            r == self.display_spec(),
    {
        self.scale.div(self.val)
    }

    /// The quantity's base-unit value times `rhs`.
    pub fn mul(self, rhs: Decimal) -> (r: Decimal)
        requires
            self.val.exponent - 3 * self.scale.level() >= i64::MIN,
            i64::MIN <= self.val.mantissa * rhs.mantissa <= i64::MAX,
            i64::MIN <= self.val.exponent - 3 * self.scale.level() + rhs.exponent <= i64::MAX,
        ensures
            r == self.val.times(self.scale.factor()).times(rhs),
    {
        let base = self.scale.mul(self.val);
        base.mul(rhs)
    }
}

} // verus!
