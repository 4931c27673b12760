use vstd::prelude::*;

use crate::decimal::Decimal;

verus! {

/// A metric prefix, ordered from the coarsest (`Unit`) to the finest (`Femto`).
#[derive(Clone, Copy, Debug, PartialEq, Eq, Structural)]
pub enum SIScale {
    Unit,
    Milli,
    Micro,
    Nano,
    Pico,
    Femto,
}

impl SIScale {
    /// Number of thousand-fold steps below `Unit`.
    pub open spec fn level(self) -> nat {
        match self {
            SIScale::Unit => 0,
            SIScale::Milli => 1,
            SIScale::Micro => 2,
            SIScale::Nano => 3,
            SIScale::Pico => 4,
            SIScale::Femto => 5,
        }
    }

    /// `10^(-3 * level)`: the size of one unit of this scale.
    pub open spec fn factor(self) -> Decimal {
        Decimal::power_of_ten(-3 * self.level() as int)
    }

    /// `10^(3 * level)`: how many units of this scale make one base unit.
    pub open spec fn inverse_factor(self) -> Decimal {
        Decimal::power_of_ten(3 * self.level() as int)
    }

    /// The next coarser scale, saturating at `Unit`.
    pub open spec fn up(self) -> SIScale {
        match self {
            SIScale::Unit => SIScale::Unit,
            SIScale::Milli => SIScale::Unit,
            SIScale::Micro => SIScale::Milli,
            SIScale::Nano => SIScale::Micro,
            SIScale::Pico => SIScale::Nano,
            SIScale::Femto => SIScale::Pico,
        }
    }

    /// The next finer scale, saturating at `Femto`.
    pub open spec fn down(self) -> SIScale {
        match self {
            SIScale::Unit => SIScale::Milli,
            SIScale::Milli => SIScale::Micro,
            SIScale::Micro => SIScale::Nano,
            SIScale::Nano => SIScale::Pico,
            SIScale::Pico => SIScale::Femto,
            SIScale::Femto => SIScale::Femto,
        }
    }

    /// The textual tag of the scale.
    pub open spec fn tag(self) -> Seq<char> {
        match self {
            SIScale::Unit => seq![],
            SIScale::Milli => seq!['m'],
            SIScale::Micro => seq!['u'],
            SIScale::Nano => seq!['n'],
            SIScale::Pico => seq!['p'],
            SIScale::Femto => seq!['f'],
        }
    }

    /// The scale a tag character names, if any.
    pub open spec fn of_tag(c: char) -> Option<SIScale> {
        if c == 'm' {
            Some(SIScale::Milli)
        } else if c == 'u' {
            Some(SIScale::Micro)
        } else if c == 'n' {
            Some(SIScale::Nano)
        } else if c == 'p' {
            Some(SIScale::Pico)
        } else if c == 'f' {
            Some(SIScale::Femto)
        } else {
            None
        }
    }

    pub fn get_scale_factor(self) -> (r: Decimal)
        ensures
            r == self.factor(),
    {
        let e: i64 = match self {
            SIScale::Unit => 0,
            SIScale::Milli => -3,
            SIScale::Micro => -6,
            SIScale::Nano => -9,
            SIScale::Pico => -12,
            SIScale::Femto => -15,
        };
        Decimal::new(1, e)
    }

    pub fn get_inverse_scale_factor(self) -> (r: Decimal)
        ensures
            r == self.inverse_factor(),
    {
        let e: i64 = match self {
            SIScale::Unit => 0,
            SIScale::Milli => 3,
            SIScale::Micro => 6,
            SIScale::Nano => 9,
            SIScale::Pico => 12,
            SIScale::Femto => 15,
        };
        Decimal::new(1, e)
    }

    /// One step toward `Unit`; `Unit` stays where it is.
    pub fn shift_up(self) -> (r: SIScale)
        ensures
            r == self.up(),
            r.level() == if self.level() == 0 { 0 } else { (self.level() - 1) as nat },
    {
        match self {
            SIScale::Unit => SIScale::Unit,
            SIScale::Milli => SIScale::Unit,
            SIScale::Micro => SIScale::Milli,
            SIScale::Nano => SIScale::Micro,
            SIScale::Pico => SIScale::Nano,
            SIScale::Femto => SIScale::Pico,
        }
    }

    /// One step toward `Femto`; `Femto` stays where it is.
    pub fn shift_down(self) -> (r: SIScale)
        ensures
            r == self.down(),
            r.level() == if self.level() == 5 { 5 } else { self.level() + 1 },
    {
        match self {
            SIScale::Unit => SIScale::Milli,
            SIScale::Milli => SIScale::Micro,
            SIScale::Micro => SIScale::Nano,
            SIScale::Nano => SIScale::Pico,
            SIScale::Pico => SIScale::Femto,
            SIScale::Femto => SIScale::Femto,
        }
    }

    /// The one-character (or empty) tag used for display and parsing.
    pub fn symbol(self) -> (r: &'static str)
        ensures
            r@ == self.tag(),
    {
        match self {
            SIScale::Unit => {
                proof {
                    reveal_strlit("");
                }
                ""
            },
            SIScale::Milli => {
                proof {
                    reveal_strlit("m");
                }
                "m"
            },
            SIScale::Micro => {
                proof {
                    reveal_strlit("u");
                }
                "u"
            },
            SIScale::Nano => {
                proof {
                    reveal_strlit("n");
                }
                "n"
            },
            SIScale::Pico => {
                proof {
                    reveal_strlit("p");
                }
                "p"
            },
            SIScale::Femto => {
                proof {
                    reveal_strlit("f");
                }
                "f"
            },
        }
    }

    /// Reads a tag: no character means `Unit`; an unknown one is handed back.
    pub fn parse_char(c: Option<char>) -> (r: Result<SIScale, char>)
        ensures
            r == match c {
                None => Ok(SIScale::Unit),
                Some(x) => match SIScale::of_tag(x) {
                    Some(s) => Ok(s),
                    None => Err(x),
                },
            },
    {
        match c {
            None => Ok(SIScale::Unit),
            Some('m') => Ok(SIScale::Milli),
            Some('u') => Ok(SIScale::Micro),
            Some('n') => Ok(SIScale::Nano),
            Some('p') => Ok(SIScale::Pico),
            Some('f') => Ok(SIScale::Femto),
            Some(x) => Err(x),
        }
    }

    /// Reads the first character of `s` as a tag, as `parse_char` does.
    pub fn from_str(s: &str) -> (r: Result<SIScale, char>)
        ensures
            r == if s@.len() == 0 {
                Ok(SIScale::Unit)
            } else {
                match SIScale::of_tag(s@[0]) {
                    Some(x) => Ok(x),
                    None => Err(s@[0]),
                }
            },
    {
        if s.unicode_len() == 0 {
            SIScale::parse_char(None)
        } else {
            SIScale::parse_char(Some(s.get_char(0)))
        }
    }

    /// Reads a tag leniently: anything that is not a known tag means `Unit`.
    pub open spec fn from_char_spec(c: char) -> SIScale {
        match SIScale::of_tag(c) {
            Some(s) => s,
            None => SIScale::Unit,
        }
    }

    pub fn from_char(c: char) -> (r: SIScale)
        ensures
            r == SIScale::from_char_spec(c),
    {
        match SIScale::parse_char(Some(c)) {
            Ok(s) => s,
            Err(_) => SIScale::Unit,
        }
    }

    /// `x * factor`: a value given in this scale, read in base units.
    pub fn mul(self, x: Decimal) -> (r: Decimal)
        requires
            x.exponent - 3 * self.level() >= i64::MIN,
        ensures
            r == x.times(self.factor()),
    {
        let f = self.get_scale_factor();
        x.mul(f)
    }

    /// `x / factor`: a value given in base units, read in this scale.
    pub fn div(self, x: Decimal) -> (r: Decimal)
        requires
            x.exponent + 3 * self.level() <= i64::MAX,
        ensures
            r == x.times(self.inverse_factor()),
            r.times(self.factor()) == x,
    {
        let f = self.get_inverse_scale_factor();
        x.mul(f)
    }

    /// The multiplier that turns a base-unit value into a count of this scale's units.
    pub fn neg(self) -> (r: Decimal)
        ensures
            r == self.inverse_factor(),
    {
        self.get_inverse_scale_factor()
    }
}

/// The applies-`n`-times closure of `up`.
pub open spec fn up_n(s: SIScale, n: nat) -> SIScale
    decreases n,
{
    if n == 0 {
        s
    } else {
        up_n(s, (n - 1) as nat).up()
    }
}

/// The applies-`n`-times closure of `down`.
pub open spec fn down_n(s: SIScale, n: nat) -> SIScale
    decreases n,
{
    if n == 0 {
        s
    } else {
        down_n(s, (n - 1) as nat).down()
    }
}

/// A scale's factor times its inverse factor is exactly one.
pub proof fn lemma_factor_inverse(s: SIScale)
    ensures
        s.factor().times(s.inverse_factor()) == Decimal::one(),
        s.inverse_factor().times(s.factor()) == Decimal::one(),
{
}

/// Stepping up saturates at `Unit` and stepping down saturates at `Femto`:
/// from any scale, five or more steps reach the end and stay there.
pub proof fn lemma_steps_saturate(s: SIScale, n: nat)
    requires
        n >= 5,
    ensures
        up_n(s, n) == SIScale::Unit,
        down_n(s, n) == SIScale::Femto,
    decreases n,
{
    if n == 5 {
        reveal_with_fuel(up_n, 6);
        reveal_with_fuel(down_n, 6);
    } else {
        lemma_steps_saturate(s, (n - 1) as nat);
    }
}

} // verus!
