//! Fixed-point amounts of money.

use vstd::prelude::*;
use vstd::string::StringSliceAdditionalSpecFns;

use crate::decimal::{
    decimal_places, decimal_text, decimal_value, digits, parse_decimal, push_digits,
    text_stands_for_units,
};

verus! {

/// An amount of money, counted in units of one ten-thousandth.
///
/// The view of an amount is its number of units as a mathematical integer.
#[derive(Clone, Copy, Debug, PartialEq, Eq, Structural)]
pub struct Amount {
    /// Number of ten-thousandths.
    pub units: i64,
}

impl View for Amount {
    type V = int;

    open spec fn view(&self) -> int {
        self.units as int
    }
}

/// Whether a number of units can be held by an [`Amount`].
pub open spec fn fits(units: int) -> bool {
    i64::MIN <= units <= i64::MAX
}

impl Amount {
    /// The amount of nothing.
    pub fn zero() -> (a: Amount)
        ensures
            a@ == 0,
    {
        Amount { units: 0 }
    }

    /// The amount made of `units` ten-thousandths.
    pub fn from_units(units: i64) -> (a: Amount)
        ensures
            a@ == units,
    {
        Amount { units }
    }

    /// The sum of two amounts, where it can be held.
    pub fn plus(self, other: Amount) -> (sum: Amount)
        requires
            fits(self@ + other@),
        ensures
            sum@ == self@ + other@,
    {
        Amount { units: self.units + other.units }
    }

    /// The difference of two amounts, where it can be held.
    pub fn minus(self, other: Amount) -> (difference: Amount)
        requires
            fits(self@ - other@),
        ensures
            difference@ == self@ - other@,
    {
        Amount { units: self.units - other.units }
    }

    /// Whether the sum of two amounts can be held.
    pub fn can_add(self, other: Amount) -> (ok: bool)
        ensures
            ok == fits(self@ + other@),
    {
        self.units.checked_add(other.units).is_some()
    }

    /// Whether the difference of two amounts can be held.
    pub fn can_subtract(self, other: Amount) -> (ok: bool)
        ensures
            ok == fits(self@ - other@),
    {
        self.units.checked_sub(other.units).is_some()
    }
}

impl Amount {
    /// The decimal text of the amount, as ASCII characters.
    pub fn to_text(&self) -> (text: Vec<u8>)
        ensures
            text@ == decimal_text(self@),
    {
        let mut text: Vec<u8> = Vec::new();
        let magnitude: u64 = if self.units < 0 {
            text.push('-' as u8);
            (-(self.units as i128)) as u64
        } else {
            self.units as u64
        };
        let ghost sign = text@;
        push_digits(magnitude / 10_000, &mut text);
        text.push('.' as u8);
        let part: u64 = magnitude % 10_000;
        text.push('0' as u8 + (part / 1000) as u8);
        if part % 1000 != 0 {
            text.push('0' as u8 + (part / 100 % 10) as u8);
            if part % 100 != 0 {
                text.push('0' as u8 + (part / 10 % 10) as u8);
                if part % 10 != 0 {
                    text.push('0' as u8 + (part % 10) as u8);
                }
            }
        }
        assert(text@ =~= sign + (digits((magnitude / 10_000) as nat) + seq!['.' as u8]
            + decimal_places(part as nat)));
        text
    }

    /// The amount that a decimal text stands for, see [`decimal_value`]: none
    /// for a text that is no decimal text, nor for a number that no amount
    /// can hold.
    pub open spec fn parsed(text: Seq<u8>) -> Option<Amount> {
        match decimal_value(text) {
            Some(units) => if units <= i64::MAX {
                Some(Amount { units: units as i64 })
            } else {
                None
            },
            None => None,
        }
    }

    /// The amount that a decimal text stands for, see [`Amount::parsed`].
    pub fn parse(text: &str) -> (amount: Option<Amount>)
        ensures
            amount == Amount::parsed(text.spec_bytes()),
            amount matches Some(read) ==> read@ >= 0,
    {
        match parse_decimal(text.as_bytes()) {
            Some(units) => Some(Amount { units }),
            None => None,
        }
    }

    /// An amount that is not negative is read back from its own text.
    pub proof fn text_reads_back(self)
        requires
            self@ >= 0,
        ensures
            Amount::parsed(decimal_text(self@)) == Some(self),
    {
        text_stands_for_units(self@);
    }
}

} // verus!
