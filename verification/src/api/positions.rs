//! Open positions of an account.
use vstd::prelude::*;
use crate::api::InstrumentType;
use crate::csv;
use crate::rational::{abs_int, gcd, lemma_gcd_with_one, lowest_terms, Fraction, Rational64};
use crate::text::same_text;

verus! {

#[derive(Clone, Debug)]
pub struct Item {
    pub symbol: String,
    /// Size of the position, never negative; its side is `quantity_direction`.
    pub quantity: Rational64,
    pub quantity_direction: QuantityDirection,
    pub instrument_type: InstrumentType,
}

#[derive(Clone, Copy, Debug, PartialEq, Eq, Structural, Hash)]
pub enum QuantityDirection {
    Short,
    Long,
}

impl QuantityDirection {
    /// The side of a signed quantity: long when positive, short otherwise.
    pub open spec fn of_signed(quantity: int) -> QuantityDirection {
        if quantity > 0 {
            QuantityDirection::Long
        } else {
            QuantityDirection::Short
        }
    }

    /// The sign this side gives a quantity.
    pub open spec fn sign(self) -> int {
        match self {
            QuantityDirection::Short => -1,
            QuantityDirection::Long => 1,
        }
    }

    pub fn from_signed_quantity(quantity: i32) -> (d: QuantityDirection)
        ensures
            d == QuantityDirection::of_signed(quantity as int),
    {
        if quantity > 0 {
            QuantityDirection::Long
        } else {
            QuantityDirection::Short
        }
    }
}

/// The instrument type that the positions export's type name stands for.
pub open spec fn csv_instrument_type(name: Seq<char>) -> Option<InstrumentType> {
    if name == "OPTION"@ {
        Some(InstrumentType::EquityOption)
    } else if name == "STOCK"@ {
        Some(InstrumentType::Equity)
    } else {
        None
    }
}

impl Item {
    /// The quantity with the sign of its side.
    pub open spec fn signed_quantity_frac(self) -> Fraction {
        self.quantity.frac().scale(self.quantity_direction.sign())
    }

    /// How a position is built from a row of the positions export.
    pub open spec fn converted_from_csv(self, row: csv::Position) -> bool {
        &&& self.symbol@ == row.symbol@
        &&& self.quantity.frac() == Fraction::from_int(abs_int(row.quantity as int))
        &&& self.quantity_direction == QuantityDirection::of_signed(row.quantity as int)
        &&& Some(self.instrument_type) == csv_instrument_type(row.instrument_type@)
    }

    /// The quantity, negative for short positions.
    pub fn signed_quantity(&self) -> (r: Rational64)
        requires
            self.quantity_direction is Short ==> self.quantity.spec_numer() != i64::MIN,
        ensures
            r.frac() == lowest_terms(self.signed_quantity_frac()),
            r.frac().eqv(self.signed_quantity_frac()),
    {
        let sign: i64 = match self.quantity_direction {
            QuantityDirection::Short => -1,
            QuantityDirection::Long => 1,
        };
        proof {
            let q = self.quantity.frac();
            lemma_gcd_with_one(q.den as nat);
            assert(abs_int(sign as int) == 1);
            assert(gcd(q.den as nat, abs_int(sign as int) as nat) == 1);
            assert((sign as int) / 1int == sign as int);
        }
        self.quantity.mul_integer(sign)
    }

    /// The position that a row of the positions export describes.
    pub fn from_csv(row: csv::Position) -> (item: Item)
        requires
            row.quantity != i32::MIN,
            csv_instrument_type(row.instrument_type@) is Some,
        ensures
            item.converted_from_csv(row),
    {
        let magnitude: i32 = if row.quantity < 0 { -row.quantity } else { row.quantity };
        let instrument_type = if same_text(row.instrument_type.as_str(), "OPTION") {
            InstrumentType::EquityOption
        } else if same_text(row.instrument_type.as_str(), "STOCK") {
            InstrumentType::Equity
        } else {
            proof { assert(false); }
            InstrumentType::Unknown
        };
        Item {
            symbol: row.symbol,
            quantity: Rational64::from_integer(magnitude as i64),
            quantity_direction: QuantityDirection::from_signed_quantity(row.quantity),
            instrument_type,
        }
    }
}

/// A position built from a row of the positions export has, with its sign,
/// exactly the row's signed quantity.
pub proof fn lemma_csv_position_signed_quantity(row: csv::Position, item: Item)
    requires
        item.converted_from_csv(row),
    ensures
        item.signed_quantity_frac().eqv(Fraction::from_int(row.quantity as int)),
{
}

/// A long position counts its quantity as it is, a short one negated; a
/// positive signed quantity is long, any other short.
pub proof fn lemma_signed_quantity_sides(item: Item, quantity: int)
    ensures
        item.quantity_direction is Long ==> item.signed_quantity_frac() == item.quantity.frac(),
        item.quantity_direction is Short ==> item.signed_quantity_frac().num == -item.quantity.frac().num
            && item.signed_quantity_frac().den == item.quantity.frac().den,
        quantity > 0 ==> QuantityDirection::of_signed(quantity) is Long,
        quantity <= 0 ==> QuantityDirection::of_signed(quantity) is Short,
{
}

} // verus!
