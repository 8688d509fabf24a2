use tastyworks::api::positions::{Item, QuantityDirection};
use tastyworks::api::InstrumentType;
use tastyworks::csv;
use tastyworks::rational::Rational64;

fn row(symbol: &str, quantity: i32, instrument_type: &str) -> csv::Position {
    csv::Position {
        symbol: symbol.to_string(),
        quantity,
        instrument_type: instrument_type.to_string(),
    }
}

#[test]
fn direction_follows_the_sign() {
    assert_eq!(QuantityDirection::from_signed_quantity(3), QuantityDirection::Long);
    assert_eq!(QuantityDirection::from_signed_quantity(-3), QuantityDirection::Short);
    assert_eq!(QuantityDirection::from_signed_quantity(0), QuantityDirection::Short);
}

#[test]
fn short_option_row_becomes_a_short_position() {
    let item = Item::from_csv(row("SPY   230616P00400000", -2, "OPTION"));
    assert_eq!(item.symbol, "SPY   230616P00400000");
    assert_eq!(item.quantity, Rational64::from_integer(2));
    assert_eq!(item.quantity_direction, QuantityDirection::Short);
    assert_eq!(item.instrument_type, InstrumentType::EquityOption);
    assert_eq!(item.signed_quantity(), Rational64::from_integer(-2));
}

#[test]
fn long_stock_row_becomes_a_long_position() {
    let item = Item::from_csv(row("AAPL", 100, "STOCK"));
    assert_eq!(item.quantity_direction, QuantityDirection::Long);
    assert_eq!(item.instrument_type, InstrumentType::Equity);
    assert_eq!(item.signed_quantity(), Rational64::from_integer(100));
}

#[test]
fn signed_quantity_of_a_converted_row_is_the_row_quantity() {
    for q in [-7, -1, 0, 1, 250, i32::MAX, i32::MIN + 1] {
        let item = Item::from_csv(row("X", q, "STOCK"));
        assert_eq!(item.signed_quantity(), Rational64::from_integer(q as i64));
    }
}

#[test]
fn signed_quantity_keeps_fractions() {
    let item = Item {
        symbol: "BTC/USD".to_string(),
        quantity: Rational64::new(3, 4),
        quantity_direction: QuantityDirection::Short,
        instrument_type: InstrumentType::Cryptocurrency,
    };
    assert_eq!(item.signed_quantity(), Rational64::new(-3, 4));
}
