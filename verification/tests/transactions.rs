use tastyworks::api::transactions::{
    sub_type_from_description, Item, MoneyMovement, ReceiveDeliverTransactionSubType, Trade,
    TradeAction, ValueEffect,
};
use tastyworks::api::InstrumentType;
use tastyworks::common::{Decimal, Timestamp};
use tastyworks::csv;
use tastyworks::rational::Rational64;

fn dec(n: i64, d: i64) -> Decimal {
    Decimal(Rational64::new(n, d))
}

fn when() -> Timestamp {
    Timestamp { unix_seconds: 1_686_931_200, nanos: 0, offset_seconds: -14_400 }
}

fn row(trade_type: &str, description: &str, value: Decimal, fees: Decimal) -> csv::Transaction {
    csv::Transaction {
        date: when(),
        trade_type: trade_type.to_string(),
        action: Some(csv::TradeAction::SellToOpen),
        symbol: Some("SPY   230616P00400000".to_string()),
        instrument_type: Some("Equity Option".to_string()),
        underlying_symbol: Some("SPY".to_string()),
        description: description.to_string(),
        value,
        quantity: dec(1, 1),
        commissions: Some(dec(-1, 1)),
        fees,
    }
}

fn trade(item: Item) -> Trade {
    match item {
        Item::Trade(t) => t,
        _ => panic!("not a trade"),
    }
}

#[test]
fn trade_row_becomes_a_trade() {
    let t = trade(Item::from_csv(
        row("Trade", "Sold 1 SPY 06/16/23 Put 400.00 @ 1.50", dec(150, 1), dec(-3, 10)),
        Some(InstrumentType::EquityOption),
    ));
    assert_eq!(t.id, 0);
    assert_eq!(t.symbol, "SPY   230616P00400000");
    assert_eq!(t.underlying_symbol, "SPY");
    assert_eq!(t.instrument_type, InstrumentType::EquityOption);
    assert_eq!(t.action, TradeAction::SellToOpen);
    assert_eq!(t.executed_at, when());
    assert_eq!(t.value, dec(150, 1));
    assert_eq!(t.value_effect, ValueEffect::Credit);
    assert_eq!(t.commission, dec(1, 1));
    assert_eq!(t.commission_effect, ValueEffect::Credit);
    assert_eq!(t.clearing_fees, dec(1, 10));
    assert_eq!(t.clearing_fees_effect, ValueEffect::Debit);
    assert_eq!(t.ext_global_order_number, Some(0));
    assert_eq!(t.value(), Rational64::from_integer(150));
    assert_eq!(t.commission(), Rational64::from_integer(1));
    assert_eq!(t.fees(), Rational64::new(-3, 10));
}

#[test]
fn converted_fees_add_up_to_the_row_fees() {
    for (n, d) in [(-1, 1), (7, 100), (0, 1), (-2, 3), (5, 7)] {
        let t = trade(Item::from_csv(row("Trade", "", dec(1, 1), dec(n, d)), Some(InstrumentType::Equity)));
        assert_eq!(t.fees(), Rational64::new(n, d));
    }
}

#[test]
fn converted_values_keep_their_sign() {
    for (n, d) in [(-125, 2), (0, 1), (3, 1)] {
        let item = Item::from_csv(row("Money Movement", "Wire", dec(n, d), dec(0, 1)), None);
        match item {
            Item::MoneyMovement(m) => {
                assert_eq!(m.value(), Rational64::new(n, d));
                assert_eq!(m.value, dec(n, d).abs());
            }
            _ => panic!("not a money movement"),
        }
    }
}

#[test]
fn receive_deliver_row_is_classified_by_description() {
    let item = Item::from_csv(
        row("Receive Deliver", "Removal of option due to EXPIRATION", dec(0, 1), dec(-3, 1)),
        Some(InstrumentType::EquityOption),
    );
    match item {
        Item::ReceiveDeliver(r) => {
            assert_eq!(r.transaction_sub_type, ReceiveDeliverTransactionSubType::Expiration);
            assert_eq!(r.action, Some(TradeAction::SellToOpen));
            assert_eq!(r.quantity, Some(dec(1, 1)));
            assert_eq!(r.clearing_fees, Some(dec(1, 1)));
            assert_eq!(r.clearing_fees_effect, Some(ValueEffect::Debit));
            assert_eq!(r.value_effect, ValueEffect::NoEffect);
            assert_eq!(r.value(), Rational64::zero());
            assert_eq!(r.fees(), Rational64::from_integer(-3));
        }
        _ => panic!("not a receive/deliver"),
    }
}

#[test]
fn descriptions_name_sub_types_in_priority_order() {
    assert_eq!(sub_type_from_description("Assignment of exercise notice"), Some(ReceiveDeliverTransactionSubType::Exercise));
    assert_eq!(sub_type_from_description("Forward split 2:1"), Some(ReceiveDeliverTransactionSubType::ForwardSplit));
    assert_eq!(sub_type_from_description("REVERSE SPLIT"), Some(ReceiveDeliverTransactionSubType::ReverseSplit));
    assert_eq!(sub_type_from_description("Symbol change"), Some(ReceiveDeliverTransactionSubType::SymbolChange));
    assert_eq!(sub_type_from_description("Buy to Close 1 SPY"), Some(ReceiveDeliverTransactionSubType::BuyToClose));
    assert_eq!(sub_type_from_description("Sell to Open"), Some(ReceiveDeliverTransactionSubType::SellToOpen));
    assert_eq!(sub_type_from_description("Buy to open"), Some(ReceiveDeliverTransactionSubType::BuyToOpen));
    assert_eq!(sub_type_from_description("sell to close"), Some(ReceiveDeliverTransactionSubType::SellToClose));
    assert_eq!(sub_type_from_description("Assignment"), Some(ReceiveDeliverTransactionSubType::Assignment));
    assert_eq!(sub_type_from_description("Dividend"), None);
}

#[test]
fn receive_deliver_fees_count_only_present_fees() {
    let mut r = match Item::from_csv(
        row("Receive Deliver", "Buy to close", dec(-5, 1), dec(-6, 1)),
        Some(InstrumentType::Equity),
    ) {
        Item::ReceiveDeliver(r) => r,
        _ => panic!("not a receive/deliver"),
    };
    assert_eq!(r.value(), Rational64::from_integer(-5));
    r.regulatory_fees_effect = None;
    assert_eq!(r.fees(), Rational64::from_integer(-4));
    r.clearing_fees_effect = None;
    r.proprietary_index_option_fees_effect = None;
    assert_eq!(r.fees(), Rational64::zero());
}

#[test]
fn ids_can_be_overwritten_and_identify_transactions() {
    let mut item = Item::from_csv(row("Money Movement", "", dec(1, 1), dec(0, 1)), None);
    *item.id_mut() = 42;
    assert_eq!(*item.id_mut(), 42);
    assert_eq!(item.executed_at(), when());
    let a = MoneyMovement { id: 42, executed_at: when(), value: dec(1, 1), value_effect: ValueEffect::Credit };
    let b = MoneyMovement { id: 42, executed_at: when(), value: dec(9, 1), value_effect: ValueEffect::Debit };
    let c = MoneyMovement { id: 7, executed_at: when(), value: dec(1, 1), value_effect: ValueEffect::Credit };
    assert!(a == b);
    assert!(a != c);
    match item {
        Item::MoneyMovement(m) => assert!(m == a),
        _ => panic!("not a money movement"),
    }
}

#[test]
fn opposing_actions() {
    let all = [TradeAction::Sell, TradeAction::Buy, TradeAction::SellToOpen, TradeAction::BuyToOpen, TradeAction::SellToClose, TradeAction::BuyToClose];
    assert_eq!(TradeAction::SellToOpen.opposing_action(), TradeAction::BuyToClose);
    assert_eq!(TradeAction::BuyToOpen.opposing_action(), TradeAction::SellToClose);
    assert_eq!(TradeAction::Sell.opposing_action(), TradeAction::Buy);
    for a in all {
        assert_eq!(a.opposing_action().opposing_action(), a);
        assert_ne!(a.opposing_action(), a);
        assert_eq!(a.closes(), !a.opens());
    }
    assert!(TradeAction::Sell.opens() && TradeAction::Buy.opens() && TradeAction::SellToOpen.opens() && TradeAction::BuyToOpen.opens());
    assert!(TradeAction::SellToClose.closes() && TradeAction::BuyToClose.closes());
    assert_eq!(TradeAction::SellToOpen.opposing_action().opens(), false);
    assert_eq!(TradeAction::Buy.opposing_action().opens(), true);
}

#[test]
fn export_actions_map_to_api_actions() {
    assert_eq!(TradeAction::from(csv::TradeAction::SellToOpen), TradeAction::SellToOpen);
    assert_eq!(TradeAction::from(csv::TradeAction::BuyToOpen), TradeAction::BuyToOpen);
    assert_eq!(TradeAction::from(csv::TradeAction::SellToClose), TradeAction::SellToClose);
    assert_eq!(TradeAction::from(csv::TradeAction::BuyToClose), TradeAction::BuyToClose);
}

#[test]
fn value_effects() {
    assert_eq!(ValueEffect::from_value(Rational64::new(1, 3)), ValueEffect::Credit);
    assert_eq!(ValueEffect::from_value(Rational64::new(-1, 3)), ValueEffect::Debit);
    assert_eq!(ValueEffect::from_value(Rational64::zero()), ValueEffect::NoEffect);
    let v = Rational64::new(5, 2);
    assert_eq!(ValueEffect::Credit.apply(v), v);
    assert_eq!(ValueEffect::Debit.apply(v), Rational64::new(-5, 2));
    assert_eq!(ValueEffect::NoEffect.apply(v), Rational64::zero());
    for x in [Rational64::new(-7, 3), Rational64::zero(), Rational64::new(9, 4)] {
        assert_eq!(ValueEffect::from_value(x).apply(x.abs()), x);
    }
}

#[test]
fn effects_distribute_over_sums_and_negation() {
    let a = Rational64::new(1, 6);
    let b = Rational64::new(-3, 4);
    for e in [ValueEffect::NoEffect, ValueEffect::Debit, ValueEffect::Credit] {
        assert_eq!(e.apply(a.add(&b)), e.apply(a).add(&e.apply(b)));
        assert_eq!(e.apply(a.neg()), e.apply(a).neg());
    }
}
