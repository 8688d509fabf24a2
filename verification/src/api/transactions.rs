//! Account transactions: trades, receive/deliver events and money movements.
use vstd::prelude::*;
use crate::api::InstrumentType;
use crate::common::{Decimal, Timestamp};
use crate::csv;
use crate::rational::{
    abs_int, div_fits, lemma_add_cancel_left, lemma_add_valid, lemma_gcd_with_one, lemma_lowest_terms,
    lemma_lowest_terms_neg, lemma_neg_add,
    lemma_three_thirds, lowest_terms, sum3_fits, Fraction, Rational64,
};
use crate::text::{
    ascii_lower, lemma_occurs_in_iff_spelled, occurs, occurs_in, same_text, spelled_in, to_ascii_lowercase,
};

verus! {

#[derive(Clone, Debug)]
pub enum Item {
    Trade(Trade),
    ReceiveDeliver(ReceiveDeliver),
    MoneyMovement(MoneyMovement),
}

impl Item {
    pub open spec fn id(self) -> u32 {
        match self {
            Item::Trade(t) => t.id,
            Item::ReceiveDeliver(r) => r.id,
            Item::MoneyMovement(m) => m.id,
        }
    }

    /// The same transaction with its id replaced.
    pub open spec fn with_id(self, id: u32) -> Item {
        match self {
            Item::Trade(t) => Item::Trade(Trade { id, ..t }),
            Item::ReceiveDeliver(r) => Item::ReceiveDeliver(ReceiveDeliver { id, ..r }),
            Item::MoneyMovement(m) => Item::MoneyMovement(MoneyMovement { id, ..m }),
        }
    }

    pub open spec fn spec_executed_at(self) -> Timestamp {
        match self {
            Item::Trade(t) => t.executed_at,
            Item::ReceiveDeliver(r) => r.executed_at,
            Item::MoneyMovement(m) => m.executed_at,
        }
    }

    /// The id of the transaction, to read or to overwrite.
    pub fn id_mut(&mut self) -> (id: &mut u32)
        ensures
            *id == old(self).id(),
            *final(self) == old(self).with_id(*final(id)),
    {
        match self {
            Item::Trade(item) => &mut item.id,
            Item::ReceiveDeliver(item) => &mut item.id,
            Item::MoneyMovement(item) => &mut item.id,
        }
    }

    /// When the transaction was executed.
    pub fn executed_at(&mut self) -> (t: Timestamp)
        ensures
            t == old(self).spec_executed_at(),
            *final(self) == *old(self),
    {
        match self {
            Item::Trade(item) => item.executed_at,
            Item::ReceiveDeliver(item) => item.executed_at,
            Item::MoneyMovement(item) => item.executed_at,
        }
    }
}


/// Whether `amount` can be given `effect`'s sign without overflow.
pub open spec fn signable(effect: ValueEffect, amount: Decimal) -> bool {
    effect is Debit ==> amount.0.spec_numer() != i64::MIN
}

#[derive(Clone, Debug)]
pub struct Trade {
    pub id: u32,
    pub symbol: String,
    pub instrument_type: InstrumentType,
    pub executed_at: Timestamp,
    pub action: TradeAction,
    pub underlying_symbol: String,
    pub value: Decimal,
    pub value_effect: ValueEffect,
    pub quantity: Decimal,
    pub commission: Decimal,
    pub commission_effect: ValueEffect,
    pub clearing_fees: Decimal,
    pub clearing_fees_effect: ValueEffect,
    pub regulatory_fees: Decimal,
    pub regulatory_fees_effect: ValueEffect,
    pub proprietary_index_option_fees: Decimal,
    pub proprietary_index_option_fees_effect: ValueEffect,
    /// Absent for crypto trades.
    pub ext_global_order_number: Option<u32>,
}

/// Trades are the same trade when their ids are.
impl PartialEq for Trade {
    fn eq(&self, other: &Self) -> (r: bool) {
        self.id == other.id
    }
}

impl vstd::std_specs::cmp::PartialEqSpecImpl for Trade {
    open spec fn obeys_eq_spec() -> bool {
        true
    }

    open spec fn eq_spec(&self, other: &Trade) -> bool {
        self.id == other.id
    }
}

impl Eq for Trade {}

impl Trade {
    /// Signed cash value: positive when credited.
    pub open spec fn value_frac(self) -> Fraction {
        self.value_effect.signed(self.value.0.frac())
    }

    /// Signed commission: positive when credited.
    pub open spec fn commission_frac(self) -> Fraction {
        self.commission_effect.signed(self.commission.0.frac())
    }

    pub open spec fn clearing_fees_frac(self) -> Fraction {
        self.clearing_fees_effect.signed(self.clearing_fees.0.frac())
    }

    pub open spec fn regulatory_fees_frac(self) -> Fraction {
        self.regulatory_fees_effect.signed(self.regulatory_fees.0.frac())
    }

    pub open spec fn proprietary_fees_frac(self) -> Fraction {
        self.proprietary_index_option_fees_effect.signed(self.proprietary_index_option_fees.0.frac())
    }

    /// Signed sum of all fees: positive when credited.
    pub open spec fn fees_frac(self) -> Fraction {
        self.clearing_fees_frac().add(self.regulatory_fees_frac()).add(self.proprietary_fees_frac())
    }

    /// The fees can be signed and summed without overflow.
    pub open spec fn fees_fit(self) -> bool {
        &&& signable(self.clearing_fees_effect, self.clearing_fees)
        &&& signable(self.regulatory_fees_effect, self.regulatory_fees)
        &&& signable(self.proprietary_index_option_fees_effect, self.proprietary_index_option_fees)
        &&& sum3_fits(self.clearing_fees_frac(), self.regulatory_fees_frac(), self.proprietary_fees_frac())
    }

    pub fn value(&self) -> (r: Rational64)
        requires
            signable(self.value_effect, self.value),
        ensures
            r.frac() == self.value_frac(),
    {
        self.value_effect.apply(self.value.0)
    }

    pub fn commission(&self) -> (r: Rational64)
        requires
            signable(self.commission_effect, self.commission),
        ensures
            r.frac() == self.commission_frac(),
    {
        self.commission_effect.apply(self.commission.0)
    }

    pub fn fees(&self) -> (r: Rational64)
        requires
            self.fees_fit(),
        ensures
            r.frac() == lowest_terms(
                lowest_terms(self.clearing_fees_frac().add(self.regulatory_fees_frac())).add(
                    self.proprietary_fees_frac(),
                ),
            ),
            r.frac().eqv(self.fees_frac()),
    {
        let a = self.clearing_fees_effect.apply(self.clearing_fees.0);
        let b = self.regulatory_fees_effect.apply(self.regulatory_fees.0);
        let c = self.proprietary_index_option_fees_effect.apply(self.proprietary_index_option_fees.0);
        Rational64::add3(&a, &b, &c)
    }
}

#[derive(Clone, Debug)]
pub struct ReceiveDeliver {
    pub id: u32,
    pub symbol: String,
    pub instrument_type: InstrumentType,
    pub transaction_sub_type: ReceiveDeliverTransactionSubType,
    pub executed_at: Timestamp,
    /// Present for splits, symbol changes and opening or closing sub-types.
    pub action: Option<TradeAction>,
    pub underlying_symbol: String,
    pub value: Decimal,
    pub value_effect: ValueEffect,
    pub quantity: Option<Decimal>,
    pub clearing_fees: Option<Decimal>,
    pub clearing_fees_effect: Option<ValueEffect>,
    pub regulatory_fees: Option<Decimal>,
    pub regulatory_fees_effect: Option<ValueEffect>,
    pub proprietary_index_option_fees: Option<Decimal>,
    pub proprietary_index_option_fees_effect: Option<ValueEffect>,
}

#[derive(Clone, Copy, Debug, PartialEq, Eq, Structural, Hash)]
pub enum ReceiveDeliverTransactionSubType {
    Exercise,
    Expiration,
    Assignment,
    Transfer,
    CashSettledAssignment,
    ForwardSplit,
    ReverseSplit,
    SymbolChange,
    StockMerger,
    SellToOpen,
    BuyToOpen,
    SellToClose,
    BuyToClose,
    FuturesSettlement,
    ACAT,
}

/// Receive/deliver events are the same event when their ids are.
impl PartialEq for ReceiveDeliver {
    fn eq(&self, other: &Self) -> (r: bool) {
        self.id == other.id
    }
}

impl vstd::std_specs::cmp::PartialEqSpecImpl for ReceiveDeliver {
    open spec fn obeys_eq_spec() -> bool {
        true
    }

    open spec fn eq_spec(&self, other: &ReceiveDeliver) -> bool {
        self.id == other.id
    }
}

impl Eq for ReceiveDeliver {}

/// A fee that may be absent: its signed amount, zero when it has no effect.
pub open spec fn optional_fee(effect: Option<ValueEffect>, amount: Option<Decimal>) -> Fraction {
    match effect {
        Some(e) => e.signed(amount.unwrap().0.frac()),
        None => Fraction::from_int(0),
    }
}

/// A fee with an effect has an amount, which can be given the effect's sign.
pub open spec fn optional_fee_present(effect: Option<ValueEffect>, amount: Option<Decimal>) -> bool {
    match effect {
        Some(e) => amount is Some && signable(e, amount.unwrap()),
        None => true,
    }
}

fn optional_fee_amount(effect: Option<ValueEffect>, amount: Option<Decimal>) -> (r: Rational64)
    requires
        optional_fee_present(effect, amount),
    ensures
        r.frac() == optional_fee(effect, amount),
{
    match effect {
        Some(e) => e.apply(amount.unwrap().0),
        None => Rational64::zero(),
    }
}

impl ReceiveDeliver {
    /// Signed cash value: positive when credited.
    pub open spec fn value_frac(self) -> Fraction {
        self.value_effect.signed(self.value.0.frac())
    }

    /// Signed sum of the fees that are present: positive when credited.
    pub open spec fn fees_frac(self) -> Fraction {
        optional_fee(self.clearing_fees_effect, self.clearing_fees)
            .add(optional_fee(self.regulatory_fees_effect, self.regulatory_fees))
            .add(optional_fee(self.proprietary_index_option_fees_effect, self.proprietary_index_option_fees))
    }

    /// Every fee with an effect has an amount, and the fees can be summed
    /// without overflow.
    pub open spec fn fees_fit(self) -> bool {
        &&& optional_fee_present(self.clearing_fees_effect, self.clearing_fees)
        &&& optional_fee_present(self.regulatory_fees_effect, self.regulatory_fees)
        &&& optional_fee_present(self.proprietary_index_option_fees_effect, self.proprietary_index_option_fees)
        &&& sum3_fits(
            optional_fee(self.clearing_fees_effect, self.clearing_fees),
            optional_fee(self.regulatory_fees_effect, self.regulatory_fees),
            optional_fee(self.proprietary_index_option_fees_effect, self.proprietary_index_option_fees),
        )
    }

    pub fn value(&self) -> (r: Rational64)
        requires
            signable(self.value_effect, self.value),
        ensures
            r.frac() == self.value_frac(),
    {
        self.value_effect.apply(self.value.0)
    }

    pub fn fees(&self) -> (r: Rational64)
        requires
            self.fees_fit(),
        ensures
            r.frac() == lowest_terms(
                lowest_terms(
                    optional_fee(self.clearing_fees_effect, self.clearing_fees).add(
                        optional_fee(self.regulatory_fees_effect, self.regulatory_fees),
                    ),
                ).add(optional_fee(self.proprietary_index_option_fees_effect, self.proprietary_index_option_fees)),
            ),
            r.frac().eqv(self.fees_frac()),
    {
        let a = optional_fee_amount(self.clearing_fees_effect, self.clearing_fees);
        let b = optional_fee_amount(self.regulatory_fees_effect, self.regulatory_fees);
        let c = optional_fee_amount(self.proprietary_index_option_fees_effect, self.proprietary_index_option_fees);
        Rational64::add3(&a, &b, &c)
    }
}

#[derive(Clone, Debug)]
pub struct MoneyMovement {
    pub id: u32,
    pub executed_at: Timestamp,
    pub value: Decimal,
    pub value_effect: ValueEffect,
}

/// Money movements are the same movement when their ids are.
impl PartialEq for MoneyMovement {
    fn eq(&self, other: &Self) -> (r: bool) {
        self.id == other.id
    }
}

impl vstd::std_specs::cmp::PartialEqSpecImpl for MoneyMovement {
    open spec fn obeys_eq_spec() -> bool {
        true
    }

    open spec fn eq_spec(&self, other: &MoneyMovement) -> bool {
        self.id == other.id
    }
}

impl Eq for MoneyMovement {}

impl MoneyMovement {
    /// Signed cash value: positive when credited.
    pub open spec fn value_frac(self) -> Fraction {
        self.value_effect.signed(self.value.0.frac())
    }

    pub fn value(&self) -> (r: Rational64)
        requires
            signable(self.value_effect, self.value),
        ensures
            r.frac() == self.value_frac(),
    {
        self.value_effect.apply(self.value.0)
    }
}

#[derive(Clone, Copy, Debug, PartialEq, Eq, Structural, Hash)]
pub enum TradeAction {
    Sell,
    Buy,
    /// Opens with a credit.
    SellToOpen,
    /// Opens with a debit.
    BuyToOpen,
    /// Closes with a credit.
    SellToClose,
    /// Closes with a debit.
    BuyToClose,
}

impl TradeAction {
    /// The action on the other side of the market.
    pub open spec fn opposite(self) -> TradeAction {
        match self {
            TradeAction::Sell => TradeAction::Buy,
            TradeAction::Buy => TradeAction::Sell,
            TradeAction::SellToOpen => TradeAction::BuyToClose,
            TradeAction::BuyToOpen => TradeAction::SellToClose,
            TradeAction::SellToClose => TradeAction::BuyToOpen,
            TradeAction::BuyToClose => TradeAction::SellToOpen,
        }
    }

    /// Every action opens a position except the two closing ones.
    pub open spec fn spec_opens(self) -> bool {
        !(self is SellToClose || self is BuyToClose)
    }

    pub fn opposing_action(&self) -> (r: TradeAction)
        ensures
            r == self.opposite(),
    {
        match self {
            TradeAction::Sell => TradeAction::Buy,
            TradeAction::Buy => TradeAction::Sell,
            TradeAction::SellToOpen => TradeAction::BuyToClose,
            TradeAction::BuyToOpen => TradeAction::SellToClose,
            TradeAction::SellToClose => TradeAction::BuyToOpen,
            TradeAction::BuyToClose => TradeAction::SellToOpen,
        }
    }

    pub fn opens(&self) -> (r: bool)
        ensures
            r == self.spec_opens(),
    {
        match self {
            TradeAction::Sell => true,
            TradeAction::Buy => true,
            TradeAction::SellToOpen => true,
            TradeAction::BuyToOpen => true,
            TradeAction::SellToClose => false,
            TradeAction::BuyToClose => false,
        }
    }

    pub fn closes(&self) -> (r: bool)
        ensures
            r == !self.spec_opens(),
    {
        !self.opens()
    }
}

/// The opposite of the opposite action is the action itself.
pub proof fn lemma_opposing_action_involution(a: TradeAction)
    ensures
        a.opposite().opposite() == a,
        a.opposite() != a,
{
}

/// The opposite of an opening order closes and the opposite of a closing
/// order opens; plain buys and sells stay opening on both sides.
pub proof fn lemma_opposing_action_open_close(a: TradeAction)
    ensures
        (a is Sell || a is Buy) ==> a.opposite().spec_opens() && a.spec_opens(),
        !(a is Sell || a is Buy) ==> a.opposite().spec_opens() != a.spec_opens(),
{
}

/// How the transactions export's actions map to the API's.
impl From<csv::TradeAction> for TradeAction {
    fn from(action: csv::TradeAction) -> (r: TradeAction) {
        match action {
            csv::TradeAction::SellToOpen => TradeAction::SellToOpen,
            csv::TradeAction::BuyToOpen => TradeAction::BuyToOpen,
            csv::TradeAction::SellToClose => TradeAction::SellToClose,
            csv::TradeAction::BuyToClose => TradeAction::BuyToClose,
        }
    }
}

impl vstd::std_specs::convert::FromSpecImpl<csv::TradeAction> for TradeAction {
    open spec fn obeys_from_spec() -> bool {
        true
    }

    open spec fn from_spec(action: csv::TradeAction) -> TradeAction {
        TradeAction::of_csv(action)
    }
}

impl TradeAction {
    /// The API action for an action of the transactions export.
    pub open spec fn of_csv(action: csv::TradeAction) -> TradeAction {
        match action {
            csv::TradeAction::SellToOpen => TradeAction::SellToOpen,
            csv::TradeAction::BuyToOpen => TradeAction::BuyToOpen,
            csv::TradeAction::SellToClose => TradeAction::SellToClose,
            csv::TradeAction::BuyToClose => TradeAction::BuyToClose,
        }
    }
}

/// Whether a cash amount was credited or debited.
#[derive(Clone, Copy, Debug, PartialEq, Eq, Structural, Hash)]
pub enum ValueEffect {
    NoEffect,
    Debit,
    Credit,
}

impl ValueEffect {
    /// The effect of a signed amount: credit when positive, debit when negative.
    pub open spec fn of_sign(value: Fraction) -> ValueEffect {
        if value.num > 0 {
            ValueEffect::Credit
        } else if value.num < 0 {
            ValueEffect::Debit
        } else {
            ValueEffect::NoEffect
        }
    }

    /// The signed amount: the amount itself for a credit, its negation for a
    /// debit, zero for no effect.
    pub open spec fn signed(self, amount: Fraction) -> Fraction {
        match self {
            ValueEffect::NoEffect => Fraction::from_int(0),
            ValueEffect::Debit => amount.neg(),
            ValueEffect::Credit => amount,
        }
    }

    pub fn from_value(value: Rational64) -> (e: ValueEffect)
        ensures
            e == ValueEffect::of_sign(value.frac()),
    {
        if value.is_positive() {
            ValueEffect::Credit
        } else if value.is_negative() {
            ValueEffect::Debit
        } else {
            ValueEffect::NoEffect
        }
    }

    pub fn apply(&self, v: Rational64) -> (r: Rational64)
        requires
            *self is Debit ==> v.spec_numer() != i64::MIN,
        ensures
            r.frac() == self.signed(v.frac()),
    {
        match self {
            ValueEffect::NoEffect => Rational64::zero(),
            ValueEffect::Debit => v.neg(),
            ValueEffect::Credit => v,
        }
    }
}

/// Giving an effect to a sum is summing the effect given to each part, and
/// giving it to a negation negates it; in lowest terms too. So, wherever they
/// are defined, `e.apply(a.add(&b)) == e.apply(a).add(&e.apply(b))` and
/// `e.apply(a.neg()) == e.apply(a).neg()`.
#[verifier::spinoff_prover]
pub proof fn lemma_effect_distributes(e: ValueEffect, a: Fraction, b: Fraction)
    requires
        a.valid(),
        b.valid(),
    ensures
        e.signed(a.add(b)) == e.signed(a).add(e.signed(b)),
        e.signed(lowest_terms(a.add(b))) == lowest_terms(e.signed(a).add(e.signed(b))),
        e.signed(a.neg()) == e.signed(a).neg(),
{
    match e {
        ValueEffect::NoEffect => {
            lemma_gcd_with_one(0);
        },
        ValueEffect::Debit => {
            lemma_neg_add(a, b);
            lemma_add_valid(a, b);
            lemma_lowest_terms_neg(a.add(b));
        },
        ValueEffect::Credit => {},
    }
}

/// The magnitude of an amount, signed by the amount's own effect, is the
/// amount again.
pub proof fn lemma_effect_of_sign_restores_amount(v: Fraction)
    requires
        v.valid(),
    ensures
        ValueEffect::of_sign(v).signed(Fraction { num: abs_int(v.num), den: v.den }).eqv(v),
{
}


/// The sub-type that a receive/deliver row's description names: the first of
/// the keywords below that occurs in it, ignoring ASCII case.
pub open spec fn sub_type_of_description(description: Seq<char>) -> Option<ReceiveDeliverTransactionSubType> {
    let d = ascii_lower(description);
    if occurs_in("exercise"@, d) {
        Some(ReceiveDeliverTransactionSubType::Exercise)
    } else if occurs_in("expiration"@, d) {
        Some(ReceiveDeliverTransactionSubType::Expiration)
    } else if occurs_in("assignment"@, d) {
        Some(ReceiveDeliverTransactionSubType::Assignment)
    } else if occurs_in("forward split"@, d) {
        Some(ReceiveDeliverTransactionSubType::ForwardSplit)
    } else if occurs_in("reverse split"@, d) {
        Some(ReceiveDeliverTransactionSubType::ReverseSplit)
    } else if occurs_in("symbol change"@, d) {
        Some(ReceiveDeliverTransactionSubType::SymbolChange)
    } else if occurs_in("sell to open"@, d) {
        Some(ReceiveDeliverTransactionSubType::SellToOpen)
    } else if occurs_in("buy to open"@, d) {
        Some(ReceiveDeliverTransactionSubType::BuyToOpen)
    } else if occurs_in("sell to close"@, d) {
        Some(ReceiveDeliverTransactionSubType::SellToClose)
    } else if occurs_in("buy to close"@, d) {
        Some(ReceiveDeliverTransactionSubType::BuyToClose)
    } else {
        None
    }
}

/// The sub-type that a receive/deliver description names, if any.
pub fn sub_type_from_description(description: &str) -> (r: Option<ReceiveDeliverTransactionSubType>)
    ensures
        r == sub_type_of_description(description@),
{
    let d = to_ascii_lowercase(description);
    if occurs("exercise", &d) {
        Some(ReceiveDeliverTransactionSubType::Exercise)
    } else if occurs("expiration", &d) {
        Some(ReceiveDeliverTransactionSubType::Expiration)
    } else if occurs("assignment", &d) {
        Some(ReceiveDeliverTransactionSubType::Assignment)
    } else if occurs("forward split", &d) {
        Some(ReceiveDeliverTransactionSubType::ForwardSplit)
    } else if occurs("reverse split", &d) {
        Some(ReceiveDeliverTransactionSubType::ReverseSplit)
    } else if occurs("symbol change", &d) {
        Some(ReceiveDeliverTransactionSubType::SymbolChange)
    } else if occurs("sell to open", &d) {
        Some(ReceiveDeliverTransactionSubType::SellToOpen)
    } else if occurs("buy to open", &d) {
        Some(ReceiveDeliverTransactionSubType::BuyToOpen)
    } else if occurs("sell to close", &d) {
        Some(ReceiveDeliverTransactionSubType::SellToClose)
    } else if occurs("buy to close", &d) {
        Some(ReceiveDeliverTransactionSubType::BuyToClose)
    } else {
        None
    }
}

/// The text of an optional field, empty when it is absent.
pub open spec fn text_or_empty(s: Option<String>) -> Seq<char> {
    match s {
        Some(s) => s@,
        None => Seq::empty(),
    }
}

/// The magnitude of an amount.
pub open spec fn magnitude(d: Decimal) -> Fraction {
    Fraction { num: abs_int(d.0.frac().num), den: d.0.frac().den }
}

/// `split` is a third of the magnitude of `fees`, in lowest terms.
pub open spec fn is_fee_third(fees: Decimal, split: Decimal) -> bool {
    split.0.frac() == lowest_terms(magnitude(fees).div_int(3))
}

/// What a transaction row requires to be converted: a known transaction type,
/// amounts whose magnitudes and thirds fit, and the fields that its type reads.
pub open spec fn convertible(row: csv::Transaction, instrument_type: Option<InstrumentType>) -> bool {
    &&& row.trade_type@ == "Trade"@ || row.trade_type@ == "Receive Deliver"@ || row.trade_type@
        == "Money Movement"@
    &&& row.value.0.spec_numer() != i64::MIN
    &&& row.fees.0.spec_numer() != i64::MIN
    &&& div_fits(magnitude(row.fees), 3)
    &&& row.trade_type@ == "Trade"@ ==> {
        &&& instrument_type is Some
        &&& row.action is Some
        &&& row.commissions is Some
        &&& row.commissions.unwrap().0.spec_numer() != i64::MIN
    }
    &&& row.trade_type@ == "Receive Deliver"@ ==> {
        &&& instrument_type is Some
        &&& sub_type_of_description(row.description@) is Some
    }
}

impl Item {
    /// How a transaction is built from a row of the transactions export,
    /// `instrument_type` being the row's instrument type name read as an
    /// `InstrumentType`. Fees are split into three equal parts.
    pub open spec fn converted_from_csv(self, row: csv::Transaction, instrument_type: Option<InstrumentType>) -> bool {
        match self {
            Item::Trade(t) => {
                &&& row.trade_type@ == "Trade"@
                &&& t.id == 0
                &&& t.symbol@ == text_or_empty(row.symbol)
                &&& Some(t.instrument_type) == instrument_type
                &&& t.executed_at == row.date
                &&& t.action == TradeAction::of_csv(row.action.unwrap())
                &&& t.underlying_symbol@ == text_or_empty(row.underlying_symbol)
                &&& t.value.0.frac() == magnitude(row.value)
                &&& t.value_effect == ValueEffect::of_sign(row.value.0.frac())
                &&& t.quantity == row.quantity
                &&& t.commission.0.frac() == magnitude(row.commissions.unwrap())
                &&& t.commission_effect == ValueEffect::of_sign(t.commission.0.frac())
                &&& is_fee_third(row.fees, t.clearing_fees)
                &&& t.regulatory_fees == t.clearing_fees
                &&& t.proprietary_index_option_fees == t.clearing_fees
                &&& t.clearing_fees_effect == ValueEffect::of_sign(row.fees.0.frac())
                &&& t.regulatory_fees_effect == t.clearing_fees_effect
                &&& t.proprietary_index_option_fees_effect == t.clearing_fees_effect
                &&& t.ext_global_order_number == Some(0u32)
            },
            Item::ReceiveDeliver(r) => {
                &&& row.trade_type@ == "Receive Deliver"@
                &&& r.id == 0
                &&& r.symbol@ == text_or_empty(row.symbol)
                &&& Some(r.instrument_type) == instrument_type
                &&& Some(r.transaction_sub_type) == sub_type_of_description(row.description@)
                &&& r.executed_at == row.date
                &&& r.action == (match row.action {
                    Some(a) => Some(TradeAction::of_csv(a)),
                    None => None,
                })
                &&& r.underlying_symbol@ == text_or_empty(row.underlying_symbol)
                &&& r.value.0.frac() == magnitude(row.value)
                &&& r.value_effect == ValueEffect::of_sign(row.value.0.frac())
                &&& r.quantity == Some(row.quantity)
                &&& r.clearing_fees is Some
                &&& is_fee_third(row.fees, r.clearing_fees.unwrap())
                &&& r.regulatory_fees == r.clearing_fees
                &&& r.proprietary_index_option_fees == r.clearing_fees
                &&& r.clearing_fees_effect == Some(ValueEffect::of_sign(row.fees.0.frac()))
                &&& r.regulatory_fees_effect == r.clearing_fees_effect
                &&& r.proprietary_index_option_fees_effect == r.clearing_fees_effect
            },
            Item::MoneyMovement(m) => {
                &&& row.trade_type@ == "Money Movement"@
                &&& m.id == 0
                &&& m.executed_at == row.date
                &&& m.value.0.frac() == magnitude(row.value)
                &&& m.value_effect == ValueEffect::of_sign(row.value.0.frac())
            },
        }
    }

    /// The transaction that a row of the transactions export describes.
    /// `instrument_type` is the row's instrument type name read as an
    /// `InstrumentType`, absent when the row names none.
    pub fn from_csv(row: csv::Transaction, instrument_type: Option<InstrumentType>) -> (item: Item)
        requires
            convertible(row, instrument_type),
        ensures
            item.converted_from_csv(row, instrument_type),
    {
        let csv::Transaction {
            date,
            trade_type,
            action,
            symbol,
            instrument_type: _,
            underlying_symbol,
            description,
            value,
            quantity,
            commissions,
            fees,
        } = row;
        let symbol = match symbol {
            Some(s) => s,
            None => String::new(),
        };
        let underlying_symbol = match underlying_symbol {
            Some(s) => s,
            None => String::new(),
        };
        let split_fees = Decimal(fees.abs().0.div_integer(3));
        let fees_effect = ValueEffect::from_value(fees.0);
        if same_text(trade_type.as_str(), "Trade") {
            let commission = match commissions {
                Some(c) => c.abs(),
                None => {
                    proof { assert(false); }
                    Decimal(Rational64::zero())
                },
            };
            let action = match action {
                Some(a) => TradeAction::from(a),
                None => {
                    proof { assert(false); }
                    TradeAction::Sell
                },
            };
            let instrument_type = match instrument_type {
                Some(t) => t,
                None => {
                    proof { assert(false); }
                    InstrumentType::Unknown
                },
            };
            Item::Trade(Trade {
                id: 0,
                symbol,
                instrument_type,
                executed_at: date,
                action,
                underlying_symbol,
                value: value.abs(),
                value_effect: ValueEffect::from_value(value.0),
                quantity,
                commission,
                commission_effect: ValueEffect::from_value(commission.0),
                clearing_fees: split_fees,
                clearing_fees_effect: fees_effect,
                regulatory_fees: split_fees,
                regulatory_fees_effect: fees_effect,
                proprietary_index_option_fees: split_fees,
                proprietary_index_option_fees_effect: fees_effect,
                ext_global_order_number: Some(0),
            })
        } else if same_text(trade_type.as_str(), "Receive Deliver") {
            let transaction_sub_type = match sub_type_from_description(description.as_str()) {
                Some(t) => t,
                None => {
                    proof { assert(false); }
                    ReceiveDeliverTransactionSubType::Transfer
                },
            };
            let instrument_type = match instrument_type {
                Some(t) => t,
                None => {
                    proof { assert(false); }
                    InstrumentType::Unknown
                },
            };
            let action = match action {
                Some(a) => Some(TradeAction::from(a)),
                None => None,
            };
            Item::ReceiveDeliver(ReceiveDeliver {
                id: 0,
                symbol,
                instrument_type,
                transaction_sub_type,
                executed_at: date,
                action,
                underlying_symbol,
                value: value.abs(),
                value_effect: ValueEffect::from_value(value.0),
                quantity: Some(quantity),
                clearing_fees: Some(split_fees),
                clearing_fees_effect: Some(fees_effect),
                regulatory_fees: Some(split_fees),
                regulatory_fees_effect: Some(fees_effect),
                proprietary_index_option_fees: Some(split_fees),
                proprietary_index_option_fees_effect: Some(fees_effect),
            })
        } else {
            Item::MoneyMovement(MoneyMovement {
                id: 0,
                executed_at: date,
                value: value.abs(),
                value_effect: ValueEffect::from_value(value.0),
            })
        }
    }
}


/// A third of `f`'s magnitude, given `f`'s own effect, is a third of `f`.
proof fn lemma_signed_third(f: Fraction, s: Fraction)
    requires
        f.valid(),
        s.valid(),
        s.eqv(Fraction { num: abs_int(f.num), den: f.den }.div_int(3)),
    ensures
        ValueEffect::of_sign(f).signed(s).valid(),
        ValueEffect::of_sign(f).signed(s).num * 3 * f.den == f.num * ValueEffect::of_sign(f).signed(s).den,
{
    let t = ValueEffect::of_sign(f).signed(s);
    if f.num > 0 {
        assert(s.num * 3 * f.den == f.num * s.den) by (nonlinear_arith)
            requires
                s.num * (f.den * 3) == f.num * s.den,
        ;
        assert(t.num * 3 * f.den == f.num * t.den);
    } else if f.num < 0 {
        assert(-s.num * 3 * f.den == f.num * s.den) by (nonlinear_arith)
            requires
                s.num * (f.den * 3) == -f.num * s.den,
        ;
        assert(t.num * 3 * f.den == f.num * t.den);
    } else {
        assert(t.num == 0 && t.den == 1);
        assert(t.num * 3 * f.den == 0) by (nonlinear_arith) requires t.num == 0;
    }
}

/// Converting a row of the transactions export keeps its signed value: the
/// magnitude stored with its effect is the row's value.
pub proof fn lemma_csv_value_preserved(row: csv::Transaction, instrument_type: Option<InstrumentType>, item: Item)
    requires
        item.converted_from_csv(row, instrument_type),
        row.value.0.frac().valid(),
    ensures
        match item {
            Item::Trade(t) => t.value_frac().eqv(row.value.0.frac()),
            Item::ReceiveDeliver(r) => r.value_frac().eqv(row.value.0.frac()),
            Item::MoneyMovement(m) => m.value_frac().eqv(row.value.0.frac()),
        },
{
    lemma_effect_of_sign_restores_amount(row.value.0.frac());
}

/// Converting a trade or receive/deliver row keeps its total fees: the three
/// equal parts, each with the fees' effect, add up to the row's fees.
pub proof fn lemma_csv_fees_preserved(row: csv::Transaction, instrument_type: Option<InstrumentType>, item: Item)
    requires
        item.converted_from_csv(row, instrument_type),
        row.fees.0.frac().valid(),
    ensures
        item is Trade ==> item->Trade_0.fees_frac().eqv(row.fees.0.frac()),
        item is ReceiveDeliver ==> item->ReceiveDeliver_0.fees_frac().eqv(row.fees.0.frac()),
{
    let f = row.fees.0.frac();
    lemma_lowest_terms(magnitude(row.fees).div_int(3));
    match item {
        Item::Trade(t) => {
            lemma_signed_third(f, t.clearing_fees.0.frac());
            lemma_three_thirds(t.clearing_fees_frac(), f);
        },
        Item::ReceiveDeliver(r) => {
            let s = r.clearing_fees.unwrap();
            lemma_signed_third(f, s.0.frac());
            lemma_three_thirds(ValueEffect::of_sign(f).signed(s.0.frac()), f);
        },
        Item::MoneyMovement(_) => {},
    }
}

/// A trade converted from the transactions export carries its commission as
/// a credit of the commission's magnitude.
pub proof fn lemma_csv_commission_is_magnitude(row: csv::Transaction, instrument_type: Option<InstrumentType>, item: Item)
    requires
        item.converted_from_csv(row, instrument_type),
        item is Trade,
        row.commissions.unwrap().0.frac().valid(),
    ensures
        item->Trade_0.commission_frac().eqv(magnitude(row.commissions.unwrap())),
{
}

/// `result` is `amount` carried with `effect`: the amount itself when
/// credited, the amount negated when debited, zero when it has no effect.
pub open spec fn carried_with(effect: ValueEffect, amount: Fraction, result: Fraction) -> bool {
    match effect {
        ValueEffect::Credit => result == amount,
        ValueEffect::Debit => result.num == -amount.num && result.den == amount.den,
        ValueEffect::NoEffect => result.num == 0,
    }
}

/// Every amount of a trade is carried with its own effect: a debited
/// commission or fee counts against the account, a credited one for it.
/// The trade's fees are its clearing, regulatory and proprietary index option
/// fees, each with its own effect, added up.
pub proof fn lemma_trade_amounts_carry_effects(t: Trade)
    ensures
        carried_with(t.value_effect, t.value.0.frac(), t.value_frac()),
        carried_with(t.commission_effect, t.commission.0.frac(), t.commission_frac()),
        carried_with(t.clearing_fees_effect, t.clearing_fees.0.frac(), t.clearing_fees_frac()),
        carried_with(t.regulatory_fees_effect, t.regulatory_fees.0.frac(), t.regulatory_fees_frac()),
        carried_with(
            t.proprietary_index_option_fees_effect,
            t.proprietary_index_option_fees.0.frac(),
            t.proprietary_fees_frac(),
        ),
        t.fees_frac() == t.clearing_fees_frac().add(t.regulatory_fees_frac()).add(t.proprietary_fees_frac()),
        t.commission_effect is Debit && t.commission.0.frac().num > 0 ==> t.commission_frac().num < 0,
        t.commission_effect is Credit && t.commission.0.frac().num > 0 ==> t.commission_frac().num > 0,
{
}

/// The proprietary index option fee takes part in a trade's fees: two trades
/// whose clearing and regulatory fees agree, and whose proprietary fees have
/// the same effect but different amounts, have different fees.
pub proof fn lemma_trade_fees_read_proprietary(t1: Trade, t2: Trade)
    requires
        t1.clearing_fees == t2.clearing_fees,
        t1.clearing_fees_effect == t2.clearing_fees_effect,
        t1.regulatory_fees == t2.regulatory_fees,
        t1.regulatory_fees_effect == t2.regulatory_fees_effect,
        t1.proprietary_index_option_fees_effect == t2.proprietary_index_option_fees_effect,
        !(t1.proprietary_index_option_fees_effect is NoEffect),
        t1.clearing_fees.0.frac().valid(),
        t1.regulatory_fees.0.frac().valid(),
        t1.proprietary_index_option_fees.0.frac().valid(),
        t2.proprietary_index_option_fees.0.frac().valid(),
        !t1.proprietary_index_option_fees.0.frac().eqv(t2.proprietary_index_option_fees.0.frac()),
    ensures
        !t1.fees_frac().eqv(t2.fees_frac()),
{
    let s = t1.clearing_fees_frac().add(t1.regulatory_fees_frac());
    let (p1, p2) = (t1.proprietary_fees_frac(), t2.proprietary_fees_frac());
    let (a1, a2) = (t1.proprietary_index_option_fees.0.frac(), t2.proprietary_index_option_fees.0.frac());
    assert(t1.clearing_fees_frac().valid());
    assert(t1.regulatory_fees_frac().valid());
    lemma_add_valid(t1.clearing_fees_frac(), t1.regulatory_fees_frac());
    assert(t2.clearing_fees_frac().add(t2.regulatory_fees_frac()) == s);
    if s.add(p1).eqv(s.add(p2)) {
        lemma_add_cancel_left(s, p1, p2);
        assert(a1.num * a2.den == a2.num * a1.den) by (nonlinear_arith)
            requires
                p1.num * p2.den == p2.num * p1.den,
                p1.den == a1.den,
                p2.den == a2.den,
                (p1.num == a1.num && p2.num == a2.num) || (p1.num == -a1.num && p2.num == -a2.num),
        ;
    }
}

/// The cash value of a receive/deliver event and of a money movement is
/// carried with its effect, and each fee of a receive/deliver event that has
/// an effect is carried with it; a fee without one counts as zero.
pub proof fn lemma_other_amounts_carry_effects(r: ReceiveDeliver, m: MoneyMovement)
    ensures
        carried_with(r.value_effect, r.value.0.frac(), r.value_frac()),
        carried_with(m.value_effect, m.value.0.frac(), m.value_frac()),
        r.clearing_fees_effect matches Some(e) ==> carried_with(
            e,
            r.clearing_fees.unwrap().0.frac(),
            optional_fee(r.clearing_fees_effect, r.clearing_fees),
        ),
        r.regulatory_fees_effect matches Some(e) ==> carried_with(
            e,
            r.regulatory_fees.unwrap().0.frac(),
            optional_fee(r.regulatory_fees_effect, r.regulatory_fees),
        ),
        r.proprietary_index_option_fees_effect matches Some(e) ==> carried_with(
            e,
            r.proprietary_index_option_fees.unwrap().0.frac(),
            optional_fee(r.proprietary_index_option_fees_effect, r.proprietary_index_option_fees),
        ),
        r.clearing_fees_effect is None ==> optional_fee(r.clearing_fees_effect, r.clearing_fees).num == 0,
        r.regulatory_fees_effect is None ==> optional_fee(r.regulatory_fees_effect, r.regulatory_fees).num == 0,
        r.proprietary_index_option_fees_effect is None ==> optional_fee(
            r.proprietary_index_option_fees_effect,
            r.proprietary_index_option_fees,
        ).num == 0,
        r.fees_frac() == optional_fee(r.clearing_fees_effect, r.clearing_fees).add(
            optional_fee(r.regulatory_fees_effect, r.regulatory_fees),
        ).add(optional_fee(r.proprietary_index_option_fees_effect, r.proprietary_index_option_fees)),
{
}

/// A converted row keeps the row's symbols, each in its own place, and its
/// date, quantity and action.
pub proof fn lemma_csv_fields_kept(row: csv::Transaction, instrument_type: Option<InstrumentType>, item: Item)
    requires
        item.converted_from_csv(row, instrument_type),
    ensures
        item matches Item::Trade(t) ==> {
            &&& t.symbol@ == text_or_empty(row.symbol)
            &&& t.underlying_symbol@ == text_or_empty(row.underlying_symbol)
            &&& t.executed_at == row.date
            &&& t.quantity == row.quantity
            &&& (row.action matches Some(a) ==> t.action == TradeAction::of_csv(a))
        },
        item matches Item::ReceiveDeliver(r) ==> {
            &&& r.symbol@ == text_or_empty(row.symbol)
            &&& r.underlying_symbol@ == text_or_empty(row.underlying_symbol)
            &&& r.executed_at == row.date
            &&& r.quantity == Some(row.quantity)
            &&& (row.action matches Some(a) ==> r.action == Some(TradeAction::of_csv(a)))
            &&& (row.action is None ==> r.action is None)
        },
        item matches Item::MoneyMovement(m) ==> m.executed_at == row.date,
{
}

/// Each keyword is looked for anywhere in the description, ignoring ASCII
/// case, and the first keyword of the list below that is spelled somewhere
/// decides the sub-type: exercise, expiration, assignment, forward split,
/// reverse split, symbol change, sell to open, buy to open, sell to close, buy
/// to close. A description that spells none of them names no sub-type.
pub proof fn lemma_sub_type_keywords(description: Seq<char>)
    ensures
        ({
            let d = ascii_lower(description);
            let r = sub_type_of_description(description);
            &&& spelled_in(d, "exercise"@) ==> r == Some(ReceiveDeliverTransactionSubType::Exercise)
            &&& !spelled_in(d, "exercise"@) && spelled_in(d, "expiration"@) ==> r == Some(
                ReceiveDeliverTransactionSubType::Expiration,
            )
            &&& !spelled_in(d, "exercise"@) && !spelled_in(d, "expiration"@) && spelled_in(d, "assignment"@)
                ==> r == Some(ReceiveDeliverTransactionSubType::Assignment)
            &&& !spelled_in(d, "exercise"@) && !spelled_in(d, "expiration"@) && !spelled_in(d, "assignment"@)
                && spelled_in(d, "forward split"@) ==> r == Some(ReceiveDeliverTransactionSubType::ForwardSplit)
            &&& !spelled_in(d, "exercise"@) && !spelled_in(d, "expiration"@) && !spelled_in(d, "assignment"@)
                && !spelled_in(d, "forward split"@) && spelled_in(d, "reverse split"@) ==> r == Some(
                ReceiveDeliverTransactionSubType::ReverseSplit,
            )
            &&& !spelled_in(d, "exercise"@) && !spelled_in(d, "expiration"@) && !spelled_in(d, "assignment"@)
                && !spelled_in(d, "forward split"@) && !spelled_in(d, "reverse split"@) && spelled_in(
                d,
                "symbol change"@,
            ) ==> r == Some(ReceiveDeliverTransactionSubType::SymbolChange)
            &&& !spelled_in(d, "exercise"@) && !spelled_in(d, "expiration"@) && !spelled_in(d, "assignment"@)
                && !spelled_in(d, "forward split"@) && !spelled_in(d, "reverse split"@) && !spelled_in(
                d,
                "symbol change"@,
            ) && spelled_in(d, "sell to open"@) ==> r == Some(ReceiveDeliverTransactionSubType::SellToOpen)
            &&& !spelled_in(d, "exercise"@) && !spelled_in(d, "expiration"@) && !spelled_in(d, "assignment"@)
                && !spelled_in(d, "forward split"@) && !spelled_in(d, "reverse split"@) && !spelled_in(
                d,
                "symbol change"@,
            ) && !spelled_in(d, "sell to open"@) && spelled_in(d, "buy to open"@) ==> r == Some(
                ReceiveDeliverTransactionSubType::BuyToOpen,
            )
            &&& !spelled_in(d, "exercise"@) && !spelled_in(d, "expiration"@) && !spelled_in(d, "assignment"@)
                && !spelled_in(d, "forward split"@) && !spelled_in(d, "reverse split"@) && !spelled_in(
                d,
                "symbol change"@,
            ) && !spelled_in(d, "sell to open"@) && !spelled_in(d, "buy to open"@) && spelled_in(
                d,
                "sell to close"@,
            ) ==> r == Some(ReceiveDeliverTransactionSubType::SellToClose)
            &&& !spelled_in(d, "exercise"@) && !spelled_in(d, "expiration"@) && !spelled_in(d, "assignment"@)
                && !spelled_in(d, "forward split"@) && !spelled_in(d, "reverse split"@) && !spelled_in(
                d,
                "symbol change"@,
            ) && !spelled_in(d, "sell to open"@) && !spelled_in(d, "buy to open"@) && !spelled_in(
                d,
                "sell to close"@,
            ) && spelled_in(d, "buy to close"@) ==> r == Some(ReceiveDeliverTransactionSubType::BuyToClose)
            &&& !spelled_in(d, "exercise"@) && !spelled_in(d, "expiration"@) && !spelled_in(d, "assignment"@)
                && !spelled_in(d, "forward split"@) && !spelled_in(d, "reverse split"@) && !spelled_in(
                d,
                "symbol change"@,
            ) && !spelled_in(d, "sell to open"@) && !spelled_in(d, "buy to open"@) && !spelled_in(
                d,
                "sell to close"@,
            ) && !spelled_in(d, "buy to close"@) ==> r is None
        }),
{
    let d = ascii_lower(description);
    lemma_occurs_in_iff_spelled("exercise"@, d);
    lemma_occurs_in_iff_spelled("expiration"@, d);
    lemma_occurs_in_iff_spelled("assignment"@, d);
    lemma_occurs_in_iff_spelled("forward split"@, d);
    lemma_occurs_in_iff_spelled("reverse split"@, d);
    lemma_occurs_in_iff_spelled("symbol change"@, d);
    lemma_occurs_in_iff_spelled("sell to open"@, d);
    lemma_occurs_in_iff_spelled("buy to open"@, d);
    lemma_occurs_in_iff_spelled("sell to close"@, d);
    lemma_occurs_in_iff_spelled("buy to close"@, d);
}

} // verus!
