use lehman_cousins_core::domain::decimal::Decimal;
use lehman_cousins_core::domain::instrument::{Instrument, InstrumentManager};

fn btc() -> Instrument {
    Instrument {
        symbol_id: 1,
        symbol: "BTC-USDT".into(),
        tick_size: Decimal::new(1, 1),
        lot_size: Decimal::new(1, 3),
        min_notional: Decimal::new(100, 1),
    }
}

#[test]
fn test_rounding_math() {
    let instr = btc();
    // Price rounding: 65432.126 -> 65432.1
    assert_eq!(instr.round_price_down(Decimal::new(65_432_126, 3)), Decimal::new(654_321, 1));
    // Qty rounding: 1.234567 -> 1.234
    assert_eq!(instr.round_qty_down(Decimal::new(1_234_567, 6)), Decimal::new(1234, 3));
}

#[test]
fn zero_step_leaves_value_and_negative_rounds_toward_zero() {
    let mut instr = btc();
    instr.tick_size = Decimal::new(0, 0);
    assert_eq!(instr.round_price_down(Decimal::new(123_456, 3)), Decimal::new(123_456, 3));
    let instr = btc();
    assert_eq!(instr.round_price_down(Decimal::new(-1_234, 2)), Decimal::new(-123, 1));
}

#[test]
fn instrument_manager_lookup() {
    let mut m = InstrumentManager::new();
    assert!(m.get(1).is_none());
    m.insert(btc());
    assert_eq!(m.get(1).unwrap().symbol, "BTC-USDT");
    assert!(m.get(2).is_none());
}

#[test]
fn rounding_a_rounded_price_changes_nothing() {
    let i = btc();
    let once = i.round_price_down(Decimal::new(6543217, 2));
    assert_eq!(i.round_price_down(once), once);
    let q = i.round_qty_down(Decimal::new(123456789, 8));
    assert_eq!(i.round_qty_down(q), q);
}
