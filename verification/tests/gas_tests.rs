use revm_core::gas::Gas;

#[test]
fn charge_decrements_remaining() {
    let mut g = Gas::new(100);
    assert!(g.charge(40));
    assert_eq!(g.remaining, 60);
    assert_eq!(g.spent(), 40);
    assert_eq!(g.limit, 100);
}

#[test]
fn charge_fails_closed() {
    let mut g = Gas::new(100);
    assert!(!g.charge(101));
    assert_eq!(g.remaining, 100);
    assert_eq!(g.refunded, 0);
    // Exactly one more than the balance never mutates the ledger.
    assert!(g.charge(60));
    let before = g.remaining;
    assert!(!g.charge(before + 1));
    assert_eq!(g.remaining, before);
}

#[test]
fn refund_is_capped_at_finalization() {
    let mut g = Gas::new(100);
    assert!(g.charge(50));
    g.refund(30);
    // used = 50, cap = 50 / 5 = 10, so only 10 of the 30 apply.
    assert_eq!(g.finalize(), 60);
    // The cap never lifts the result above the limit.
    assert!(g.finalize() <= g.limit);
}

#[test]
fn refund_below_cap_applies_fully() {
    let mut g = Gas::new(1000);
    assert!(g.charge(500));
    g.refund(70);
    // used = 500, cap = 100, refund fits.
    assert_eq!(g.finalize(), 570);
}

#[test]
fn erase_cost_returns_charged_gas() {
    let mut g = Gas::new(100);
    assert!(g.charge(80));
    g.erase_cost(30);
    assert_eq!(g.remaining, 50);
    assert_eq!(g.limit, 100);
}
