use pimon::throttle::ThrottleState;

#[test]
fn parses_throttle_bits() {
    let clean = ThrottleState::from_hex("throttled=0x0").unwrap();
    assert!(!clean.any_event());
    assert_eq!(clean.describe(), "healthy");

    let now = ThrottleState::from_bits(0b100);
    assert!(now.active_now());
    assert_eq!(now.describe(), "throttling now: throttled");

    let past = ThrottleState::from_bits(1 << 16);
    assert!(!past.active_now());
    assert!(past.any_event());
    assert_eq!(past.describe(), "since boot: undervoltage");

    let combo = ThrottleState::from_bits((1 << 0) | (1 << 16) | (1 << 17));
    assert!(combo.active_now());
    assert_eq!(combo.describe(), "throttling now: undervoltage");
}
