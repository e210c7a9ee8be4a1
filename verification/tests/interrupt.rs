use vb_core::interrupt::{sources, Source};

#[test]
fn the_table_matches_the_reference() {
    assert_eq!(Source::Vip.code(), 0xFE40);
    assert_eq!(Source::Vip.level(), 4);
    assert_eq!(Source::Vip.handler(), 0xFFFF_FE40);

    assert_eq!(Source::TimerZero.code(), 0xFE10);
    assert_eq!(Source::TimerZero.level(), 1);
    assert_eq!(Source::TimerZero.handler(), 0xFFFF_FE10);

    assert_eq!(Source::GamePad.code(), 0xFE00);
    assert_eq!(Source::GamePad.level(), 0);
    assert_eq!(Source::GamePad.handler(), 0xFFFF_FE00);
}

#[test]
fn priority_order_descends_by_level() {
    for pair in sources().windows(2) {
        assert!(
            pair[0].level() > pair[1].level(),
            "{} must outrank {}",
            pair[0].name(),
            pair[1].name()
        );
    }
}

#[test]
fn every_source_has_a_name_and_a_distinct_code() {
    let all = sources();
    for (i, a) in all.iter().enumerate() {
        assert!(!a.name().is_empty());
        assert_eq!(a.handler(), 0xFFFF_0000 | u32::from(a.code()));
        for b in all.iter().skip(i + 1) {
            assert_ne!(a.code(), b.code());
        }
    }
}
