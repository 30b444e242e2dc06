use addon_core::text::str_lt;

#[test]
fn str_lt_orders_plain_names() {
    assert!(str_lt("Alpha", "Beta"));
    assert!(!str_lt("Beta", "Alpha"));
    assert!(str_lt("Beta", "Zeta"));
    assert!(str_lt("Zeta", "alpha"));
    assert!(!str_lt("alpha", "Zeta"));
}

#[test]
fn str_lt_is_strict() {
    assert!(!str_lt("", ""));
    assert!(!str_lt("Same", "Same"));
}

#[test]
fn str_lt_puts_a_prefix_first() {
    assert!(str_lt("", "a"));
    assert!(!str_lt("a", ""));
    assert!(str_lt("BigWigs", "BigWigs_Core"));
    assert!(!str_lt("BigWigs_Core", "BigWigs"));
}

#[test]
fn str_lt_agrees_with_the_standard_order() {
    let names = [
        "", "a", "A", "ab", "aB", "b", "Z", "z", "_", "0", "10", "9", "é", "e", "ez", "日本",
        "日", "\u{7f}", "\u{80}", "\u{7ff}", "\u{800}", "\u{ffff}", "\u{10000}", "\u{10ffff}",
        "a\u{10000}", "a\u{ffff}", "DBM-Core", "DBM-StatusBarTimers",
    ];
    for a in names {
        for b in names {
            assert_eq!(str_lt(a, b), a < b, "{:?} {:?}", a, b);
        }
    }
}
