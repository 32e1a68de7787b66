use pimon::host::{glob_matches, glob_plan, tool_answer, GlobPlan, SystemProbe};
use pimon::probe::join_path;
use pimon::single::{Double, Single};
use pimon::sweep::parse_memory_info;
use pimon::formula::Formula;
use pimon::table::Table;
use pimon::text::{
    has_text, joined, parse_hex, parse_u64, precedes, split_lines, split_words, trimmed,
};
use pimon::throttle::ThrottleState;
use pimon::units::{SnapshotError, Unit};
use pimon::watch::{retints, Change, WatchList};

#[test]
fn patterns_are_expanded_in_order() {
    assert!(matches!(glob_plan(false, Some("a*")), GlobPlan::Nothing));
    assert!(matches!(glob_plan(true, None), GlobPlan::Nothing));
    assert!(matches!(glob_plan(true, Some("loadavg")), GlobPlan::Itself));
    match glob_plan(true, Some("hwmon*x*")) {
        GlobPlan::Entries { prefix } => assert_eq!(prefix, "hwmon"),
        other => panic!("{other:?}"),
    }
    let names = ["hwmon2", "power", "hwmon10", "hwmon0", "hwmo"].map(String::from).to_vec();
    assert_eq!(
        glob_matches("/sys/class/hwmon", "hwmon", &names),
        ["/sys/class/hwmon/hwmon0", "/sys/class/hwmon/hwmon10", "/sys/class/hwmon/hwmon2"]
    );
    let reversed: Vec<String> = names.iter().rev().cloned().collect();
    let probe = SystemProbe::new();
    let plan = glob_plan(true, Some("hwmon*"));
    let sorted = probe.glob(&plan, "/d/hwmon*", false, "/d", &names);
    assert_eq!(sorted, ["/d/hwmon0", "/d/hwmon10", "/d/hwmon2"]);
    assert_eq!(probe.glob(&plan, "/d/hwmon*", false, "/d", &reversed), sorted);
    assert_eq!(probe.glob(&GlobPlan::Itself, "/d/x", true, "", &names), ["/d/x"]);
    assert!(probe.glob(&GlobPlan::Itself, "/d/x", false, "", &names).is_empty());
    assert!(probe.glob(&GlobPlan::Nothing, "/d/x", true, "/d", &names).is_empty());
    assert_eq!(glob_matches("/d", "hw", &names), glob_matches("/d", "hw", &reversed));
    assert_eq!(join_path("/", "x"), "/x");
}

#[test]
fn tool_answers_are_trimmed() {
    assert_eq!(SystemProbe::new().vcgencmd_path(), "/usr/bin/vcgencmd");
    assert_eq!(SystemProbe::default().vcgencmd_path(), "/usr/bin/vcgencmd");
    assert_eq!(tool_answer(true, " temp=1'C\n").as_deref(), Some("temp=1'C"));
    assert_eq!(tool_answer(false, "temp=1'C"), None);
}

#[test]
fn watched_paths_are_unique() {
    let mut list = WatchList::new();
    assert!(!list.wants("/a", false));
    assert!(list.wants("/a", true));
    list.add("/a");
    assert!(!list.wants("/a", true));
    list.add("/b");
    assert_eq!((list.len(), list.path(1)), (2, "/b"));
    assert!(!list.needs_rearm(&vec![true, true]));
    assert!(list.needs_rearm(&vec![true, false]));
    assert_eq!(list.take(), ["/a", "/b"]);
    assert_eq!(list.len(), 0);
    assert!(retints(Change::Modify) && retints(Change::Create) && retints(Change::Remove));
    assert!(!retints(Change::Access) && !retints(Change::Other));
}

#[test]
fn tables_keep_names_in_order() {
    let mut table: Table<u32> = Table::default();
    assert!(table.is_empty());
    for (name, value) in [("b", 1), ("a", 2), ("ab", 3), ("b", 4)] {
        table.insert(name.to_string(), value);
    }
    let names: Vec<&str> = (0..table.len()).map(|i| table.name(i)).collect();
    assert_eq!(names, ["a", "ab", "b"]);
    assert_eq!(table.get("b"), Some(&4));
    assert_eq!(table.get("c"), None);
    assert!(precedes("a", "ab") && !precedes("b", "ab") && !precedes("a", "a"));
}

#[test]
fn texts_are_cut_like_the_standard_library_cuts_them() {
    for text in ["", " a\u{3000}b\t c\r\n\r\nd\n", "x\r", "\n\n", "é è\u{85}ê\u{a0}"] {
        assert_eq!(split_lines(text), text.lines().collect::<Vec<_>>());
        assert_eq!(split_words(text), text.split_whitespace().collect::<Vec<_>>());
        assert_eq!(trimmed(text), text.trim());
    }
    for text in ["", "+", "+7", "007", "18446744073709551615", "18446744073709551616", "-0", "1_0", "٣"] {
        assert_eq!(parse_u64(text), text.parse().ok(), "{text}");
    }
    for text in ["", "+", "+f", "fFfFfFfF", "100000000", "-1", "0x1", "g", "00000000001"] {
        assert_eq!(parse_hex(text), u32::from_str_radix(text, 16).ok(), "{text}");
    }
    assert!(has_text("a Raspberry Pi", "Raspberry Pi") && has_text("x", "") && !has_text("", "x"));
    assert_eq!(joined(&vec!["a", "b", "c"], ", "), "a, b, c");
}

#[test]
fn singles_order_like_floats() {
    let values = [
        0.0f32, -0.0, 1.0, -1.0, 59.999, 60.0, 1e-45, -1e-45, 3.4e38, f32::INFINITY,
        f32::NEG_INFINITY, f32::NAN, 1e-38, 16777215.0,
    ];
    for a in values {
        let s = Single { bits: a.to_bits() };
        assert_eq!(s.is_nan(), a.is_nan());
        assert_eq!(s.is_finite(), a.is_finite());
        assert_eq!(s.is_below_zero(), a < 0.0);
        for b in values {
            assert_eq!(s.at_least(&Single { bits: b.to_bits() }), a >= b, "{a} {b}");
        }
        for n in [0u32, 1, 60, 2300, 16777215] {
            assert_eq!(s.reaches_whole(n), a >= n as f32, "{a} {n}");
            assert_eq!(Single::whole(n).bits, (n as f32).to_bits());
        }
        let wide = Double { bits: (a as f64).to_bits() };
        assert_eq!(wide.is_finite_from_zero(), a.is_finite() && a >= 0.0);
    }
}

#[test]
fn memory_gauges_are_parts_of_the_whole() {
    let raw = "MemTotal: 1000 kB\nMemAvailable: 2000 kB\nBuffers: 900 kB\nCached: 900 kB\nSwapTotal: 10 kB\nSwapFree: 20 kB\n";
    let mem = parse_memory_info(raw).unwrap();
    assert!(matches!(mem.used_pct, Formula::Percent { part: 0, whole: 1000 }));
    assert!(matches!(mem.buff_cache_pct, Formula::Percent { part: 1000, whole: 1000 }));
    assert!(matches!(mem.used_mib, Formula::Mebibytes { kibibytes: 0 }));
    assert!(matches!(mem.total_mib, Formula::Mebibytes { kibibytes: 1000 }));
    match mem.swap_used_pct {
        Some(Formula::Percent { part, whole }) => assert!(part >= whole),
        other => panic!("{other:?}"),
    }
    assert!(parse_memory_info("MemTotal: 0 kB\n").is_none());
    assert!(parse_memory_info("MemAvailable: 5 kB\n").is_none());
    let bare = parse_memory_info("MemTotal: 8 kB\n").unwrap();
    assert!(matches!(bare.used_pct, Formula::Percent { part: 8, whole: 8 }));
    assert!(bare.swap_used_pct.is_none());
}

#[test]
fn errors_and_units_in_words() {
    assert_eq!(
        SnapshotError::VcgencmdMissing.message(),
        "vcgencmd not found at /usr/bin/vcgencmd"
    );
    assert_eq!(SnapshotError::Other("x".into()).message(), "x");
    assert_eq!(Unit::Celsius.suffix(), "°C");
    assert_eq!(Unit::Load.suffix(), "");
    assert_eq!(Unit::Rssi.suffix(), "dBm");
}

#[test]
fn throttle_words() {
    let all = ThrottleState::from_bits(u32::MAX);
    assert_eq!(
        all.describe(),
        "throttling now: undervoltage, freq capped, throttled, soft temp limit"
    );
    // Bits outside the live and the sticky ones say nothing.
    assert_eq!(ThrottleState::from_bits(0xff00_fff0), ThrottleState::default());
    // Every sticky bit is an event since boot, also one without a name.
    for place in 16..24 {
        let state = ThrottleState::from_bits(1 << place);
        assert!(state.any_event() && !state.active_now());
        assert!(state.describe().starts_with("since boot: "));
    }
    assert_eq!(ThrottleState::from_bits(1 << 20).describe(), "since boot: other");
    assert_eq!(
        ThrottleState::from_bits((1 << 16) | (1 << 23)).describe(),
        "since boot: undervoltage, other"
    );
    assert_eq!(ThrottleState::from_hex(" throttled=0x50005\n"), Some(ThrottleState::from_bits(0x50005)));
    assert_eq!(ThrottleState::from_hex("50005"), Some(ThrottleState::from_bits(0x50005)));
    assert_eq!(ThrottleState::from_hex("throttled=0x"), None);
    assert_eq!(ThrottleState::from_hex("off"), None);
}
