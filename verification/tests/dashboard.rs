use std::collections::{BTreeMap, VecDeque};

use pimon::board::{health_at, health_color, health_label, Health, Pimon, MAX_HISTORY};
use pimon::live::{
    chart, charts, clock_rows, core_meters, error_chip, memory_gauges, page, readouts, series,
    status_chips, throttle_card, title, voltage_rows, Fill, Mark, Metric, Page,
};
use pimon::palette::theme_colors;
use pimon::single::Single;
use pimon::snapshot::{CoreState, DiskIo, MemoryInfo, NetIo, Snapshot};
use pimon::table::Table;
use pimon::throttle::ThrottleState;
use pimon::views::{details_rows, tone, Figure, Row, Tint};
use pimon::widgets::{
    clock_color, fmt_uptime, hex_to_rgb, swap_color, temp_color, utilization_color, Gauge, Tone,
    TEMP_CRIT_C, TEMP_HOT_C, TEMP_WARN_C,
};

fn single(value: f32) -> Single {
    Single { bits: value.to_bits() }
}

fn filled(gauge: &Gauge) -> usize {
    let frac = f32::from_bits(gauge.frac.bits);
    gauge.filled((frac * gauge.cells as f32).round() as usize)
}

fn table(entries: &[(&str, f32)]) -> Table<Single> {
    let mut table = Table::new();
    for (name, value) in entries {
        table.insert(name.to_string(), single(*value));
    }
    table
}

/// A figure written out.
fn text(figure: &Figure) -> String {
    let float = |s: &Single| f32::from_bits(s.bits);
    match figure {
        Figure::Text { text } => text.clone(),
        Figure::Number { value, decimals, unit } => {
            format!("{:.*}{unit}", *decimals as usize, float(value))
        }
        Figure::Percent { share, decimals, unit } => {
            format!("{:.*}{unit}", *decimals as usize, float(share) * 100.0)
        }
        Figure::Memory { used_mib, total_mib, percent } => {
            format!("{:.0} / {:.0} MiB ({:.1} %)", float(used_mib), float(total_mib), float(percent))
        }
        Figure::MemoryOf { percent, total_mib } => {
            format!("{:.0}% of {:.0}G", float(percent), float(total_mib) / 1024.0)
        }
        Figure::Throughput { inward, outward } => {
            format!("↓{:.1} ↑{:.1} MiB/s", float(inward), float(outward))
        }
        Figure::Loads { one, fifteen } => match fifteen {
            Some(last) => format!("{:.2} / {:.2} load", float(one), float(last)),
            None => format!("{:.2} load", float(one)),
        },
    }
}

fn lines(rows: &[Row]) -> Vec<String> {
    rows.iter().map(|row| format!("{} = {}", row.label, text(&row.value))).collect()
}

fn memory() -> MemoryInfo<Single> {
    MemoryInfo {
        used_pct: single(12.5),
        buff_cache_pct: single(50.0),
        swap_used_pct: Some(single(60.0)),
        total_mib: single(16384.0),
        used_mib: single(2048.0),
    }
}

fn busy_snapshot() -> Snapshot {
    Snapshot {
        soc_temp_c: Some(single(61.25)),
        pmic_temp_c: Some(single(44.0)),
        nvme_temp_c: Some(single(37.85)),
        rp1_temp_c: Some(single(45.5)),
        extra_zones_c: table(&[("hat", 51.0), ("aux", 20.0)]),
        utilization_pct: Some(single(0.625)),
        cores: vec![
            CoreState { utilization: single(0.25) },
            CoreState { utilization: single(1.0) },
        ],
        memory: Some(memory()),
        disk_io: Some(DiskIo { read_mib_s: single(1.5), write_mib_s: single(0.25) }),
        net_io: Some(NetIo { rx_kib_s: single(10.0), tx_kib_s: single(2.5) }),
        core_volts: Some(single(0.8635)),
        sdram_volatile_volts: Some(single(0.6)),
        sdram_phy_volts: Some(single(1.1)),
        rp1_adc_mv: BTreeMap::from([(4, single(1456.0)), (1, single(2063.0))]),
        regulators_v: table(&[("3v3", 3.3)]),
        undervolt_alarm: true,
        all_clocks_mhz: table(&[("v3d", 1150.0), ("arm", 2400.0)]),
        load_1m: Some(single(2.1)),
        load_15m: Some(single(1.62)),
        uptime_secs: Some(9876),
        rssi_dbm: Some(single(-43.0)),
        ..Default::default()
    }
}

#[test]
fn max_temp_prefers_highest() {
    let snap = Snapshot {
        soc_temp_c: Some(single(48.8)),
        nvme_temp_c: Some(single(37.9)),
        pmic_temp_c: Some(single(46.6)),
        extra_zones_c: table(&[("hat", 51.0)]),
        ..Default::default()
    };
    assert_eq!(snap.max_temp_c(), Some(single(51.0)));
}

#[test]
fn temp_bands() {
    let band = |t: f32| {
        if t >= TEMP_CRIT_C as f32 {
            "crit"
        } else if t >= TEMP_HOT_C as f32 {
            "hot"
        } else if t >= TEMP_WARN_C as f32 {
            "warn"
        } else {
            "ok"
        }
    };
    let tone = |t: f32| match temp_color(single(t)) {
        Tone::Red => "crit",
        Tone::Yellow => "hot",
        Tone::Warning => "warn",
        _ => "ok",
    };
    for (temp, expected) in [
        (45.0, "ok"),
        (TEMP_WARN_C as f32, "warn"),
        (TEMP_HOT_C as f32, "hot"),
        (TEMP_CRIT_C as f32, "crit"),
        (59.999, "ok"),
        (84.99, "hot"),
        (-85.0, "ok"),
        (f32::INFINITY, "crit"),
        (f32::NAN, "ok"),
    ] {
        assert_eq!(band(temp), expected);
        assert_eq!(tone(temp), expected);
    }
}

#[test]
fn gauge_fill_rounds() {
    let mut g = Gauge::new("t", single(0.5), Tone::Green);
    assert_eq!(filled(&g), 10);
    g.frac = single(0.999);
    assert_eq!(filled(&g), g.cells);
    g.frac = single(1.2);
    assert_eq!(filled(&g), g.cells);
    g.frac = single(-0.5);
    assert_eq!(filled(&g), 0);
    g.cells = 0;
    assert_eq!(filled(&g), 0, "cells floor of 4");
}

#[test]
fn uptime_format() {
    assert_eq!(fmt_uptime(0), "0m");
    assert_eq!(fmt_uptime(3600), "1h 0m");
    assert_eq!(fmt_uptime(9876), "2h 44m");
    assert_eq!(fmt_uptime(172_800), "2d 0h 0m");
}

#[test]
fn gauges_are_clamped_and_lit() {
    let gauge = Gauge::new("t", single(1.5), Tone::Red).value_text("150%").cells(2);
    assert_eq!(gauge.frac, single(1.0));
    assert_eq!(gauge.value_text, "150%");
    assert_eq!(gauge.cells, 4);
    assert_eq!(Gauge::new("t", single(-1.0), Tone::Red).frac, single(0.0));
    assert_eq!(Gauge::new("t", single(0.3), Tone::Red).frac, single(0.3));
    let half = Gauge::new("t", single(0.5), Tone::Red).cells(4);
    let rounded = filled(&half);
    let lit: Vec<bool> = (0..4).map(|cell| half.lit(cell, rounded)).collect();
    assert_eq!(lit, [true, true, false, false]);
}

#[test]
fn colors_follow_the_floats() {
    for value in [0.0, 0.59999996, 0.6, 0.60000002, 0.8999999, 0.9, 0.95, 1.0, -0.7, f32::NAN] {
        let expected = if value >= 0.9f32 {
            Tone::Red
        } else if value >= 0.6f32 {
            Tone::Yellow
        } else {
            Tone::Green
        };
        assert_eq!(utilization_color(single(value)), expected, "{value}");
    }
    for (mhz, expected) in [
        (2300.0, Tone::Green),
        (2299.9, Tone::Warning),
        (1800.0, Tone::Warning),
        (1799.9, Tone::Muted),
    ] {
        assert_eq!(clock_color(single(mhz)), expected);
    }
    assert_eq!(swap_color(single(50.0)), Tone::Yellow);
    assert_eq!(swap_color(single(49.9)), Tone::Muted);
}

#[test]
fn tints_decide_on_colors() {
    let none = single(0.0);
    for (tint, expected) in [
        (Tint::Plain, Tone::Foreground),
        (Tint::Temperature(single(75.0)), Tone::Yellow),
        (Tint::Utilization(single(0.9)), Tone::Red),
        (Tint::Clock(single(1800.0)), Tone::Warning),
        (Tint::Fixed(Tone::Accent), Tone::Accent),
    ] {
        assert_eq!(tone(tint, none), expected);
    }
    assert_eq!(tone(Tint::Percent(single(95.0)), single(0.95)), Tone::Red);
    assert_eq!(tone(Tint::Percent(single(60.0)), single(0.6)), Tone::Yellow);
    assert_eq!(tone(Tint::Percent(single(5.0)), single(0.05)), Tone::Green);
}

#[test]
fn themes_name_their_colors() {
    let raw = "[colors]\nbackground = \"#111111\"\n accent=#abc\nforeground = \"\"\nbackground = '#222'\n";
    let colors = theme_colors(raw);
    assert_eq!(colors.background.as_deref(), Some("'#222'"));
    assert_eq!(colors.foreground.as_deref(), Some(""));
    assert_eq!(colors.accent.as_deref(), Some("#abc"));
    let colors = theme_colors("accent = \"\"#7aa2f7\"\" \nbackgrounds = \"#fff\"\nforeground\n");
    assert_eq!(colors.accent.as_deref(), Some("#7aa2f7"));
    assert!(colors.background.is_none() && colors.foreground.is_none());
}

#[test]
fn hex_colors() {
    assert_eq!(hex_to_rgb("#1e1e2e"), Some(0x1e1e2e));
    assert_eq!(hex_to_rgb(" abc "), Some(0xaabbcc));
    assert_eq!(hex_to_rgb("#abc"), hex_to_rgb("#aabbcc"));
    assert_eq!(hex_to_rgb("##ff"), Some(0xff));
    assert_eq!(hex_to_rgb("#"), None);
    assert_eq!(hex_to_rgb("#xyz"), None);
    assert_eq!(hex_to_rgb("#1234567890"), None);
}

#[test]
fn health_follows_throttling_and_heat() {
    let quiet = Snapshot::default();
    assert_eq!(health_at(&quiet), Health::Healthy);
    let past = Snapshot { throttle: ThrottleState::from_bits(1 << 19), ..Default::default() };
    assert_eq!(health_at(&past), Health::Warn);
    let live = Snapshot { throttle: ThrottleState::from_bits(1 << 3), ..Default::default() };
    assert_eq!(health_at(&live), Health::Alert);
    for (temp, expected) in [
        (74.9, Health::Healthy),
        (75.0, Health::Warn),
        (84.9, Health::Warn),
        (85.0, Health::Alert),
    ] {
        let snap = Snapshot { nvme_temp_c: Some(single(temp)), ..Default::default() };
        assert_eq!(health_at(&snap), expected);
    }
    assert_eq!(health_label(Health::Warn), "Check history");
    assert_eq!(health_color(Health::Alert), Tone::Red);
}

#[test]
fn history_is_a_ring() {
    let mut state = Pimon::new();
    assert!(state.latest().is_none());
    assert_eq!(state.health(), Health::Healthy);
    assert_eq!(state.probe_error(), None);
    for i in 0..MAX_HISTORY + 2 {
        state.record(Snapshot { elapsed_ms: i as u64, ..Default::default() });
    }
    assert_eq!(state.history().len(), MAX_HISTORY);
    assert_eq!(state.history()[0].elapsed_ms, 2);
    assert_eq!(state.latest().unwrap().elapsed_ms, (MAX_HISTORY + 1) as u64);
    state.record(Snapshot { error: Some("gone".into()), ..Default::default() });
    assert_eq!(state.probe_error(), Some("gone"));
    state.record(Snapshot::default());
    assert_eq!(state.probe_error(), None);
    state.set_active_tab(1);
    assert_eq!(state.active_tab(), 1);
    assert_eq!(page(state.active_tab()), Page::Details);
    assert_eq!(page(0), Page::Live);
    assert_eq!(page(7), Page::Live);
}

#[test]
fn details_list_every_sensor() {
    assert_eq!(lines(&details_rows(None)), ["sensors = waiting for first sweep…"]);
    assert!(details_rows(Some(&Snapshot::default())).is_empty());
    let snap = busy_snapshot();
    let rows = details_rows(Some(&snap));
    assert_eq!(
        lines(&rows),
        [
            "SoC (cpu-thermal) = 61.2 °C",
            "PMIC = 44.0 °C",
            "NVMe composite = 37.8 °C",
            "RP1 die = 45.5 °C",
            "zone: aux = 20.0 °C",
            "zone: hat = 51.0 °C",
            "CPU utilization = 62.5 %",
            "cpu0 = 25.0 %",
            "cpu1 = 100.0 %",
            "Memory = 2048 / 16384 MiB (12.5 %)",
            "Buff/cache = 50.0 %",
            "Swap = 60.0 %",
            "NVMe read = 1.50 MiB/s",
            "NVMe write = 0.25 MiB/s",
            "Wi-Fi rx = 10.0 KiB/s",
            "Wi-Fi tx = 2.5 KiB/s",
            "Core voltage = 0.8635 V",
            "SDRAM controller (sdram_c) = 0.6000 V",
            "SDRAM PHY (sdram_p) = 1.1000 V",
            "RP1 ADC in1 = 2063 mV",
            "RP1 ADC in4 = 1456 mV",
            "regulator: 3v3 = 3.30 V",
            "Undervoltage alarm (hwmon) = ACTIVE",
            "clock: arm = 2400 MHz",
            "clock: v3d = 1150 MHz",
            "Load (1 min) = 2.10",
            "Load (15 min) = 1.62",
            "Uptime = 2h 44m",
            "Wi-Fi signal = -43 dBm",
        ]
    );
    assert_eq!(rows[0].tint, Tint::Temperature(single(61.25)));
    assert_eq!(rows[9].tint, Tint::Percent(single(12.5)));
    assert_eq!(rows[22].tint, Tint::Fixed(Tone::Red));
    assert_eq!(rows[23].tint, Tint::Plain);
}

#[test]
fn live_tab_shows_the_latest() {
    let rows = readouts(None);
    assert_eq!(lines(&rows), ["sensors = —"]);
    assert_eq!(rows[0].tint, Tint::Fixed(Tone::Muted));
    let snap = busy_snapshot();
    assert_eq!(
        lines(&readouts(Some(&snap))),
        [
            "soc = 61.2°C",
            "pmic = 44.0°C",
            "nvme = 37.8°C",
            "rp1 = 45.5°C",
            "zone aux = 20.0°C",
            "zone hat = 51.0°C",
            "cpu = 62%",
            "mem = 12%",
        ]
    );
    let clocks = clock_rows(Some(&snap));
    assert_eq!(lines(&clocks), ["arm = 2400 MHz", "v3d = 1150 MHz"]);
    assert_eq!(clocks[0].tint, Tint::Clock(single(2400.0)));
    assert_eq!(clocks[1].tint, Tint::Plain);
    assert_eq!(
        lines(&voltage_rows(Some(&snap))),
        ["core = 0.8635 V", "sdram_c = 0.6000 V", "sdram_p = 1.1000 V", "3v3 = 3.30 V"]
    );
    assert!(clock_rows(None).is_empty() && voltage_rows(None).is_empty());
}

#[test]
fn gauges_show_cores_and_memory() {
    let snap = busy_snapshot();
    let cores = core_meters(Some(&snap));
    assert_eq!(cores.len(), 2);
    assert_eq!(cores[1].label, "cpu1");
    assert_eq!(cores[1].fill, Fill::Share(single(1.0)));
    assert_eq!(text(&cores[0].value), "25%");
    assert_eq!(cores[0].cells, 14);
    assert!(core_meters(None).is_empty());

    let gauges = memory_gauges(&memory());
    let shown: Vec<String> =
        gauges.iter().map(|g| format!("{} {}", g.label, text(&g.value))).collect();
    assert_eq!(shown, ["mem 12% of 16G", "cache 50%", "swap 60%"]);
    assert_eq!(gauges[1].tint, Tint::Fixed(Tone::Accent));
    assert_eq!(gauges[2].tint, Tint::Fixed(Tone::Yellow));
    let without_swap = MemoryInfo { swap_used_pct: None, ..memory() };
    assert_eq!(memory_gauges(&without_swap).len(), 2);
}

#[test]
fn charts_leave_gaps_out() {
    let mut history = VecDeque::new();
    assert_eq!(text(&chart(&history, Metric::NetTx, "t", " x", Tone::Red, 1).current), "0.0 x");
    history.push_back(busy_snapshot());
    history.push_back(Snapshot::default());
    history.push_back(Snapshot {
        disk_io: Some(DiskIo { read_mib_s: single(3.0), write_mib_s: single(4.0) }),
        ..Default::default()
    });
    assert_eq!(series(&history, Metric::DiskRead), [single(1.5), single(3.0)]);
    assert_eq!(series(&history, Metric::NetRx), [single(10.0)]);
    let shown: Vec<String> =
        charts(&history).iter().map(|c| format!("{} {}", c.title, text(&c.current))).collect();
    assert_eq!(
        shown,
        ["nvme read 3.00 MiB/s", "nvme write 4.00 MiB/s", "wifi rx 10.0 KiB/s", "wifi tx 2.5 KiB/s"]
    );
}

#[test]
fn bars_around_the_tabs() {
    let snap = busy_snapshot();
    let chips = status_chips(Some(&snap));
    let shown: Vec<String> = chips.iter().map(|chip| text(&chip.value)).collect();
    assert_eq!(shown, ["2.10 / 1.62 load", "12%", "↓1.5 ↑0.2 MiB/s", "-43 dBm"]);
    assert_eq!(chips[0].icon, Mark::Cpu);
    assert!(status_chips(None).is_empty());
    let only_one = Snapshot { load_15m: None, ..busy_snapshot() };
    assert_eq!(text(&status_chips(Some(&only_one))[0].value), "2.10 load");
    let no_first = Snapshot { load_1m: None, ..busy_snapshot() };
    assert_eq!(status_chips(Some(&no_first))[0].icon, Mark::MemoryStick);

    assert_eq!(error_chip(None), None);
    assert_eq!(error_chip(Some("gone")).as_deref(), Some("1 sample / 1s · gone"));

    let bar = title(Some(&snap), Health::Healthy);
    assert_eq!(bar.uptime.as_deref(), Some("2h 44m"));
    assert_eq!((bar.icon, bar.color, bar.label), (Mark::CircleCheck, Tone::Green, "Healthy"));
    let bar = title(None, Health::Alert);
    assert_eq!(bar.uptime, None);
    assert_eq!((bar.icon, bar.label), (Mark::TriangleAlert, "Throttling risk"));

    assert!(throttle_card(None).is_none());
    let (words, tone) = throttle_card(Some(&snap)).unwrap();
    assert_eq!((words.as_str(), tone), ("healthy", Tone::Green));
    let past = Snapshot { throttle: ThrottleState::from_bits(1 << 18), ..Default::default() };
    let (words, tone) = throttle_card(Some(&past)).unwrap();
    assert_eq!((words.as_str(), tone), ("since boot: throttle", Tone::Yellow));
}
