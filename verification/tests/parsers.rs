use pimon::formula::Formula;
use pimon::sensors::{
    finite_only, first_below_zero, parse_core_times, parse_diskstats_sectors, parse_gencmd_temp,
    parse_gencmd_value, parse_loadavg, parse_meminfo_kb, parse_millidegrees, parse_net_dev_bytes,
    parse_primary_disk, parse_primary_wireless, parse_rssi_dbm, parse_uptime_secs,
    parse_wireless_level, whole_seconds, CpuTimes,
};
use pimon::single::Single;

fn uptime(raw: &str) -> Option<u64> {
    let secs: f64 = parse_uptime_secs(raw)?.parse().ok()?;
    whole_seconds(secs.floor() as i64)
}

#[test]
fn parses_core_times_skipping_aggregate() {
    let raw = "cpu  10 0 10 90 0 0 0\ncpu0 1 0 1 8 0 0 0\ncpu1 2 0 2 6 0 0 0\nintr 0\n";
    let cores = parse_core_times(raw);
    assert_eq!(cores.len(), 2);
    assert_eq!(cores[0].idle, 8);
    assert_eq!(cores[1].total, 10);
    assert!(parse_core_times("cpu 1 2 3 4").is_empty());
}

#[test]
fn parses_uptime_diskstats_netdev() {
    assert_eq!(uptime("9876.54 12345.67\n"), Some(9876));
    assert_eq!(uptime(""), None);

    let disks = "   8       0 nvme0n1 4379 41 273090 2982 631 1053 15534 1494 0 4476 4476 0 0 0 0 0 0\n   8       1 nvme0n1p1 100 0 800 20 5 0 10 5 0 25 25 0 0 0 0 0 0\n";
    assert_eq!(
        parse_diskstats_sectors(disks, "nvme0n1"),
        Some((273090, 15534))
    );
    assert_eq!(parse_diskstats_sectors(disks, "missing"), None);
    assert_eq!(parse_primary_disk(disks).as_deref(), Some("nvme0n1"));
    // Partition-looking names never win.
    let parts = "   1  2 nvme0n1p1 1 1 1 1 1 1 1 1 0 1 1\n";
    assert_eq!(parse_primary_disk(parts), None);

    let net = "  eth0: 1000 0 0 0 0 0 0 0 2000 0 0 0 0 0 0 0\n  wlan0: 500 0 0 0 0 0 0 0 700 0 0 0 0 0 0 0\n";
    assert_eq!(parse_net_dev_bytes(net, "wlan0"), Some((500, 700)));
    assert_eq!(parse_net_dev_bytes(net, "missing"), None);
    assert_eq!(parse_primary_wireless(net).as_deref(), Some("wlan0"));
}

fn single(value: f32) -> Single {
    Single { bits: value.to_bits() }
}

fn value(formula: &Formula) -> Option<f32> {
    match formula {
        Formula::Number { text } => text.parse().ok(),
        Formula::Thousandth { text } => text.parse::<f32>().ok().map(|v| v / 1000.0),
        Formula::Share { part, whole } => Some((*part as f32 / *whole as f32).clamp(0.0, 1.0)),
        other => panic!("{other:?}"),
    }
}

fn finite(formula: Option<Formula>) -> Option<f32> {
    let parsed = value(&formula?).map(single);
    finite_only(parsed).map(|v| f32::from_bits(v.bits))
}

fn rssi(raw: &str) -> Option<f32> {
    let candidates = parse_rssi_dbm(raw).iter().map(|f| value(f).map(single)).collect();
    first_below_zero(&candidates).map(|v| f32::from_bits(v.bits))
}

#[test]
fn parses_gencmd_temps() {
    assert_eq!(finite(parse_gencmd_temp("temp=39.5'C")), Some(39.5));
    assert_eq!(finite(parse_gencmd_temp("temp=44.0'C")), Some(44.0));
    assert_eq!(finite(parse_gencmd_temp("temp=48'C")), Some(48.0));
    assert_eq!(finite(parse_gencmd_temp("junk")), None);
    assert_eq!(finite(parse_gencmd_temp("temp='C")), None);
}

#[test]
fn parses_gencmd_values() {
    assert_eq!(finite(parse_gencmd_value("volt=0.8635V", "volt=")), Some(0.8635));
    assert_eq!(finite(parse_gencmd_value("volt=1.1V", "volt=")), Some(1.1));
    assert_eq!(finite(parse_gencmd_value("freq(48)=2400000000", "volt=")), None);
}

#[test]
fn parses_millidegrees_meminfo_load() {
    assert_eq!(value(&parse_millidegrees("37500\n")), Some(37.5));
    assert_eq!(value(&parse_millidegrees("48321")), Some(48.321));
    assert_eq!(value(&parse_millidegrees("")), None);

    let meminfo = "MemTotal:       15990780 kB\nMemAvailable:   14200000 kB\nSwapTotal:       2048000 kB\n";
    assert_eq!(parse_meminfo_kb(meminfo, "MemTotal"), Some(15990780));
    assert_eq!(parse_meminfo_kb(meminfo, "MemAvailable"), Some(14200000));
    assert_eq!(parse_meminfo_kb(meminfo, "SwapFree"), None);
    assert_eq!(parse_meminfo_kb(meminfo, "Missing"), None);

    assert_eq!(parse_loadavg("2.10 1.85 1.62 4/1234 5678\n").as_ref().and_then(value), Some(2.10));
    assert_eq!(parse_loadavg("").as_ref().and_then(value), None);
}

#[test]
fn parses_rssi() {
    assert_eq!(rssi("wlan0: 0000   67.  -43.  -256"), Some(-43.0));
    assert_eq!(rssi("no numbers here"), None);
    assert_eq!(rssi("0 40 20"), None);
}

#[test]
fn cpu_times_and_utilization() {
    let prev = CpuTimes::parse("100 0 100 700 0 0 0").unwrap();
    assert_eq!(prev.idle, 700);
    assert_eq!(prev.total, 900);
    // Next sample: 150 busy ticks added, 50 idle ticks added.
    let next = CpuTimes::parse("250 0 100 750 0 0 0").unwrap();
    let util = next.utilization_since(&prev).as_ref().and_then(value).unwrap();
    // Delta total 200, delta idle 50 -> busy 150.
    assert!((util - 0.75).abs() < 1e-6);
    // No tick advance -> None, not a divide-by-zero.
    assert!(next.utilization_since(&next).is_none());
    // iowait counts as idle.
    let with_wait = CpuTimes::parse("0 0 0 100 50 0 0").unwrap();
    assert_eq!(with_wait.idle, 150);
    assert_eq!(CpuTimes::parse("junk"), None);
}

#[test]
fn counters_that_went_backwards_have_no_share() {
    let prev = CpuTimes { idle: 10, total: 100 };
    assert_eq!(CpuTimes { idle: 20, total: 90 }.busy_share(&prev), None);
    assert_eq!(CpuTimes { idle: 5, total: 110 }.busy_share(&prev), None);
    // More idle than total ticks is no load at all.
    assert_eq!(CpuTimes { idle: 50, total: 110 }.busy_share(&prev), Some((0, 10)));
    assert_eq!(CpuTimes { idle: 12, total: 110 }.busy_share(&prev), Some((8, 10)));
}

#[test]
fn ticks_wrap_around() {
    let times = CpuTimes::parse("18446744073709551615 0 0 2 3").unwrap();
    assert_eq!(times.idle, 5);
    assert_eq!(times.total, 4);
    assert_eq!(CpuTimes::parse("1 2 3"), None);
    // What is no counter is passed over.
    assert_eq!(CpuTimes::parse("1 x 2 3 -4 4").unwrap().idle, 4);
}

#[test]
fn infinite_and_undefined_readings_are_dropped() {
    assert_eq!(finite(parse_gencmd_value("volt=inf", "volt=")), None);
    assert_eq!(finite_only(Some(single(f32::INFINITY))), None);
    assert_eq!(finite_only(Some(single(f32::NAN))), None);
    assert_eq!(finite_only(Some(single(-0.5))), Some(single(-0.5)));
    assert_eq!(rssi("wlan0: 0 nan -1."), Some(-1.0));
}

#[test]
fn digits_of_either_width_are_read() {
    assert_eq!(finite(parse_gencmd_temp("temp=３９.５'C")), Some(39.5));
    assert_eq!(finite(parse_gencmd_temp("temp=0１２３４５６７８９'C")), Some(123456789.0));
    // Voltages come in ASCII digits alone.
    assert_eq!(finite(parse_gencmd_value("volt=０.8６35V", "volt=")), None);
    assert_eq!(finite(parse_gencmd_temp("temp=三九'C")), None);
}

#[test]
fn the_level_is_that_of_the_counted_interface() {
    let name = parse_primary_wireless("wlp1s0: 1 0 0 0 0 0 0 0 2\n");
    assert_eq!(name.as_deref(), Some("wlp1s0"));
    let raw = "Inter-| sta\n wlp1s0: 0000   67.  -43.  -256\n wlan0: 0 1. -9.\n";
    let values = parse_wireless_level(raw).iter().map(|f| value(f).map(single)).collect();
    assert_eq!(first_below_zero(&values), Some(single(-43.0)));
}

#[test]
fn wireless_level_is_that_of_the_wlan_line() {
    let raw = "Inter-| sta\n eth0: -1. -2.\n  wlan1: 0000 60. -50. -256\nwlan0: 0 1. -9.\n";
    let values = parse_wireless_level(raw).iter().map(|f| value(f).map(single)).collect();
    assert_eq!(first_below_zero(&values), Some(single(-50.0)));
    assert!(parse_wireless_level("no line\n").is_empty());
}

#[test]
fn uptime_before_the_boot_is_none() {
    assert_eq!(whole_seconds(-1), None);
    assert_eq!(whole_seconds(0), Some(0));
    assert_eq!(uptime("0.99 1"), Some(0));
    assert_eq!(uptime("soon"), None);
}

#[test]
fn a_broken_disk_line_ends_the_search() {
    let raw = "8 0 nvme0n1 1 2\n8 0 nvme0n1 1 2 3 4 5 6 7 8\n";
    assert_eq!(parse_diskstats_sectors(raw, "nvme0n1"), None);
    assert_eq!(parse_primary_disk("8 0\n8 0 sda\n179 0 mmcblk0\n").as_deref(), Some("mmcblk0"));
    assert_eq!(parse_net_dev_bytes(" wlan0: 1 2 3\n wlan0: 1 0 0 0 0 0 0 0 2\n", "wlan0"), None);
    assert_eq!(parse_primary_wireless("Inter-|\n  lo: 1\n"), None);
}
