use std::cell::RefCell;
use std::collections::BTreeMap;
use std::time::{Duration, Instant};

use pimon::formula::Formula;
use pimon::host::SystemProbe;
use pimon::probe::Probe;
use pimon::sensors::{DISKSTATS, HWMON_GLOB, LOADAVG, MEMINFO, NET_DEV, STAT, THERMAL_GLOB, UPTIME};
use pimon::single::{Double, Single};
use pimon::snapshot::{CoreState, Megahertz, Snapshot};
use pimon::sweep::{
    clock_mhz, collect_snapshot, parse_all_clocks, Clock, CounterTexts, Pending, Sweeper,
};

struct FakeProbe {
    files: RefCell<BTreeMap<String, String>>,
    gencmd: RefCell<BTreeMap<Vec<String>, String>>,
    globs: RefCell<BTreeMap<String, Vec<String>>>,
}

impl FakeProbe {
    fn new() -> Self {
        Self {
            files: RefCell::new(BTreeMap::new()),
            gencmd: RefCell::new(BTreeMap::new()),
            globs: RefCell::new(BTreeMap::new()),
        }
    }

    fn file(&self, path: &str, content: &str) {
        self.files.borrow_mut().insert(path.into(), content.into());
    }

    fn gencmd(&self, args: &[&str], out: &str) {
        self.gencmd
            .borrow_mut()
            .insert(args.iter().map(|s| s.to_string()).collect(), out.into());
    }

    fn glob(&self, pattern: &str, paths: &[&str]) {
        self.globs.borrow_mut().insert(
            pattern.into(),
            paths.iter().map(|s| s.to_string()).collect(),
        );
    }
}

impl Probe for FakeProbe {
    fn read_file(&self, path: &str) -> Option<String> {
        self.files.borrow().get(path).cloned()
    }

    fn glob(&self, pattern: &str) -> Vec<String> {
        self.globs.borrow().get(pattern).cloned().unwrap_or_default()
    }

    fn vcgencmd(&self, args: &[&str]) -> Option<String> {
        self.gencmd
            .borrow()
            .get(&args.iter().map(|s| s.to_string()).collect::<Vec<_>>())
            .cloned()
    }
}

fn single(value: f32) -> Single {
    Single { bits: value.to_bits() }
}

fn float(value: Single) -> f32 {
    f32::from_bits(value.bits)
}

fn share(part: u64, whole: u64) -> f32 {
    (part as f32 / whole as f32).clamp(0.0, 1.0)
}

fn seconds(nanos: u128) -> f32 {
    Duration::new((nanos / 1_000_000_000) as u64, (nanos % 1_000_000_000) as u32).as_secs_f32()
}

fn number(formula: &Formula) -> Option<Single> {
    let value = match formula {
        Formula::Number { text } => text.parse::<f32>().ok()?,
        Formula::Thousandth { text } => text.parse::<f32>().ok()? / 1000.0,
        Formula::Millionth { count } => *count as f32 / 1_000_000.0,
        Formula::Share { part, whole } => share(*part, *whole),
        Formula::MeanShare { shares } => {
            let mut sum = 0.0f32;
            for (part, whole) in shares {
                sum += share(*part, *whole);
            }
            sum / shares.len() as f32
        }
        Formula::Percent { part, whole } => (*part as f32 / *whole as f32 * 100.0).min(100.0),
        Formula::Mebibytes { kibibytes } => *kibibytes as f32 / 1024.0,
        Formula::SectorRate { sectors, nanos } => {
            *sectors as f32 * 512.0 / seconds(*nanos) / (1024.0 * 1024.0)
        }
        Formula::ByteRate { bytes, nanos } => *bytes as f32 / seconds(*nanos) / 1024.0,
    };
    Some(single(value))
}

fn frequency(text: &String) -> Option<Megahertz> {
    let mhz = text.parse::<f64>().ok()? / 1_000_000.0;
    Some(Megahertz {
        wide: Double { bits: mhz.to_bits() },
        narrow: single(mhz as f32),
    })
}

fn uptime(text: &String) -> Option<i64> {
    text.parse::<f64>().ok().map(|s| s.floor() as i64)
}

fn settle(draft: &Pending, probe: &FakeProbe) -> Snapshot {
    draft.evaluate(number, frequency, uptime).settle(probe)
}

fn snapshot(probe: &FakeProbe) -> Snapshot {
    settle(&collect_snapshot(probe, &fake_clock()), probe)
}

fn fake_clock() -> Clock {
    Clock::started()
}

fn wait_ms(ms: u64) {
    let start = Instant::now();
    while start.elapsed() < Duration::from_millis(ms) {}
}

/// A probe shaped like a real Pi 500.
fn pi500_probe() -> FakeProbe {
    let probe = FakeProbe::new();
    probe.glob(THERMAL_GLOB, &["/sys/class/thermal/thermal_zone0"]);
    probe.file("/sys/class/thermal/thermal_zone0/temp", "37500\n");
    probe.glob(
        HWMON_GLOB,
        &[
            "/sys/class/hwmon/hwmon0",
            "/sys/class/hwmon/hwmon1",
            "/sys/class/hwmon/hwmon2",
            "/sys/class/hwmon/hwmon3",
        ],
    );
    probe.file("/sys/class/hwmon/hwmon0/name", "cpu_thermal\n");
    probe.file("/sys/class/hwmon/hwmon0/temp1_input", "37500\n");
    probe.file("/sys/class/hwmon/hwmon1/name", "nvme\n");
    probe.file("/sys/class/hwmon/hwmon1/temp1_input", "37850\n");
    probe.file("/sys/class/hwmon/hwmon2/name", "rp1_adc\n");
    probe.file("/sys/class/hwmon/hwmon2/temp1_input", "45594\n");
    probe.file("/sys/class/hwmon/hwmon2/in1_input", "2063\n");
    probe.file("/sys/class/hwmon/hwmon2/in2_input", "2561\n");
    probe.file("/sys/class/hwmon/hwmon2/in3_input", "1445\n");
    probe.file("/sys/class/hwmon/hwmon2/in4_input", "1456\n");
    probe.file("/sys/class/hwmon/hwmon3/name", "rpi_volt\n");
    probe.file("/sys/class/hwmon/hwmon3/in0_lcrit_alarm", "0\n");
    probe.gencmd(&["measure_temp"], "temp=39.5'C");
    probe.gencmd(&["measure_temp", "pmic"], "temp=44.0'C");
    probe.gencmd(&["measure_volts", "core"], "volt=0.8635V");
    probe.gencmd(&["measure_volts", "sdram_c"], "volt=0.6000V");
    probe.gencmd(&["measure_volts", "sdram_p"], "volt=1.1000V");
    probe.gencmd(&["get_throttled"], "throttled=0x0");
    for (domain, hz) in [
        ("arm", "2400000000"),
        ("v3d", "1150000000"),
        ("core", "910000000"),
        ("emmc", "199800000"),
        ("uart", "44000000"),
    ] {
        probe.gencmd(&["measure_clock", domain], &format!("frequency(48)={hz}"));
    }
    probe.file(LOADAVG, "2.10 1.85 1.62 4/1234 5678\n");
    probe.file(UPTIME, "9876.54 38124.10\n");
    probe.file(
        MEMINFO,
        "MemTotal:       15990780 kB\nMemAvailable:   14200000 kB\nBuffers:         200000 kB\nCached:         8000000 kB\nSwapTotal:       2048000 kB\nSwapFree:       1843200 kB\n",
    );
    probe.file(
        "/proc/net/wireless",
        "Inter-| header\nwlan0: 0000   67.  -43.  -256\n",
    );
    probe.file(STAT, "cpu  10 0 10 90 0 0 0\ncpu0 1 0 1 8 0 0 0\ncpu1 2 0 2 6 0 0 0\ncpu2 0 0 0 10 0 0 0\ncpu3 0 0 0 10 0 0 0\n");
    probe.file(
        DISKSTATS,
        " 259        0 nvme0n1 4379 41 273090 2982 631 1053 15534 1494 0 4476 4476 0 0 0 0 0 0\n 259        1 nvme0n1p1 100 0 800 20 5 0 10 5 0 25 25 0 0 0 0 0 0\n",
    );
    probe.file(
        NET_DEV,
        "  eth0: 1000 0 0 0 0 0 0 0 2000 0 0 0 0 0 0 0\n  wlan0: 52428800 0 0 0 0 0 0 0 10485760 0 0 0 0 0 0 0\n",
    );
    probe.glob(
        "/sys/class/regulator/regulator*",
        &[
            "/sys/class/regulator/regulator.1",
            "/sys/class/regulator/regulator.5",
        ],
    );
    probe.file("/sys/class/regulator/regulator.1/name", "3v3\n");
    probe.file("/sys/class/regulator/regulator.1/state", "enabled\n");
    probe.file("/sys/class/regulator/regulator.1/microvolts", "3300000\n");
    probe.file("/sys/class/regulator/regulator.5/name", "vcc-sd\n");
    probe.file("/sys/class/regulator/regulator.5/state", "disabled\n");
    probe
}

#[test]
fn full_pi_snapshot_matches_real_device_shape() {
    let probe = pi500_probe();
    let snap = snapshot(&probe);
    assert_eq!(snap.soc_temp_c, Some(single(37.5)));
    assert_eq!(snap.nvme_temp_c, Some(single(37.85)));
    assert_eq!(snap.rp1_temp_c, Some(single(45.594)));
    assert_eq!(snap.pmic_temp_c, Some(single(44.0)));
    assert_eq!(snap.core_volts, Some(single(0.8635)));
    assert_eq!(snap.sdram_volatile_volts, Some(single(0.6)));
    assert_eq!(snap.sdram_phy_volts, Some(single(1.1)));
    assert_eq!(snap.arm_clock_mhz, Some(single(2400.0)));
    assert_eq!(snap.v3d_clock_mhz, Some(single(1150.0)));
    assert_eq!(snap.core_clock_mhz, Some(single(910.0)));
    assert_eq!(snap.all_clocks_mhz.get("emmc"), Some(&single(199.8)));
    assert_eq!(snap.load_1m, Some(single(2.10)));
    assert_eq!(snap.load_5m, Some(single(1.85)));
    assert_eq!(snap.load_15m, Some(single(1.62)));
    assert_eq!(snap.uptime_secs, Some(9876));
    let mem = snap.memory.unwrap();
    let expected_used_pct = (15990780.0 - 14200000.0) / 15990780.0 * 100.0;
    assert!((float(mem.used_pct) - expected_used_pct).abs() < 0.01);
    assert!((float(mem.total_mib) - 15616.0).abs() < 1.0);
    assert_eq!(mem.swap_used_pct, Some(single(10.0)));
    assert_eq!(snap.rssi_dbm, Some(single(-43.0)));
    assert_eq!(snap.rp1_adc_mv.get(&2), Some(&single(2561.0)));
    assert_eq!(snap.regulators_v.get("3v3"), Some(&single(3.3)));
    assert!(!snap.regulators_v.contains_key("vcc-sd"));
    assert!(!snap.undervolt_alarm);
    assert!(!snap.throttle.any_event());
    assert!(snap.error.is_none());
}

#[test]
fn sweeper_computes_cpu_disk_net_rates() {
    let probe = pi500_probe();
    let mut sweeper = Sweeper::new();
    let draft = sweeper.sweep(&probe, &fake_clock());
    let first = settle(&draft, &probe);
    // First sweep: baseline, no rates yet.
    assert!(first.cores.is_empty());
    assert!(first.disk_io.is_none());
    assert!(first.net_io.is_none());

    // All four cores advance: cpu0 20% busy over the window, the rest
    // fully idle. 990 total ticks on cpu0, 198 busy.
    probe.file(STAT, "cpu  10 0 10 90 0 0 0\ncpu0 100 0 100 800 0 0 0\ncpu1 2 0 2 96 0 0 0\ncpu2 0 0 0 100 0 0 0\ncpu3 0 0 0 100 0 0 0\n");
    probe.file(
        DISKSTATS,
        " 259        0 nvme0n1 4379 41 275136 2982 631 1053 16582 1494 0 4476 4476 0 0 0 0 0 0\n 259        1 nvme0n1p1 100 0 800 20 5 0 10 5 0 25 25 0 0 0 0 0 0\n",
    );
    probe.file(
        NET_DEV,
        "  eth0: 1000 0 0 0 0 0 0 0 2000 0 0 0 0 0 0 0\n  wlan0: 53477376 0 0 0 0 0 0 0 11534336 0 0 0 0 0 0 0\n",
    );
    let draft = sweeper.sweep(&probe, &fake_clock());
    let second = settle(&draft, &probe);
    assert_eq!(second.cores.len(), 4);
    assert!((float(second.cores[0].utilization) - 198.0 / 990.0).abs() < 1e-5);
    let util = float(second.utilization_pct.expect("aggregate utilization"));
    // Only cpu0 is busy: 0.2 averaged over 4 cores.
    assert!((util - 198.0 / 990.0 / 4.0).abs() < 1e-5, "util {util}");
    let disk = second.disk_io.expect("disk rates after delta");
    assert!(float(disk.read_mib_s) > 0.0 && float(disk.write_mib_s) > 0.0);
    let net = second.net_io.expect("net rates after delta");
    // 1 MiB received, 1 MiB transmitted.
    assert!(float(net.rx_kib_s) > 0.0 && float(net.tx_kib_s) > 0.0);
}

#[test]
fn undervolt_alarm_is_flagged() {
    let probe = FakeProbe::new();
    probe.file("/sys/class/hwmon/hwmon0/name", "rpi_volt\n");
    probe.file("/sys/class/hwmon/hwmon0/in0_lcrit_alarm", "1\n");
    probe.glob(HWMON_GLOB, &["/sys/class/hwmon/hwmon0"]);
    probe.gencmd(&["measure_temp"], "temp=39.5'C");
    let snap = snapshot(&probe);
    assert!(snap.undervolt_alarm);
}

#[test]
fn extra_zones_are_labeled_by_type() {
    let probe = FakeProbe::new();
    probe.glob(
        THERMAL_GLOB,
        &[
            "/sys/class/thermal/thermal_zone0",
            "/sys/class/thermal/thermal_zone1",
        ],
    );
    probe.file("/sys/class/thermal/thermal_zone0/temp", "48000");
    probe.file("/sys/class/thermal/thermal_zone1/temp", "51000");
    probe.file("/sys/class/thermal/thermal_zone1/type", "hat-temps");
    probe.gencmd(&["measure_temp"], "temp=48.0'C");
    let snap = snapshot(&probe);
    assert_eq!(snap.soc_temp_c, Some(single(48.0)));
    assert_eq!(snap.extra_zones_c.get("hat-temps"), Some(&single(51.0)));
    assert_eq!(snap.max_temp_c(), Some(single(51.0)));
}

#[test]
fn missing_vcgencmd_yields_error() {
    let probe = FakeProbe::new();
    let snap = snapshot(&probe);
    assert!(snap.soc_temp_c.is_none());
    assert_eq!(
        snap.error.as_deref(),
        Some("vcgencmd not found at /usr/bin/vcgencmd")
    );
}

#[test]
fn throttle_history_is_parsed() {
    let probe = FakeProbe::new();
    probe.gencmd(&["measure_temp"], "temp=39.5'C");
    probe.gencmd(&["get_throttled"], "throttled=0x30001");
    let snap = snapshot(&probe);
    assert!(snap.throttle.undervolted_now);
    assert!(snap.throttle.freq_capped_past);
    assert!(snap.throttle.any_event());
}

#[test]
fn tool_without_a_temperature_is_another_error() {
    let probe = FakeProbe::new();
    probe.gencmd(&["measure_temp"], "unknown command");
    let snap = snapshot(&probe);
    assert_eq!(
        snap.error.as_deref(),
        Some("no thermal zones or firmware sensors found")
    );
    // One temperature of the board is enough, and an NVMe one is none.
    probe.gencmd(&["measure_temp", "pmic"], "temp=44.0'C");
    assert_eq!(snapshot(&probe).error, None);
    let disk = FakeProbe::new();
    disk.glob(HWMON_GLOB, &["/sys/class/hwmon/hwmon0"]);
    disk.file("/sys/class/hwmon/hwmon0/name", "nvme");
    disk.file("/sys/class/hwmon/hwmon0/temp1_input", "37850");
    let snap = snapshot(&disk);
    assert_eq!(snap.nvme_temp_c, Some(single(37.85)));
    assert!(snap.error.is_some());
}

#[test]
fn kernel_temperature_wins_over_firmware() {
    let probe = FakeProbe::new();
    probe.gencmd(&["measure_temp"], "temp=39.5'C");
    assert_eq!(snapshot(&probe).soc_temp_c, Some(single(39.5)));
    probe.glob(THERMAL_GLOB, &["/z0", "/z1", "/z2"]);
    probe.file("/z0/temp", "40000");
    probe.file("/z1/temp", "41000");
    probe.file("/z2/temp", "junk");
    probe.file("/z2/type", "broken");
    let snap = snapshot(&probe);
    assert_eq!(snap.soc_temp_c, Some(single(40.0)));
    // A zone without a type goes by its number; one without a number is none.
    assert_eq!(snap.extra_zones_c.get("zone1"), Some(&single(41.0)));
    assert_eq!(snap.extra_zones_c.len(), 1);
    // Without the first zone's file the firmware is asked again.
    probe.file("/z0/temp", "");
    assert_eq!(snapshot(&probe).soc_temp_c, Some(single(39.5)));
}

#[test]
fn swapped_devices_have_no_rate() {
    let probe = pi500_probe();
    let mut sweeper = Sweeper::default();
    sweeper.sweep(&probe, &fake_clock());
    probe.file(DISKSTATS, " 179 0 mmcblk0 1 2 999999999 4 5 6 999999999 8\n");
    probe.file(NET_DEV, " wlp1s0: 999999999 0 0 0 0 0 0 0 999999999\n");
    let draft = sweeper.sweep(&probe, &fake_clock());
    assert!(draft.disk_io.is_none() && draft.net_io.is_none());
    // No core ticked, so none was busy and there is no mean.
    let idle = settle(&draft, &probe);
    assert_eq!(idle.cores, vec![CoreState { utilization: single(0.0) }; 4]);
    assert_eq!(idle.utilization_pct, None);
    // The next sweep has a baseline again; a counter that went backwards gained
    // nothing.
    probe.file(DISKSTATS, " 179 0 mmcblk0 1 2 5 4 5 6 1000000001 8\n");
    let draft = sweeper.sweep(&probe, &fake_clock());
    let disk = draft.disk_io.expect("rate of the new disk");
    assert!(matches!(disk.read_mib_s, Formula::SectorRate { sectors: 0, nanos } if nanos > 0));
    assert!(matches!(disk.write_mib_s, Formula::SectorRate { sectors: 2, .. }));
    assert!(draft.net_io.is_some());
}

#[test]
fn every_core_keeps_its_place() {
    let probe = FakeProbe::new();
    probe.file(STAT, "cpu0 1 0 1 8\ncpu1 0 0 0 10\n");
    let mut sweeper = Sweeper::new();
    sweeper.sweep(&probe, &fake_clock());
    // The first core did not tick.
    probe.file(STAT, "cpu0 1 0 1 8\ncpu1 10 0 0 10\ncpu2 5 0 0 5\n");
    let draft = sweeper.sweep(&probe, &fake_clock());
    let second = settle(&draft, &probe);
    assert_eq!(second.cores.len(), 2);
    assert_eq!(second.cores[0].utilization, single(0.0));
    assert_eq!(second.cores[1].utilization, single(1.0));
    // The mean is over the cores that ticked.
    assert_eq!(second.utilization_pct, Some(single(1.0)));
}

#[test]
fn a_missed_count_keeps_its_time() {
    let line = |sectors: u64| format!("8 0 nvme0n1 1 2 {sectors} 4 5 6 {sectors} 8\n");
    let texts = |disk: Option<String>| CounterTexts { stat: None, diskstats: disk, net_dev: None };
    let start = Instant::now();
    let at = |ms: u64| start + Duration::from_millis(ms);
    let mut sweeper = Sweeper::new();
    assert!(sweeper.advance(&texts(Some(line(1000))), at(0)).disk_io.is_none());
    assert!(sweeper.advance(&texts(None), at(1000)).disk_io.is_none());
    let io = sweeper.advance(&texts(Some(line(5096))), at(2000)).disk_io.expect("a rate");
    // 4096 sectors in two seconds.
    assert_eq!(number(&io.read_mib_s), Some(single(1.0)));
    assert!(matches!(io.write_mib_s, Formula::SectorRate { nanos: 2_000_000_000, .. }));
    // No time passed.
    assert!(sweeper.advance(&texts(Some(line(6000))), at(2000)).disk_io.is_none());
}

#[test]
fn rates_of_single_counts() {
    let start = Instant::now();
    let later = start + Duration::from_secs(1);
    let mut sweeper = Sweeper::new();
    assert!(sweeper.rate_disk("nvme0n1", 10, 20, start).is_none());
    assert!(sweeper.rate_net("wlan0", 10, 20, start).is_none());
    let io = sweeper.rate_disk("nvme0n1", 2058, 5, later).expect("a rate");
    assert_eq!(number(&io.read_mib_s), Some(single(1.0)));
    assert_eq!(number(&io.write_mib_s), Some(single(0.0)));
    assert!(sweeper.rate_disk("mmcblk0", 1, 1, later).is_none());
    assert!(sweeper.rate_disk("nvme0n1", 3000, 30, later + Duration::from_secs(1)).is_none());
    let io = sweeper.rate_net("wlan0", 1034, 20, later).expect("a rate");
    assert_eq!(number(&io.rx_kib_s), Some(single(1.0)));
}

#[test]
fn rates_have_exact_values() {
    // 2048 sectors in one second are 1 MiB/s, 1024 bytes 1 KiB/s.
    let second: u128 = 1_000_000_000;
    assert_eq!(
        number(&Formula::SectorRate { sectors: 2048, nanos: second }),
        Some(single(1.0))
    );
    assert_eq!(
        number(&Formula::ByteRate { bytes: 1024, nanos: second / 2 }),
        Some(single(2.0))
    );
    assert_eq!(
        number(&Formula::MeanShare { shares: vec![(1, 2), (0, 9)] }),
        Some(single(0.25))
    );
}

#[test]
fn clocks_that_make_no_sense_are_left_out() {
    let probe = FakeProbe::new();
    probe.gencmd(&["measure_clock", "arm"], "frequency(48)=-1");
    probe.gencmd(&["measure_clock", "core"], "frequency(1)=inf");
    probe.gencmd(&["measure_clock", "v3d"], " 500000000 ");
    probe.gencmd(&["measure_clock", "uart"], "frequency(22)=soon");
    let snap = snapshot(&probe);
    assert_eq!(snap.arm_clock_mhz, None);
    assert_eq!(snap.core_clock_mhz, None);
    assert_eq!(snap.v3d_clock_mhz, Some(single(500.0)));
    assert_eq!(snap.all_clocks_mhz.len(), 1);
}

#[test]
fn regulators_need_state_name_and_voltage() {
    let probe = FakeProbe::new();
    probe.glob("/sys/class/regulator/regulator*", &["/r0", "/r1", "/r2", "/r3"]);
    for (dir, name, uv) in [
        ("/r0", "a", "0"),
        ("/r1", " ", "5000000"),
        ("/r2", "b", "1800000"),
        ("/r3", "c", "-1"),
    ] {
        probe.file(&format!("{dir}/state"), "enabled\n");
        probe.file(&format!("{dir}/name"), name);
        probe.file(&format!("{dir}/microvolts"), uv);
    }
    let snap = snapshot(&probe);
    assert_eq!(snap.regulators_v.len(), 1);
    assert_eq!(snap.regulators_v.name(0), "b");
    assert_eq!(*snap.regulators_v.value(0), single(1.8));
}

#[test]
fn the_clock_runs() {
    let clock = Clock::started();
    wait_ms(30);
    let elapsed = clock.elapsed_ms();
    assert!(clock.elapsed_ms() >= elapsed);
    assert!((30..10_000).contains(&elapsed), "{elapsed}");
    let draft = collect_snapshot(&FakeProbe::new(), &clock);
    assert!(draft.elapsed_ms >= 30);
}

#[test]
fn elapsed_time_is_the_base_of_rates() {
    let probe = pi500_probe();
    let mut sweeper = Sweeper::new();
    sweeper.sweep(&probe, &fake_clock());
    wait_ms(20);
    let draft = sweeper.sweep(&probe, &fake_clock());
    match draft.disk_io {
        Some(io) => match io.read_mib_s {
            Formula::SectorRate { sectors, nanos } => {
                assert_eq!(sectors, 0);
                assert!((20_000_000..10_000_000_000).contains(&nanos), "{nanos}");
            }
            other => panic!("{other:?}"),
        },
        None => panic!("no rate"),
    }
}

#[test]
fn only_a_raspberry_pi_is_supported() {
    let probe = FakeProbe::new();
    assert!(!SystemProbe::new().device_supported(&probe));
    probe.file("/proc/device-tree/model", "Raspberry Pi 500 Rev 1.0\0");
    assert!(SystemProbe::new().device_supported(&probe));
    probe.file("/proc/device-tree/model", "Orange Pi 5");
    assert!(!SystemProbe::new().device_supported(&probe));
}

#[test]
fn one_clock_domain_is_asked_by_name() {
    let probe = pi500_probe();
    assert_eq!(clock_mhz(&probe, "arm").as_deref(), Some("2400000000"));
    assert_eq!(clock_mhz(&probe, "hdmi"), None);
    let asked = parse_all_clocks(&probe, &["uart", "hdmi", "arm"]);
    let names: Vec<&str> = asked.iter().map(|(name, _)| name.as_str()).collect();
    assert_eq!(names, ["uart", "arm"]);
}
