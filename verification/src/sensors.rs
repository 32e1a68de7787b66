//! Parsing of the sensor texts of the Raspberry Pi 5 family (BCM2712).
//!
//! Sources:
//! - `/sys/class/thermal` glob: CPU/SoC temperature zones (zone0 = cpu-thermal)
//! - `/sys/class/hwmon` glob: NVMe composite temp, RP1 ADC millivolt inputs
//!   and die temp, plus the firmware undervoltage alarm on `rpi_volt`
//! - `vcgencmd`: PMIC temp, core/SDRAM voltages, clock domains, throttle bitmask
//! - `/proc`: load, memory, uptime, processor ticks, disk and network counters

use vstd::prelude::*;
use vstd::string::StrSliceExecFns;

use crate::formula::{numbers, term, terms, Formula, Term};
use crate::single::Single;
use crate::text::{
    before_mark, begins, digit, has_char, head, is_digit, lemma_narrowed_chars,
    lemma_narrowed_trim, lemma_span, lines, narrow, narrow_digit, narrowed, parse_u64, parted,
    same, span, split_lines, split_once, split_words, starts_with, strip_prefix, stripped, trim,
    trim_unit, trimmed, u64_of, views, without_index, without_unit, words,
};

verus! {

/// Where the standard probe looks on a real system.
pub const VCGENCMD: &'static str = "/usr/bin/vcgencmd";

pub const THERMAL_GLOB: &'static str = "/sys/class/thermal/thermal_zone*";

pub const HWMON_GLOB: &'static str = "/sys/class/hwmon/hwmon*";

pub const REGULATOR_GLOB: &'static str = "/sys/class/regulator/regulator*";

pub const LOADAVG: &'static str = "/proc/loadavg";

pub const MEMINFO: &'static str = "/proc/meminfo";

pub const STAT: &'static str = "/proc/stat";

pub const UPTIME: &'static str = "/proc/uptime";

pub const DISKSTATS: &'static str = "/proc/diskstats";

pub const NET_DEV: &'static str = "/proc/net/dev";

pub const WIRELESS: &'static str = "/proc/net/wireless";

pub const DEVICE_MODEL: &'static str = "/proc/device-tree/model";

/// The first line for which `pick` yields something, and what it yields.
pub open spec fn find_line<T>(
    ls: Seq<Seq<char>>,
    pick: spec_fn(Seq<char>) -> Option<T>,
) -> Option<T>
    decreases ls.len(),
{
    if ls.len() == 0 {
        None
    } else {
        match pick(ls[0]) {
            Some(found) => Some(found),
            None => find_line(ls.drop_first(), pick),
        }
    }
}

/// The first word of a text.
pub open spec fn first_word(s: Seq<char>) -> Option<Seq<char>> {
    if words(s).len() > 0 {
        Some(words(s)[0])
    } else {
        None
    }
}

/// The words that are unsigned numbers, in their order; the others are left
/// out.
pub open spec fn counters(ws: Seq<Seq<char>>) -> Seq<u64>
    decreases ws.len(),
{
    if ws.len() == 0 {
        seq![]
    } else {
        match u64_of(ws.last()) {
            Some(n) => counters(ws.drop_last()).push(n),
            None => counters(ws.drop_last()),
        }
    }
}

/// The number text in an answer such as `temp=39.5'C`: what follows the prefix,
/// up to its last digit or point.
pub open spec fn gencmd_number(output: Seq<char>, prefix: Seq<char>) -> Option<Seq<char>> {
    match strip_prefix(trim(output), prefix) {
        Some(value) => Some(trim_unit(value)),
        None => None,
    }
}

/// The number text in a temperature answer, whose digits may be of either width,
/// with its digits in ASCII.
pub open spec fn temp_number(output: Seq<char>) -> Option<Seq<char>> {
    match strip_prefix(trim(output), "temp="@) {
        Some(value) => Some(trim_unit(narrowed(value))),
        None => None,
    }
}

/// Reads `vcgencmd measure_temp` output, `temp=39.5'C`, also matching the
/// `measure_temp pmic` variant and CJK-locale digits.
pub fn parse_gencmd_temp(output: &str) -> (r: Option<Formula>)
    ensures
        term(r) == match temp_number(output@) {
            Some(text) => Some(Term::Number(text)),
            None => None,
        },
{
    match stripped(trimmed(output), "temp=") {
        Some(value) => {
            let number = narrow(value);
            Some(Formula::Number { text: without_unit(number.as_str()).to_owned() })
        },
        None => None,
    }
}

/// Reads `volt=0.8635V` style output.
pub fn parse_gencmd_value(output: &str, prefix: &str) -> (r: Option<Formula>)
    ensures
        term(r) == match gencmd_number(output@, prefix@) {
            Some(text) => Some(Term::Number(text)),
            None => None,
        },
{
    match stripped(trimmed(output), prefix) {
        Some(value) => Some(Formula::Number { text: without_unit(value).to_owned() }),
        None => None,
    }
}

/// Reads one sysfs temperature file in millidegrees (`37500` = 37.5 C).
pub fn parse_millidegrees(raw: &str) -> (r: Formula)
    ensures
        r@ == Term::Thousandth(trim(raw@)),
{
    Formula::Thousandth { text: trimmed(raw).to_owned() }
}

/// What a line says of a `/proc/meminfo` key: nothing, or a count in kB that may
/// be unreadable.
pub open spec fn meminfo_line(key: Seq<char>) -> spec_fn(Seq<char>) -> Option<Option<u64>> {
    |line: Seq<char>|
        match split_once(line, ':') {
            Some(parts) => if trim(parts.0) == key {
                Some(
                    match first_word(parts.1) {
                        Some(word) => u64_of(word),
                        None => None,
                    },
                )
            } else {
                None
            },
            None => None,
        }
}

/// The count of the first line with the key.
pub open spec fn meminfo_kb(raw: Seq<char>, key: Seq<char>) -> Option<u64> {
    match find_line(lines(raw), meminfo_line(key)) {
        Some(count) => count,
        None => None,
    }
}

fn first_counter(s: &str) -> (r: Option<u64>)
    ensures
        r == match first_word(s@) {
            Some(word) => u64_of(word),
            None => None,
        },
{
    let ws = split_words(s);
    assert(words(s@) == views(ws@));
    if ws.len() > 0 {
        parse_u64(ws[0])
    } else {
        None
    }
}

/// Reads a `MemTotal`/`MemAvailable` line in kB.
pub fn parse_meminfo_kb(raw: &str, key: &str) -> (r: Option<u64>)
    ensures
        r == meminfo_kb(raw@, key@),
{
    let ls = split_lines(raw);
    let ghost all = lines(raw@);
    let ghost pick = meminfo_line(key@);
    let mut i: usize = 0;
    assert(all.skip(0) == all);
    while i < ls.len()
        invariant
            i <= ls@.len(),
            all == views(ls@),
            all == lines(raw@),
            pick == meminfo_line(key@),
            find_line(all, pick) == find_line(all.skip(i as int), pick),
        decreases ls@.len() - i,
    {
        assert(all.skip(i as int).drop_first() == all.skip(i + 1));
        assert(all.skip(i as int)[0] == ls@[i as int]@);
        match parted(ls[i], ':') {
            Some((name, rest)) => {
                if same(trimmed(name), key) {
                    return first_counter(rest);
                }
            },
            None => {},
        }
        i = i + 1;
    }
    None
}

/// Reads the first load average out of `/proc/loadavg`.
pub fn parse_loadavg(raw: &str) -> (r: Option<Formula>)
    ensures
        term(r) == match first_word(raw@) {
            Some(word) => Some(Term::Number(word)),
            None => None,
        },
{
    let ws = split_words(raw);
    assert(words(raw@) == views(ws@));
    if ws.len() > 0 {
        Some(Formula::Number { text: ws[0].to_owned() })
    } else {
        None
    }
}

/// Every word of a text as a number to be evaluated.
pub fn word_numbers(raw: &str) -> (r: Vec<Formula>)
    ensures
        terms(r@) == numbers(words(raw@)),
{
    let ws = split_words(raw);
    let mut out: Vec<Formula> = Vec::new();
    let mut i: usize = 0;
    while i < ws.len()
        invariant
            i <= ws@.len(),
            out@.len() == i,
            forall|k: int| 0 <= k < i ==> (#[trigger] out@[k])@ == Term::Number(ws@[k]@),
        decreases ws@.len() - i,
    {
        out.push(Formula::Number { text: ws[i].to_owned() });
        i = i + 1;
    }
    assert(terms(out@) == numbers(views(ws@)));
    out
}

/// The candidates for the dBm level in one `/proc/net/wireless` data line,
/// `wlan0: 0000  67.  -43.  -256 ...`: its words as numbers. The level is the
/// first of them below zero, which [`first_below_zero`] picks.
pub fn parse_rssi_dbm(raw: &str) -> (r: Vec<Formula>)
    ensures
        terms(r@) == numbers(words(raw@)),
{
    word_numbers(raw)
}

/// The first value below zero; what is no number does not count.
pub open spec fn below_zero_in(values: Seq<Option<Single>>) -> Option<Single>
    decreases values.len(),
{
    if values.len() == 0 {
        None
    } else {
        match values[0] {
            Some(v) => if v.below_zero() {
                Some(v)
            } else {
                below_zero_in(values.drop_first())
            },
            None => below_zero_in(values.drop_first()),
        }
    }
}

/// Picks the first value below zero.
pub fn first_below_zero(values: &Vec<Option<Single>>) -> (r: Option<Single>)
    ensures
        r == below_zero_in(values@),
{
    let mut i: usize = 0;
    assert(values@.skip(0) == values@);
    while i < values.len()
        invariant
            i <= values@.len(),
            below_zero_in(values@) == below_zero_in(values@.skip(i as int)),
        decreases values@.len() - i,
    {
        assert(values@.skip(i as int).drop_first() == values@.skip(i + 1));
        if let Some(v) = values[i] {
            if v.is_below_zero() {
                return Some(v);
            }
        }
        i = i + 1;
    }
    None
}

/// A value, unless it is infinite or not a number.
pub open spec fn finite_value(value: Option<Single>) -> Option<Single> {
    match value {
        Some(v) => if v.finite() {
            Some(v)
        } else {
            None
        },
        None => None,
    }
}

/// Drops a firmware value that is infinite or not a number.
pub fn finite_only(value: Option<Single>) -> (r: Option<Single>)
    ensures
        r == finite_value(value),
{
    match value {
        Some(v) => if v.is_finite() {
            Some(v)
        } else {
            None
        },
        None => None,
    }
}

/// The text of the seconds since boot in `/proc/uptime`; the first field is a
/// fraction, whose whole part [`whole_seconds`] takes.
pub fn parse_uptime_secs(raw: &str) -> (r: Option<String>)
    ensures
        match first_word(raw@) {
            Some(word) => r is Some && (r->0)@ == word,
            None => r is None,
        },
{
    let ws = split_words(raw);
    assert(words(raw@) == views(ws@));
    if ws.len() > 0 {
        Some(ws[0].to_owned())
    } else {
        None
    }
}

/// The seconds since boot, rounded down; a time before boot is none.
pub open spec fn seconds_from(floor: i64) -> Option<u64> {
    if floor >= 0 {
        Some(floor as u64)
    } else {
        None
    }
}

/// Takes the rounded-down seconds since boot.
pub fn whole_seconds(floor: i64) -> (r: Option<u64>)
    ensures
        r == seconds_from(floor),
{
    if floor >= 0 {
        Some(floor as u64)
    } else {
        None
    }
}

/// Raw CPU tick counters for one core, from `/proc/stat`.
#[derive(Debug, Clone, Copy, Default, PartialEq, Eq, Structural)]
pub struct CpuTimes {
    pub idle: u64,
    pub total: u64,
}

/// The sum of a list of counters.
pub open spec fn total_of(nums: Seq<u64>) -> nat
    decreases nums.len(),
{
    if nums.len() == 0 {
        0
    } else {
        total_of(nums.drop_last()) + nums.last() as nat
    }
}

/// What a 64-bit counter shows of a sum.
pub open spec fn wrapped(n: nat) -> u64 {
    (n % 0x1_0000_0000_0000_0000) as u64
}

/// The words of a text that are unsigned numbers.
pub fn parse_counters(s: &str) -> (r: Vec<u64>)
    ensures
        r@ == counters(words(s@)),
{
    let ws = split_words(s);
    let ghost all = words(s@);
    let mut out: Vec<u64> = Vec::new();
    let mut i: usize = 0;
    while i < ws.len()
        invariant
            i <= ws@.len(),
            all == views(ws@),
            out@ == counters(all.take(i as int)),
        decreases ws@.len() - i,
    {
        assert(all.take(i + 1).drop_last() == all.take(i as int));
        if let Some(n) = parse_u64(ws[i]) {
            out.push(n);
        }
        i = i + 1;
    }
    assert(all.take(i as int) == all);
    out
}

impl CpuTimes {
    /// The counters of a `/proc/stat` cpu line without its name: user nice
    /// system idle iowait irq softirq steal and so on. Waiting for a device
    /// counts as idle, and the sums wrap like the counters they are made of.
    pub open spec fn of_fields(fields: Seq<char>) -> Option<CpuTimes> {
        let nums = counters(words(fields));
        if nums.len() < 4 {
            None
        } else {
            Some(
                CpuTimes {
                    idle: wrapped(
                        (nums[3] + (if nums.len() > 4 {
                            nums[4] as int
                        } else {
                            0
                        })) as nat,
                    ),
                    total: wrapped(total_of(nums)),
                },
            )
        }
    }

    /// The busy ticks between two samples: those that were not idle, or none
    /// where more ticks were idle than passed.
    pub open spec fn busy_since(self, prev: CpuTimes) -> nat {
        let total = self.total - prev.total;
        let idle = self.idle - prev.idle;
        if idle <= total {
            (total - idle) as nat
        } else {
            0
        }
    }

    /// The busy share between two samples. Where no tick passed, or a counter
    /// went backwards, there is none.
    pub open spec fn share_since(self, prev: CpuTimes) -> Option<(u64, u64)> {
        if self.total <= prev.total || self.idle < prev.idle {
            None
        } else {
            Some((self.busy_since(prev) as u64, (self.total - prev.total) as u64))
        }
    }

    /// Reads a `/proc/stat` cpu line; the `cpuN ` name is already split off.
    pub fn parse(fields: &str) -> (r: Option<CpuTimes>)
        ensures
            r == CpuTimes::of_fields(fields@),
    {
        let nums = parse_counters(fields);
        if nums.len() < 4 {
            return None;
        }
        let waiting: u64 = if nums.len() > 4 {
            nums[4]
        } else {
            0
        };
        let idle = nums[3].wrapping_add(waiting);
        let mut total: u64 = 0;
        let mut i: usize = 0;
        while i < nums.len()
            invariant
                i <= nums@.len(),
                total == wrapped(total_of(nums@.take(i as int))),
            decreases nums@.len() - i,
        {
            assert(nums@.take(i + 1).drop_last() == nums@.take(i as int));
            total = total.wrapping_add(nums[i]);
            i = i + 1;
        }
        assert(nums@.take(i as int) == nums@);
        Some(CpuTimes { idle, total })
    }

    /// The utilization between two samples.
    pub fn utilization_since(&self, prev: &CpuTimes) -> (r: Option<Formula>)
        ensures
            term(r) == match self.share_since(*prev) {
                Some(share) => Some(Term::Share(share.0, share.1)),
                None => None,
            },
    {
        match self.busy_share(prev) {
            Some((part, whole)) => Some(Formula::Share { part, whole }),
            None => None,
        }
    }

    /// The busy ticks between two samples and the ticks that passed.
    pub fn busy_share(&self, prev: &CpuTimes) -> (r: Option<(u64, u64)>)
        ensures
            r == self.share_since(*prev),
    {
        if self.total <= prev.total || self.idle < prev.idle {
            return None;
        }
        let total = self.total - prev.total;
        let idle = self.idle - prev.idle;
        Some((total.saturating_sub(idle), total))
    }
}

/// A utilization lies between zero and one: the busy ticks are some of the
/// ticks that passed, and ticks did pass.
pub proof fn law_share_of_a_whole(next: CpuTimes, prev: CpuTimes)
    ensures
        next.share_since(prev) matches Some(share) ==> share.0 <= share.1 && share.1 > 0,
        next.share_since(next) is None,
{
}

/// The counters that a `/proc/stat` line holds for one core. The `cpu` line
/// without a number is the aggregate and holds none.
pub open spec fn core_line(line: Seq<char>) -> Option<CpuTimes> {
    match strip_prefix(line, "cpu"@) {
        Some(rest) => if span(rest, digit()) > 0 {
            CpuTimes::of_fields(rest.skip(span(rest, digit()) as int))
        } else {
            None
        },
        None => None,
    }
}

/// The counters of the cores, in the order of their lines.
pub open spec fn core_times(ls: Seq<Seq<char>>) -> Seq<CpuTimes>
    decreases ls.len(),
{
    if ls.len() == 0 {
        seq![]
    } else {
        match core_line(ls.last()) {
            Some(times) => core_times(ls.drop_last()).push(times),
            None => core_times(ls.drop_last()),
        }
    }
}

fn parse_core_line(line: &str) -> (r: Option<CpuTimes>)
    ensures
        r == core_line(line@),
{
    match stripped(line, "cpu") {
        Some(rest) => {
            let fields = without_index(rest);
            if fields.unicode_len() < rest.unicode_len() {
                CpuTimes::parse(fields)
            } else {
                None
            }
        },
        None => None,
    }
}

/// Per-core tick counters from `/proc/stat`, skipping the `cpu` aggregate line.
/// The order matches `cpu0`, `cpu1`, ...
pub fn parse_core_times(raw: &str) -> (r: Vec<CpuTimes>)
    ensures
        r@ == core_times(lines(raw@)),
{
    let ls = split_lines(raw);
    let ghost all = lines(raw@);
    let mut out: Vec<CpuTimes> = Vec::new();
    let mut i: usize = 0;
    while i < ls.len()
        invariant
            i <= ls@.len(),
            all == views(ls@),
            out@ == core_times(all.take(i as int)),
        decreases ls@.len() - i,
    {
        assert(all.take(i + 1).drop_last() == all.take(i as int));
        if let Some(times) = parse_core_line(ls[i]) {
            out.push(times);
        }
        i = i + 1;
    }
    assert(all.take(i as int) == all);
    out
}

/// What a `/proc/diskstats` line says of a device: nothing, or its sectors read
/// and written, which may be unreadable.
pub open spec fn diskstats_line(device: Seq<char>) -> spec_fn(Seq<char>) -> Option<
    Option<(u64, u64)>,
> {
    |line: Seq<char>|
        {
            let fields = words(line);
            if fields.len() > 2 && fields[2] == device {
                Some(
                    if fields.len() > 9 {
                        match (u64_of(fields[5]), u64_of(fields[9])) {
                            (Some(read), Some(written)) => Some((read, written)),
                            _ => None,
                        }
                    } else {
                        None
                    },
                )
            } else {
                None
            }
        }
}

/// The sectors of the first line of the device.
pub open spec fn diskstats_sectors(raw: Seq<char>, device: Seq<char>) -> Option<(u64, u64)> {
    match find_line(lines(raw), diskstats_line(device)) {
        Some(sectors) => sectors,
        None => None,
    }
}

/// (`sectors_read`, `sectors_written`) for one disk from `/proc/diskstats`.
/// Partition lines (`nvme0n1p1`) are skipped; only the whole device.
pub fn parse_diskstats_sectors(raw: &str, device: &str) -> (r: Option<(u64, u64)>)
    ensures
        r == diskstats_sectors(raw@, device@),
{
    let ls = split_lines(raw);
    let ghost all = lines(raw@);
    let ghost pick = diskstats_line(device@);
    let mut i: usize = 0;
    assert(all.skip(0) == all);
    while i < ls.len()
        invariant
            i <= ls@.len(),
            all == views(ls@),
            all == lines(raw@),
            pick == diskstats_line(device@),
            find_line(all, pick) == find_line(all.skip(i as int), pick),
        decreases ls@.len() - i,
    {
        assert(all.skip(i as int).drop_first() == all.skip(i + 1));
        assert(all.skip(i as int)[0] == ls@[i as int]@);
        let fields = split_words(ls[i]);
        assert(words(ls@[i as int]@) == views(fields@));
        if fields.len() > 2 && same(fields[2], device) {
            if fields.len() <= 9 {
                return None;
            }
            return match (parse_u64(fields[5]), parse_u64(fields[9])) {
                (Some(read), Some(written)) => Some((read, written)),
                _ => None,
            };
        }
        i = i + 1;
    }
    None
}

/// A device name that is a whole NVMe or MMC device, not a partition.
pub open spec fn whole_disk(name: Seq<char>) -> bool {
    (starts_with(name, "nvme"@) || starts_with(name, "mmcblk"@)) && !name.contains('p')
}

pub open spec fn primary_disk_line() -> spec_fn(Seq<char>) -> Option<Seq<char>> {
    |line: Seq<char>|
        {
            let fields = words(line);
            if fields.len() > 2 && whole_disk(fields[2]) {
                Some(fields[2])
            } else {
                None
            }
        }
}

/// The first whole disk.
pub open spec fn primary_disk(raw: Seq<char>) -> Option<Seq<char>> {
    find_line(lines(raw), primary_disk_line())
}

/// Picks the primary disk name from `/proc/diskstats`: the first line whose
/// device looks like a whole NVMe or MMC device, not a partition.
pub fn parse_primary_disk(raw: &str) -> (r: Option<String>)
    ensures
        match primary_disk(raw@) {
            Some(name) => r is Some && (r->0)@ == name,
            None => r is None,
        },
{
    let ls = split_lines(raw);
    let ghost all = lines(raw@);
    let ghost pick = primary_disk_line();
    let mut i: usize = 0;
    assert(all.skip(0) == all);
    while i < ls.len()
        invariant
            i <= ls@.len(),
            all == views(ls@),
            all == lines(raw@),
            pick == primary_disk_line(),
            find_line(all, pick) == find_line(all.skip(i as int), pick),
        decreases ls@.len() - i,
    {
        assert(all.skip(i as int).drop_first() == all.skip(i + 1));
        assert(all.skip(i as int)[0] == ls@[i as int]@);
        let fields = split_words(ls[i]);
        assert(words(ls@[i as int]@) == views(fields@));
        if fields.len() > 2 {
            let name = fields[2];
            if (begins(name, "nvme") || begins(name, "mmcblk")) && !has_char(name, 'p') {
                return Some(name.to_owned());
            }
        }
        i = i + 1;
    }
    None
}

/// What a `/proc/net/dev` line says of an interface: nothing, or its bytes
/// received and sent, which may be missing.
pub open spec fn net_dev_line(iface: Seq<char>) -> spec_fn(Seq<char>) -> Option<
    Option<(u64, u64)>,
> {
    |line: Seq<char>|
        match split_once(line, ':') {
            Some(parts) => if trim(parts.0) == iface {
                let nums = counters(words(parts.1));
                Some(
                    if nums.len() > 8 {
                        Some((nums[0], nums[8]))
                    } else {
                        None
                    },
                )
            } else {
                None
            },
            None => None,
        }
}

/// The bytes of the first line of the interface.
pub open spec fn net_dev_bytes(raw: Seq<char>, iface: Seq<char>) -> Option<(u64, u64)> {
    match find_line(lines(raw), net_dev_line(iface)) {
        Some(bytes) => bytes,
        None => None,
    }
}

/// (`rx_bytes`, `tx_bytes`) for one interface from `/proc/net/dev`.
pub fn parse_net_dev_bytes(raw: &str, iface: &str) -> (r: Option<(u64, u64)>)
    ensures
        r == net_dev_bytes(raw@, iface@),
{
    let ls = split_lines(raw);
    let ghost all = lines(raw@);
    let ghost pick = net_dev_line(iface@);
    let mut i: usize = 0;
    assert(all.skip(0) == all);
    while i < ls.len()
        invariant
            i <= ls@.len(),
            all == views(ls@),
            all == lines(raw@),
            pick == net_dev_line(iface@),
            find_line(all, pick) == find_line(all.skip(i as int), pick),
        decreases ls@.len() - i,
    {
        assert(all.skip(i as int).drop_first() == all.skip(i + 1));
        assert(all.skip(i as int)[0] == ls@[i as int]@);
        match parted(ls[i], ':') {
            Some((name, rest)) => {
                if same(trimmed(name), iface) {
                    let nums = parse_counters(rest);
                    if nums.len() > 8 {
                        return Some((nums[0], nums[8]));
                    }
                    return None;
                }
            },
            None => {},
        }
        i = i + 1;
    }
    None
}

pub open spec fn wireless_line() -> spec_fn(Seq<char>) -> Option<Seq<char>> {
    |line: Seq<char>|
        {
            let name = trim(before_mark(line, ':'));
            if starts_with(name, "wl"@) {
                Some(name)
            } else {
                None
            }
        }
}

/// The first interface whose name starts with `wl`.
pub open spec fn primary_wireless(raw: Seq<char>) -> Option<Seq<char>> {
    find_line(lines(raw), wireless_line())
}

/// First wireless-looking interface name from `/proc/net/dev` (`wl*`), matching
/// what the RSSI reader listens to.
pub fn parse_primary_wireless(raw: &str) -> (r: Option<String>)
    ensures
        match primary_wireless(raw@) {
            Some(name) => r is Some && (r->0)@ == name,
            None => r is None,
        },
{
    let ls = split_lines(raw);
    let ghost all = lines(raw@);
    let ghost pick = wireless_line();
    let mut i: usize = 0;
    assert(all.skip(0) == all);
    while i < ls.len()
        invariant
            i <= ls@.len(),
            all == views(ls@),
            all == lines(raw@),
            pick == wireless_line(),
            find_line(all, pick) == find_line(all.skip(i as int), pick),
        decreases ls@.len() - i,
    {
        assert(all.skip(i as int).drop_first() == all.skip(i + 1));
        assert(all.skip(i as int)[0] == ls@[i as int]@);
        let name = trimmed(head(ls[i], ':'));
        if begins(name, "wl") {
            return Some(name.to_owned());
        }
        i = i + 1;
    }
    None
}

/// The line of an interface whose name starts with `wl`.
pub open spec fn level_line() -> spec_fn(Seq<char>) -> Option<Seq<char>> {
    |line: Seq<char>|
        if starts_with(trim(before_mark(line, ':')), "wl"@) {
            Some(trim(line))
        } else {
            None
        }
}

/// The candidates for the Wi-Fi level: the words of the first line of an
/// interface whose name starts with `wl`.
pub open spec fn wireless_level(raw: Seq<char>) -> Seq<Term> {
    match find_line(lines(raw), level_line()) {
        Some(line) => numbers(words(line)),
        None => seq![],
    }
}

/// `/proc/net/wireless` level column candidates for the wireless interface.
pub fn parse_wireless_level(raw: &str) -> (r: Vec<Formula>)
    ensures
        terms(r@) == wireless_level(raw@),
{
    let ls = split_lines(raw);
    let ghost all = lines(raw@);
    let ghost pick = level_line();
    let mut i: usize = 0;
    assert(all.skip(0) == all);
    while i < ls.len()
        invariant
            i <= ls@.len(),
            all == views(ls@),
            all == lines(raw@),
            pick == level_line(),
            find_line(all, pick) == find_line(all.skip(i as int), pick),
        decreases ls@.len() - i,
    {
        assert(all.skip(i as int).drop_first() == all.skip(i + 1));
        assert(all.skip(i as int)[0] == ls@[i as int]@);
        if begins(trimmed(head(ls[i], ':')), "wl") {
            return parse_rssi_dbm(trimmed(ls[i]));
        }
        i = i + 1;
    }
    let none: Vec<Formula> = Vec::new();
    assert(terms(none@) == Seq::<Term>::empty());
    none
}

pub proof fn lemma_found_line<T>(
    ls: Seq<Seq<char>>,
    pick: spec_fn(Seq<char>) -> Option<T>,
) -> (i: int)
    requires
        find_line(ls, pick) is Some,
    ensures
        0 <= i < ls.len(),
        pick(ls[i]) == find_line(ls, pick),
        forall|j: int| 0 <= j < i ==> pick(#[trigger] ls[j]) is None,
    decreases ls.len(),
{
    if pick(ls[0]) is Some {
        0
    } else {
        let rest = ls.drop_first();
        let i = lemma_found_line(rest, pick);
        assert forall|j: int| 0 <= j < i + 1 implies pick(#[trigger] ls[j]) is None by {
            if j > 0 {
                assert(ls[j] == rest[j - 1]);
            }
        }
        i + 1
    }
}

pub proof fn lemma_first_line<T>(ls: Seq<Seq<char>>, pick: spec_fn(Seq<char>) -> Option<T>, i: int)
    requires
        0 <= i < ls.len(),
        pick(ls[i]) is Some,
        forall|j: int| 0 <= j < i ==> pick(#[trigger] ls[j]) is None,
    ensures
        find_line(ls, pick) == pick(ls[i]),
    decreases ls.len(),
{
    if i > 0 {
        let rest = ls.drop_first();
        assert(rest[i - 1] == ls[i]);
        assert forall|j: int| 0 <= j < i - 1 implies pick(#[trigger] rest[j]) is None by {
            assert(rest[j] == ls[j + 1]);
        }
        assert(pick(ls[0]) is None);
        lemma_first_line(rest, pick, i - 1);
    }
}

proof fn lemma_no_line(ls: Seq<Seq<char>>)
    requires
        find_line(ls, wireless_line()) is None,
    ensures
        find_line(ls, level_line()) is None,
    decreases ls.len(),
{
    if ls.len() > 0 {
        lemma_no_line(ls.drop_first());
    }
}

/// Temperature answers that differ only in the width of their digits hold the
/// same number.
pub proof fn law_digits_of_either_width(a: Seq<char>, b: Seq<char>)
    requires
        narrowed(a) == narrowed(b),
    ensures
        temp_number(a) == temp_number(b),
{
    reveal_strlit("temp=");
    let prefix = "temp="@;
    lemma_narrowed_trim(a, b);
    let s = trim(a);
    let t = trim(b);
    if starts_with(t, prefix) {
        lemma_narrowed_prefix(t, s, prefix);
    }
    if starts_with(s, prefix) {
        lemma_narrowed_prefix(s, t, prefix);
        lemma_narrowed_chars(s, t);
        assert(narrowed(s.skip(prefix.len() as int)) =~= narrowed(t.skip(prefix.len() as int)));
    }
}

proof fn lemma_narrowed_prefix(s: Seq<char>, t: Seq<char>, prefix: Seq<char>)
    requires
        narrowed(s) == narrowed(t),
        starts_with(s, prefix),
        forall|i: int| 0 <= i < prefix.len() ==> !is_digit(narrow_digit(#[trigger] prefix[i])),
    ensures
        starts_with(t, prefix),
{
    lemma_narrowed_chars(s, t);
    assert forall|i: int| 0 <= i < prefix.len() implies t[i] == #[trigger] prefix[i] by {
        assert(s[i] == s.take(prefix.len() as int)[i]);
    }
    assert(t.take(prefix.len() as int) =~= prefix);
}

/// A primary disk is a whole device and never a partition.
pub proof fn law_primary_disk_is_whole(raw: Seq<char>)
    ensures
        primary_disk(raw) matches Some(name) ==> {
            &&& starts_with(name, "nvme"@) || starts_with(name, "mmcblk"@)
            &&& !name.contains('p')
        },
{
    if primary_disk(raw) is Some {
        let i = lemma_found_line(lines(raw), primary_disk_line());
    }
}

/// A primary wireless interface looks like one.
pub proof fn law_primary_wireless_is_wireless(raw: Seq<char>)
    ensures
        primary_wireless(raw) matches Some(name) ==> starts_with(name, "wl"@),
{
    if primary_wireless(raw) is Some {
        let i = lemma_found_line(lines(raw), wireless_line());
    }
}

/// The RSSI reader listens to the interface that the traffic is counted of: in
/// a text of interface lines both take the first line with a `wl` name.
pub proof fn law_level_of_the_primary_interface(raw: Seq<char>)
    ensures
        primary_wireless(raw) is None ==> wireless_level(raw) == Seq::<Term>::empty(),
        primary_wireless(raw) matches Some(name) ==> exists|i: int|
            {
                &&& 0 <= i < lines(raw).len()
                &&& name == trim(before_mark(#[trigger] lines(raw)[i], ':'))
                &&& wireless_level(raw) == numbers(words(trim(lines(raw)[i])))
            },
{
    let ls = lines(raw);
    if primary_wireless(raw) is Some {
        let i = lemma_found_line(ls, wireless_line());
        lemma_first_line(ls, level_line(), i);
        assert(wireless_level(raw) == numbers(words(trim(ls[i]))));
    } else {
        lemma_no_line(ls);
    }
}

/// The aggregate line of `/proc/stat` is no core, whatever counters it holds.
pub proof fn law_aggregate_is_no_core(fields: Seq<char>)
    ensures
        core_line("cpu "@ + fields) is None,
{
    reveal_strlit("cpu");
    reveal_strlit("cpu ");
    let line = "cpu "@ + fields;
    assert(line.take(3) =~= "cpu"@);
    let rest = line.skip(3);
    assert(rest[0] == ' ');
    lemma_span(rest, digit(), 0);
}

/// A Wi-Fi level is a candidate below zero, and the first of them.
pub proof fn law_level_is_below_zero(values: Seq<Option<Single>>)
    ensures
        below_zero_in(values) matches Some(level) ==> level.below_zero() && values.contains(
            Some(level),
        ),
        below_zero_in(values) is None ==> forall|i: int|
            0 <= i < values.len() ==> ((#[trigger] values[i]) matches Some(v)
                ==> !v.below_zero()),
    decreases values.len(),
{
    if values.len() > 0 {
        let rest = values.drop_first();
        law_level_is_below_zero(rest);
        assert(values.contains(values[0]));
        if let Some(level) = below_zero_in(rest) {
            let i = choose|i: int| 0 <= i < rest.len() && rest[i] == Some(level);
            assert(values[i + 1] == Some(level));
        }
        assert forall|i: int|
            0 <= i < values.len() && below_zero_in(values) is None implies ((
        #[trigger] values[i]) matches Some(v) ==> !v.below_zero()) by {
            if i > 0 {
                assert(values[i] == rest[i - 1]);
            }
        }
    }
}

} // verus!
