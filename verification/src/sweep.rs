//! Assembles one sweep from a [`Probe`]: sysfs globs, vcgencmd calls and /proc
//! reads in a single pass.
//!
//! Counter-style metrics (CPU utilization, disk and network throughput) are
//! deltas between sweeps, so stateful sweeping goes through [`Sweeper`]; the
//! stateless [`collect_snapshot`] reports no rates.

use std::time::{Duration, Instant};

use vstd::prelude::*;
use vstd::string::StringExecFns;

use crate::formula::{numbers, term, terms, Formula, Term};
use crate::probe::{
    ask_file, clock_answered, clocks_answered, firmware_answered, hwmons_answered, may_read, named,
    proc_answered, read_clock_text, read_clock_texts, read_firmware_texts, read_hwmon_texts,
    read_proc_texts, read_regulator_texts, read_zone_texts, reads, reads_as, regulators_answered,
    zones_answered, ClockTexts, FirmwareTexts, HwmonTexts, Probe, ProcTexts, RegulatorTexts,
    ZoneTexts,
};
use crate::sensors::{
    core_times, diskstats_sectors, first_word, gencmd_number, law_share_of_a_whole, meminfo_kb,
    net_dev_bytes,
    parse_core_times, parse_diskstats_sectors, parse_gencmd_temp, parse_gencmd_value,
    parse_meminfo_kb, parse_millidegrees, parse_net_dev_bytes, parse_primary_disk,
    parse_primary_wireless, parse_uptime_secs, parse_wireless_level, primary_disk,
    primary_wireless, temp_number, wireless_level, word_numbers, CpuTimes, DISKSTATS, NET_DEV, STAT,
};
use crate::snapshot::{DiskIo, Draft, MemoryInfo, NetIo};
use crate::text::{
    after_last, decimal, lines, parse_u64, push_decimal, same, tail, text_of, trim, trimmed,
    u64_of, views, words,
};
use crate::throttle::ThrottleState;

verus! {

/// Clock domains worth listing; the charted three are among them.
pub const CLOCK_DOMAINS: [&'static str; 12] = [
    "arm",
    "core",
    "h264",
    "isp",
    "v3d",
    "uart",
    "pwm",
    "emmc",
    "pixel",
    "vec",
    "hdmi",
    "dpi",
];

/// A list of named formulas with its names as characters and its formulas as
/// terms.
pub open spec fn named_terms(list: Seq<(String, Formula)>) -> Seq<(Seq<char>, Term)> {
    Seq::new(list.len(), |i: int| (list[i].0@, list[i].1@))
}

/// A list of numbered formulas with its formulas as terms.
pub open spec fn numbered_terms(list: Seq<(u8, Formula)>) -> Seq<(u8, Term)> {
    Seq::new(list.len(), |i: int| (list[i].0, list[i].1@))
}

/// A list of named texts as characters.
pub open spec fn named_texts(list: Seq<(String, String)>) -> Seq<(Seq<char>, Seq<char>)> {
    Seq::new(list.len(), |i: int| (list[i].0@, list[i].1@))
}

/// A temperature file's reading.
pub open spec fn temp_term(raw: Option<Seq<char>>) -> Option<Term> {
    match raw {
        Some(text) => Some(Term::Thousandth(trim(text))),
        None => None,
    }
}

/// Reads a temperature file's text.
pub fn temp_cell(raw: &Option<String>) -> (r: Option<Formula>)
    ensures
        term(r) == temp_term(text_of(*raw)),
{
    match raw {
        Some(text) => Some(parse_millidegrees(text.as_str())),
        None => None,
    }
}

// ----------------------------------------------------------- thermal zones

/// The SoC temperature: that of the first zone.
pub open spec fn soc_term(zones: Seq<ZoneTexts>) -> Option<Term> {
    if zones.len() > 0 {
        temp_term(text_of(zones[0].temp))
    } else {
        None
    }
}

/// A further zone's label: its type, or its number where it has none.
pub open spec fn zone_label(zone: ZoneTexts, ix: nat) -> Seq<char> {
    match zone.label {
        Some(label) => trim(label@),
        None => "zone"@ + decimal(ix),
    }
}

/// The further zones that have a temperature, in their order.
pub open spec fn zone_terms(zones: Seq<ZoneTexts>) -> Seq<(Seq<char>, Term)>
    decreases zones.len(),
{
    if zones.len() <= 1 {
        seq![]
    } else {
        let front = zone_terms(zones.drop_last());
        match temp_term(text_of(zones.last().temp)) {
            Some(t) => front.push((zone_label(zones.last(), (zones.len() - 1) as nat), t)),
            None => front,
        }
    }
}

fn label_of(zone: &ZoneTexts, ix: u64) -> (r: String)
    ensures
        r@ == zone_label(*zone, ix as nat),
{
    match &zone.label {
        Some(label) => trimmed(label.as_str()).to_owned(),
        None => {
            let mut out = "zone".to_owned();
            push_decimal(&mut out, ix);
            out
        },
    }
}

/// The cells of the thermal zones: the first is the SoC on every Pi 5-family
/// board; any further zones are labeled by their zone type.
pub fn thermal_cells(zones: &Vec<ZoneTexts>) -> (r: (Option<Formula>, Vec<(String, Formula)>))
    ensures
        term(r.0) == soc_term(zones@),
        named_terms(r.1@) == zone_terms(zones@),
{
    let mut soc: Option<Formula> = None;
    let mut extra: Vec<(String, Formula)> = Vec::new();
    let mut i: usize = 0;
    assert(named_terms(extra@) == Seq::<(Seq<char>, Term)>::empty());
    while i < zones.len()
        invariant
            i <= zones@.len(),
            term(soc) == soc_term(zones@.take(i as int)),
            named_terms(extra@) == zone_terms(zones@.take(i as int)),
        decreases zones@.len() - i,
    {
        let ghost before = extra@;
        assert(zones@.take(i + 1).drop_last() == zones@.take(i as int));
        let cell = temp_cell(&zones[i].temp);
        if i == 0 {
            soc = cell;
        } else if let Some(temp) = cell {
            let label = label_of(&zones[i], i as u64);
            extra.push((label, temp));
            assert(named_terms(extra@) == named_terms(before).push((label@, temp@)));
        }
        i = i + 1;
    }
    assert(zones@.take(i as int) == zones@);
    (soc, extra)
}

/// Reads the /sys/class/thermal zones.
pub fn read_thermal_zones<P: Probe>(probe: &P) -> (r: (Option<Formula>, Vec<(String, Formula)>))
    ensures
        exists|zones: Seq<ZoneTexts>|
            {
                &&& #[trigger] zones_answered(probe, zones)
                &&& term(r.0) == soc_term(zones)
                &&& named_terms(r.1@) == zone_terms(zones)
            },
{
    let texts = read_zone_texts(probe);
    thermal_cells(&texts)
}

// ------------------------------------------------------------------ hwmons

/// What the hwmon devices say.
pub struct HwmonTerms {
    pub nvme: Option<Term>,
    pub rp1: Option<Term>,
    pub adc: Seq<(u8, Term)>,
    pub alarm: bool,
}

/// The ADC inputs that have a text, in their order.
pub open spec fn input_terms(inputs: Seq<Option<String>>) -> Seq<(u8, Term)>
    decreases inputs.len(),
{
    if inputs.len() == 0 {
        seq![]
    } else {
        let front = input_terms(inputs.drop_last());
        match inputs.last() {
            Some(raw) => front.push((inputs.len() as u8, Term::Number(trim(raw@)))),
            None => front,
        }
    }
}

/// The devices in their order: an NVMe drive, an RP1 ADC and an undervoltage
/// alarm each replace what an earlier one of their kind said, except that ADC
/// inputs add up.
pub open spec fn hwmon_terms(hwmons: Seq<HwmonTexts>) -> HwmonTerms
    decreases hwmons.len(),
{
    if hwmons.len() == 0 {
        HwmonTerms { nvme: None, rp1: None, adc: seq![], alarm: false }
    } else {
        let front = hwmon_terms(hwmons.drop_last());
        let h = hwmons.last();
        let name = text_of(h.name);
        if reads(name, "nvme"@) {
            HwmonTerms { nvme: temp_term(text_of(h.temp)), ..front }
        } else if reads(name, "rp1_adc"@) {
            HwmonTerms {
                rp1: temp_term(text_of(h.temp)),
                adc: front.adc + input_terms(h.inputs@),
                ..front
            }
        } else if reads(name, "rpi_volt"@) {
            HwmonTerms { alarm: reads(text_of(h.alarm), "1"@), ..front }
        } else {
            front
        }
    }
}

/// What the hwmon devices say, to be evaluated.
pub struct HwmonReads {
    pub nvme: Option<Formula>,
    pub rp1: Option<Formula>,
    pub adc: Vec<(u8, Formula)>,
    pub alarm: bool,
}

impl HwmonReads {
    pub open spec fn is(self, t: HwmonTerms) -> bool {
        &&& term(self.nvme) == t.nvme
        &&& term(self.rp1) == t.rp1
        &&& numbered_terms(self.adc@) == t.adc
        &&& self.alarm == t.alarm
    }
}

fn push_inputs(adc: &mut Vec<(u8, Formula)>, inputs: &Vec<Option<String>>)
    requires
        inputs@.len() <= 255,
    ensures
        numbered_terms(final(adc)@) == numbered_terms(old(adc)@) + input_terms(inputs@),
{
    let mut n: usize = 0;
    assert(numbered_terms(adc@) + input_terms(inputs@.take(0)) == numbered_terms(adc@));
    while n < inputs.len()
        invariant
            n <= inputs@.len() <= 255,
            numbered_terms(adc@) == numbered_terms(old(adc)@) + input_terms(inputs@.take(n as int)),
        decreases inputs@.len() - n,
    {
        let ghost before = adc@;
        assert(inputs@.take(n + 1).drop_last() == inputs@.take(n as int));
        if let Some(raw) = &inputs[n] {
            adc.push(
                ((n + 1) as u8, Formula::Number { text: trimmed(raw.as_str()).to_owned() }),
            );
            proof {
                let cell = ((n + 1) as u8, Term::Number(trim(raw@)));
                assert(numbered_terms(adc@) == numbered_terms(before).push(cell));
                assert(numbered_terms(old(adc)@) + input_terms(inputs@.take(n as int)).push(cell)
                    == (numbered_terms(old(adc)@) + input_terms(inputs@.take(n as int))).push(
                    cell,
                ));
            }
        }
        n = n + 1;
    }
    assert(inputs@.take(n as int) == inputs@);
}

/// The cells of the hwmon devices: NVMe composite temp, RP1 ADC inputs and die
/// temp, and the firmware undervoltage alarm on rpi_volt.
pub fn hwmon_cells(hwmons: &Vec<HwmonTexts>) -> (r: HwmonReads)
    requires
        forall|i: int| 0 <= i < hwmons@.len() ==> (#[trigger] hwmons@[i]).inputs@.len() <= 255,
    ensures
        r.is(hwmon_terms(hwmons@)),
{
    let mut out = HwmonReads { nvme: None, rp1: None, adc: Vec::new(), alarm: false };
    let mut i: usize = 0;
    assert(numbered_terms(out.adc@) == Seq::<(u8, Term)>::empty());
    while i < hwmons.len()
        invariant
            i <= hwmons@.len(),
            forall|k: int| 0 <= k < hwmons@.len() ==> (#[trigger] hwmons@[k]).inputs@.len() <= 255,
            out.is(hwmon_terms(hwmons@.take(i as int))),
        decreases hwmons@.len() - i,
    {
        assert(hwmons@.take(i + 1).drop_last() == hwmons@.take(i as int));
        let h = &hwmons[i];
        if reads_as(&h.name, "nvme") {
            out.nvme = temp_cell(&h.temp);
        } else if reads_as(&h.name, "rp1_adc") {
            out.rp1 = temp_cell(&h.temp);
            push_inputs(&mut out.adc, &h.inputs);
        } else if reads_as(&h.name, "rpi_volt") {
            out.alarm = reads_as(&h.alarm, "1");
        }
        i = i + 1;
    }
    assert(hwmons@.take(i as int) == hwmons@);
    out
}

/// Reads the hwmon devices.
pub fn read_hwmons<P: Probe>(probe: &P) -> (r: HwmonReads)
    ensures
        exists|hwmons: Seq<HwmonTexts>|
            {
                &&& #[trigger] hwmons_answered(probe, hwmons)
                &&& r.is(hwmon_terms(hwmons))
            },
{
    let texts = read_hwmon_texts(probe);
    hwmon_cells(&texts)
}

// ---------------------------------------------------------------- firmware

/// The number in a firmware answer.
pub open spec fn gencmd_term(answer: Option<Seq<char>>, prefix: Seq<char>) -> Option<Term> {
    match answer {
        Some(text) => match gencmd_number(text, prefix) {
            Some(number) => Some(Term::Number(number)),
            None => None,
        },
        None => None,
    }
}

/// The temperature in a firmware answer.
pub open spec fn gencmd_temp_term(answer: Option<Seq<char>>) -> Option<Term> {
    match answer {
        Some(text) => match temp_number(text) {
            Some(number) => Some(Term::Number(number)),
            None => None,
        },
        None => None,
    }
}

/// The health word in a firmware answer; one that cannot be read says nothing.
pub open spec fn throttle_state(answer: Option<Seq<char>>) -> ThrottleState {
    match answer {
        Some(text) => match ThrottleState::of_answer(text) {
            Some(state) => state,
            None => ThrottleState::quiet(),
        },
        None => ThrottleState::quiet(),
    }
}

/// Firmware telemetry, to be evaluated. The SoC reading is a fallback for the
/// kernel's own (sysfs wins); the PMIC has no sysfs exposure, so the firmware is
/// its only source.
pub struct FirmwareReads {
    pub soc: Option<Formula>,
    pub pmic: Option<Formula>,
    pub core_volts: Option<Formula>,
    pub sdram_volatile_volts: Option<Formula>,
    pub sdram_phy_volts: Option<Formula>,
    pub throttle: ThrottleState,
}

impl FirmwareReads {
    /// What the firmware's answers say.
    pub open spec fn from(self, t: FirmwareTexts) -> bool {
        &&& term(self.soc) == gencmd_temp_term(text_of(t.soc))
        &&& term(self.pmic) == gencmd_temp_term(text_of(t.pmic))
        &&& term(self.core_volts) == gencmd_term(text_of(t.core), "volt="@)
        &&& term(self.sdram_volatile_volts) == gencmd_term(text_of(t.sdram_c), "volt="@)
        &&& term(self.sdram_phy_volts) == gencmd_term(text_of(t.sdram_p), "volt="@)
        &&& self.throttle == throttle_state(text_of(t.throttled))
    }
}

fn firmware_temp(answer: &Option<String>) -> (r: Option<Formula>)
    ensures
        term(r) == gencmd_temp_term(text_of(*answer)),
{
    match answer {
        Some(text) => parse_gencmd_temp(text.as_str()),
        None => None,
    }
}

fn firmware_volts(answer: &Option<String>) -> (r: Option<Formula>)
    ensures
        term(r) == gencmd_term(text_of(*answer), "volt="@),
{
    match answer {
        Some(text) => parse_gencmd_value(text.as_str(), "volt="),
        None => None,
    }
}

/// The cells of the firmware's answers.
pub fn firmware_cells(texts: &FirmwareTexts) -> (r: FirmwareReads)
    ensures
        r.from(*texts),
{
    let throttle = match &texts.throttled {
        Some(text) => match ThrottleState::from_hex(text.as_str()) {
            Some(state) => state,
            None => ThrottleState::default(),
        },
        None => ThrottleState::default(),
    };
    FirmwareReads {
        soc: firmware_temp(&texts.soc),
        pmic: firmware_temp(&texts.pmic),
        core_volts: firmware_volts(&texts.core),
        sdram_volatile_volts: firmware_volts(&texts.sdram_c),
        sdram_phy_volts: firmware_volts(&texts.sdram_p),
        throttle,
    }
}

/// Reads the firmware telemetry.
pub fn read_firmware<P: Probe>(probe: &P) -> (r: FirmwareReads)
    ensures
        exists|texts: FirmwareTexts| #[trigger] firmware_answered(probe, texts) && r.from(texts),
{
    let texts = read_firmware_texts(probe);
    firmware_cells(&texts)
}

// ------------------------------------------------------------------ memory

/// The figures of a memory block in KiB: the total, what is in use, what buffers
/// and caches hold, and of the swap what is in use and the total.
pub struct MemoryUse {
    pub total: u64,
    pub used: u64,
    pub cache: u64,
    pub swap: Option<(u64, u64)>,
}

pub open spec fn or_zero(count: Option<u64>) -> nat {
    match count {
        Some(n) => n as nat,
        None => 0,
    }
}

pub open spec fn at_most(n: int, max: u64) -> u64 {
    if n <= max {
        n as u64
    } else {
        max
    }
}

/// What a `/proc/meminfo` text says. Without a total, or with one of zero, it
/// says nothing. A key that is missing counts as zero. More free swap than there
/// is swap counts as swap used up: the difference wraps far past the total, and
/// the share is capped.
pub open spec fn memory_use(raw: Seq<char>) -> Option<MemoryUse> {
    match meminfo_kb(raw, "MemTotal"@) {
        None => None,
        Some(total) => if total == 0 {
            None
        } else {
            let available = or_zero(meminfo_kb(raw, "MemAvailable"@));
            let held = or_zero(meminfo_kb(raw, "Buffers"@)) + or_zero(
                meminfo_kb(raw, "Cached"@),
            );
            Some(
                MemoryUse {
                    total,
                    used: if available <= total {
                        (total - available) as u64
                    } else {
                        0
                    },
                    cache: at_most(held as int, total),
                    swap: match (
                        meminfo_kb(raw, "SwapTotal"@),
                        meminfo_kb(raw, "SwapFree"@),
                    ) {
                        (Some(swap), Some(free)) => if swap == 0 {
                            None
                        } else if free <= swap {
                            Some(((swap - free) as u64, swap))
                        } else {
                            Some((swap, swap))
                        },
                        _ => None,
                    },
                },
            )
        },
    }
}

/// The gauges are the figures as percents and in MiB.
pub open spec fn gauges(m: MemoryInfo<Formula>, u: MemoryUse) -> bool {
    &&& m.used_pct@ == Term::Percent(u.used, u.total)
    &&& m.buff_cache_pct@ == Term::Percent(u.cache, u.total)
    &&& term(m.swap_used_pct) == match u.swap {
        Some(swap) => Some(Term::Percent(swap.0, swap.1)),
        None => None,
    }
    &&& m.total_mib@ == Term::Mebibytes(u.total)
    &&& m.used_mib@ == Term::Mebibytes(u.used)
}

pub open spec fn memory_is(m: Option<MemoryInfo<Formula>>, u: Option<MemoryUse>) -> bool {
    match (m, u) {
        (Some(info), Some(figures)) => gauges(info, figures),
        (None, None) => true,
        _ => false,
    }
}

fn kb_or_zero(raw: &str, key: &str) -> (r: u64)
    ensures
        r == or_zero(meminfo_kb(raw@, key@)),
{
    match parse_meminfo_kb(raw, key) {
        Some(n) => n,
        None => 0,
    }
}

/// Memory gauges from a `/proc/meminfo` text: used vs buff/cache vs swap.
pub fn parse_memory_info(raw: &str) -> (r: Option<MemoryInfo<Formula>>)
    ensures
        memory_is(r, memory_use(raw@)),
{
    let total = match parse_meminfo_kb(raw, "MemTotal") {
        Some(n) => n,
        None => {
            return None;
        },
    };
    if total == 0 {
        return None;
    }
    let used = total.saturating_sub(kb_or_zero(raw, "MemAvailable"));
    let held = kb_or_zero(raw, "Buffers").saturating_add(kb_or_zero(raw, "Cached"));
    let cache = if held <= total {
        held
    } else {
        total
    };
    let swap_used_pct = match (
        parse_meminfo_kb(raw, "SwapTotal"),
        parse_meminfo_kb(raw, "SwapFree"),
    ) {
        (Some(swap), Some(free)) => if swap > 0 {
            let part = if free <= swap {
                swap - free
            } else {
                swap
            };
            Some(Formula::Percent { part, whole: swap })
        } else {
            None
        },
        _ => None,
    };
    Some(
        MemoryInfo {
            used_pct: Formula::Percent { part: used, whole: total },
            buff_cache_pct: Formula::Percent { part: cache, whole: total },
            swap_used_pct,
            total_mib: Formula::Mebibytes { kibibytes: total },
            used_mib: Formula::Mebibytes { kibibytes: used },
        },
    )
}

/// No gauge passes a hundred percent: each part is some of its whole, and there
/// is a whole.
pub proof fn law_gauges_are_parts(raw: Seq<char>)
    ensures
        memory_use(raw) matches Some(u) ==> {
            &&& u.total > 0
            &&& u.used <= u.total
            &&& u.cache <= u.total
            &&& u.swap matches Some(swap) ==> swap.0 <= swap.1 && swap.1 > 0
        },
{
}

// -------------------------------------------------------------------- proc

/// Kernel counters: loads, memory block, uptime, Wi-Fi level, to be evaluated.
pub struct ProcReads {
    pub loads: Vec<Formula>,
    pub memory: Option<MemoryInfo<Formula>>,
    pub uptime: Option<String>,
    pub rssi: Vec<Formula>,
}

impl ProcReads {
    /// What the kernel's counters say.
    pub open spec fn from(self, t: ProcTexts) -> bool {
        &&& terms(self.loads@) == match t.loadavg {
            Some(raw) => numbers(words(raw@)),
            None => seq![],
        }
        &&& memory_is(
            self.memory,
            match t.meminfo {
                Some(raw) => memory_use(raw@),
                None => None,
            },
        )
        &&& text_of(self.uptime) == match t.uptime {
            Some(raw) => first_word(raw@),
            None => None,
        }
        &&& terms(self.rssi@) == match t.wireless {
            Some(raw) => wireless_level(raw@),
            None => seq![],
        }
    }
}

fn no_formulas() -> (r: Vec<Formula>)
    ensures
        terms(r@) == Seq::<Term>::empty(),
{
    let none: Vec<Formula> = Vec::new();
    assert(terms(none@) == Seq::<Term>::empty());
    none
}

/// The cells of the kernel's counters.
pub fn proc_cells(texts: &ProcTexts) -> (r: ProcReads)
    ensures
        r.from(*texts),
{
    ProcReads {
        loads: match &texts.loadavg {
            Some(raw) => word_numbers(raw.as_str()),
            None => no_formulas(),
        },
        memory: match &texts.meminfo {
            Some(raw) => parse_memory_info(raw.as_str()),
            None => None,
        },
        uptime: match &texts.uptime {
            Some(raw) => parse_uptime_secs(raw.as_str()),
            None => None,
        },
        rssi: match &texts.wireless {
            Some(raw) => parse_wireless_level(raw.as_str()),
            None => no_formulas(),
        },
    }
}

/// Reads the kernel's counters.
pub fn read_proc<P: Probe>(probe: &P) -> (r: ProcReads)
    ensures
        exists|texts: ProcTexts| #[trigger] proc_answered(probe, texts) && r.from(texts),
{
    let texts = read_proc_texts(probe);
    proc_cells(&texts)
}

// -------------------------------------------------------------- regulators

/// A rail's name and its microvolts, if it is enabled, has a name and says more
/// than zero, which means "unknown".
pub open spec fn rail(texts: RegulatorTexts) -> Option<(Seq<char>, u64)> {
    if reads(text_of(texts.state), "enabled"@) && named(text_of(texts.name)) {
        match texts.microvolts {
            Some(raw) => match u64_of(trim(raw@)) {
                Some(uv) => if uv > 0 {
                    Some((trim((texts.name->0)@), uv))
                } else {
                    None
                },
                None => None,
            },
            None => None,
        }
    } else {
        None
    }
}

/// The rails that are on, in their order.
pub open spec fn rail_terms(rails: Seq<RegulatorTexts>) -> Seq<(Seq<char>, Term)>
    decreases rails.len(),
{
    if rails.len() == 0 {
        seq![]
    } else {
        let front = rail_terms(rails.drop_last());
        match rail(rails.last()) {
            Some(r) => front.push((r.0, Term::Millionth(r.1))),
            None => front,
        }
    }
}

/// Every rail that is listed is enabled, has a name and a known voltage.
pub proof fn law_rails_are_on(rails: Seq<RegulatorTexts>, i: int)
    requires
        0 <= i < rail_terms(rails).len(),
    ensures
        rail_terms(rails)[i].0.len() > 0,
        rail_terms(rails)[i].1 matches Term::Millionth(uv) && uv > 0,
        exists|k: int|
            {
                &&& 0 <= k < rails.len()
                &&& reads(text_of((#[trigger] rails[k]).state), "enabled"@)
                &&& rails[k].name is Some && trim((rails[k].name->0)@) == rail_terms(rails)[i].0
            },
    decreases rails.len(),
{
    let front = rail_terms(rails.drop_last());
    if i < front.len() {
        law_rails_are_on(rails.drop_last(), i);
        let k = choose|k: int|
            {
                &&& 0 <= k < rails.drop_last().len()
                &&& reads(text_of((#[trigger] rails.drop_last()[k]).state), "enabled"@)
                &&& rails.drop_last()[k].name is Some && trim((rails.drop_last()[k].name->0)@)
                    == front[i].0
            };
        assert(rails[k] == rails.drop_last()[k]);
    } else {
        assert(rails[rails.len() - 1] == rails.last());
        let name = rail_terms(rails)[i].0;
        if name.len() == 0 {
            assert(name =~= seq![]);
        }
    }
}

fn rail_cell(texts: &RegulatorTexts) -> (r: Option<(String, u64)>)
    ensures
        match rail(*texts) {
            Some(found) => r is Some && (r->0).0@ == found.0 && (r->0).1 == found.1,
            None => r is None,
        },
{
    proof {
        reveal_strlit("");
        assert(""@ =~= Seq::<char>::empty());
    }
    if !reads_as(&texts.state, "enabled") || reads_as(&texts.name, "") {
        return None;
    }
    match (&texts.name, &texts.microvolts) {
        (Some(name), Some(raw)) => match parse_u64(trimmed(raw.as_str())) {
            Some(uv) => if uv > 0 {
                Some((trimmed(name.as_str()).to_owned(), uv))
            } else {
                None
            },
            None => None,
        },
        _ => None,
    }
}

/// The cells of the regulators.
pub fn regulator_cells(rails: &Vec<RegulatorTexts>) -> (r: Vec<(String, Formula)>)
    ensures
        named_terms(r@) == rail_terms(rails@),
{
    let mut out: Vec<(String, Formula)> = Vec::new();
    let mut i: usize = 0;
    assert(named_terms(out@) == Seq::<(Seq<char>, Term)>::empty());
    while i < rails.len()
        invariant
            i <= rails@.len(),
            named_terms(out@) == rail_terms(rails@.take(i as int)),
        decreases rails@.len() - i,
    {
        let ghost before = out@;
        assert(rails@.take(i + 1).drop_last() == rails@.take(i as int));
        if let Some((name, uv)) = rail_cell(&rails[i]) {
            let ghost cell = (name@, Term::Millionth(uv));
            out.push((name, Formula::Millionth { count: uv }));
            assert(named_terms(out@) == named_terms(before).push(cell));
        }
        i = i + 1;
    }
    assert(rails@.take(i as int) == rails@);
    out
}

/// Enabled regulators (name, volts) from a `/sys/class/regulator` glob. Disabled
/// rails are skipped; microvolts of 0 means "unknown".
pub fn parse_regulators<P: Probe>(probe: &P) -> (r: Vec<(String, Formula)>)
    ensures
        exists|rails: Seq<RegulatorTexts>|
            {
                &&& #[trigger] regulators_answered(probe, rails)
                &&& named_terms(r@) == rail_terms(rails)
            },
{
    let texts = read_regulator_texts(probe);
    regulator_cells(&texts)
}

// ------------------------------------------------------------------ clocks

/// The hertz text in an answer such as `frequency(48)=2400000000`: everything
/// after the last `=`.
pub open spec fn hertz_text(answer: Seq<char>) -> Seq<char> {
    trim(after_last(answer, '='))
}

/// The domains that answered, with their hertz texts, in their order.
pub open spec fn clock_texts(clocks: Seq<ClockTexts>) -> Seq<(Seq<char>, Seq<char>)>
    decreases clocks.len(),
{
    if clocks.len() == 0 {
        seq![]
    } else {
        let front = clock_texts(clocks.drop_last());
        match clocks.last().answer {
            Some(answer) => front.push((clocks.last().domain@, hertz_text(answer@))),
            None => front,
        }
    }
}

fn hertz(answer: &Option<String>) -> (r: Option<String>)
    ensures
        match *answer {
            Some(text) => r is Some && (r->0)@ == hertz_text(text@),
            None => r is None,
        },
{
    match answer {
        Some(text) => Some(trimmed(tail(text.as_str(), '=')).to_owned()),
        None => None,
    }
}

/// The hertz text of one clock domain.
pub fn clock_mhz<P: Probe>(probe: &P, domain: &str) -> (r: Option<String>)
    ensures
        exists|clock: ClockTexts|
            {
                &&& #[trigger] clock_answered(probe, domain@, clock)
                &&& text_of(r) == match clock.answer {
                    Some(text) => Some(hertz_text(text@)),
                    None => None,
                }
            },
{
    let clock = read_clock_text(probe, domain);
    hertz(&clock.answer)
}

/// The cells of the clock domains.
pub fn clock_cells(clocks: &Vec<ClockTexts>) -> (r: Vec<(String, String)>)
    ensures
        named_texts(r@) == clock_texts(clocks@),
{
    let mut out: Vec<(String, String)> = Vec::new();
    let mut i: usize = 0;
    assert(named_texts(out@) == Seq::<(Seq<char>, Seq<char>)>::empty());
    while i < clocks.len()
        invariant
            i <= clocks@.len(),
            named_texts(out@) == clock_texts(clocks@.take(i as int)),
        decreases clocks@.len() - i,
    {
        let ghost before = out@;
        assert(clocks@.take(i + 1).drop_last() == clocks@.take(i as int));
        if let Some(text) = hertz(&clocks[i].answer) {
            let ghost cell = (clocks@[i as int].domain@, text@);
            out.push((clocks[i].domain.clone(), text));
            assert(named_texts(out@) == named_texts(before).push(cell));
        }
        i = i + 1;
    }
    assert(clocks@.take(i as int) == clocks@);
    out
}

/// All firmware clock domains that answered, from `vcgencmd measure_clock <d>`.
pub fn parse_all_clocks<P: Probe>(probe: &P, domains: &[&str]) -> (r: Vec<(String, String)>)
    ensures
        exists|clocks: Seq<ClockTexts>|
            {
                &&& #[trigger] clocks_answered(probe, views(domains@), clocks)
                &&& named_texts(r@) == clock_texts(clocks)
            },
{
    let texts = read_clock_texts(probe, domains);
    clock_cells(&texts)
}

// ------------------------------------------------------------- one full pass

/// A sweep whose numbers are still formulas.
pub type Pending = Draft<Formula, String, String>;

/// What a probe answered in one pass.
pub struct SweepTexts {
    pub zones: Seq<ZoneTexts>,
    pub hwmons: Seq<HwmonTexts>,
    pub firmware: FirmwareTexts,
    pub proc: ProcTexts,
    pub rails: Seq<RegulatorTexts>,
    pub clocks: Seq<ClockTexts>,
}

/// The texts are answers of the probe to the questions of one pass.
pub open spec fn sweep_answered<P: Probe>(probe: &P, t: SweepTexts) -> bool {
    &&& zones_answered(probe, t.zones)
    &&& hwmons_answered(probe, t.hwmons)
    &&& firmware_answered(probe, t.firmware)
    &&& proc_answered(probe, t.proc)
    &&& regulators_answered(probe, t.rails)
    &&& clocks_answered(probe, views(CLOCK_DOMAINS@), t.clocks)
}

/// The draft holds what the texts say; of the rates it says nothing here.
pub open spec fn drafted(d: Pending, t: SweepTexts) -> bool {
    let h = hwmon_terms(t.hwmons);
    &&& term(d.soc) == soc_term(t.zones)
    &&& named_terms(d.zones@) == zone_terms(t.zones)
    &&& term(d.nvme) == h.nvme
    &&& term(d.rp1) == h.rp1
    &&& numbered_terms(d.adc@) == h.adc
    &&& d.undervolt_alarm == h.alarm
    &&& (FirmwareReads {
        soc: d.soc_firmware,
        pmic: d.pmic,
        core_volts: d.core_volts,
        sdram_volatile_volts: d.sdram_volatile_volts,
        sdram_phy_volts: d.sdram_phy_volts,
        throttle: d.throttle,
    }).from(t.firmware)
    &&& (ProcReads { loads: d.loads, memory: d.memory, uptime: d.uptime, rssi: d.rssi }).from(
        t.proc,
    )
    &&& named_terms(d.regulators@) == rail_terms(t.rails)
    &&& named_texts(d.clocks@) == clock_texts(t.clocks)
}

/// The draft has no rates.
pub open spec fn rateless(d: Pending) -> bool {
    d.cores@.len() == 0 && d.utilization is None && d.disk_io is None && d.net_io is None
}

// -------------------------------------------------------------------- time

/// A point in time of the system's monotonic clock. Nothing is known of one.
#[verifier::external_type_specification]
#[verifier::external_body]
pub struct ExInstant(Instant);

/// The time from one point to another.
pub uninterp spec fn span_between(now: Instant, earlier: Instant) -> Duration;

/// The nanoseconds of a time.
pub uninterp spec fn nanoseconds(d: Duration) -> u128;

/// `std::time::Instant::now`: the present. Nothing is claimed of it.
pub assume_specification[ Instant::now ]() -> Instant
;

/// `std::time::Instant::duration_since`: the time from one point to another, a
/// function of the two.
pub assume_specification[ Instant::duration_since ](
    now: &Instant,
    earlier: Instant,
) -> (r: Duration)
    ensures
        r == span_between(*now, earlier),
;

/// `std::time::Duration::as_millis`: the whole milliseconds in a time.
pub assume_specification[ Duration::as_millis ](d: &Duration) -> (r: u128)
    ensures
        r == nanoseconds(*d) / 1_000_000,
;

/// `std::time::Duration::as_nanos`: the nanoseconds in a time.
pub assume_specification[ Duration::as_nanos ](d: &Duration) -> (r: u128)
    ensures
        r == nanoseconds(*d),
;

/// The whole milliseconds from one point to another, the lowest 64 bits of them.
pub open spec fn ms_between(now: Instant, earlier: Instant) -> u64 {
    (nanoseconds(span_between(now, earlier)) / 1_000_000) as u64
}

/// Start-of-app instant so snapshots can carry a monotonic x value.
#[derive(Clone, Copy)]
pub struct Clock(pub Instant);

impl Clock {
    /// A clock that starts now, at the point in time that the system's clock
    /// gives for the present. Which point that is depends on the moment of the
    /// call.
    pub fn started() -> (r: Clock)
        ensures
            call_ensures(Instant::now, (), r.0),
    {
        Clock(Instant::now())
    }

    /// Milliseconds since the start.
    pub fn elapsed_ms(&self) -> (r: u64)
        ensures
            exists|now: Instant|
                call_ensures(Instant::now, (), now) && r == #[trigger] ms_between(now, self.0),
    {
        let now = Instant::now();
        #[verifier::truncate]
        let ms = now.duration_since(self.0).as_millis() as u64;
        assert(ms == ms_between(now, self.0));
        ms
    }
}

/// While the clock does not go back, neither does a reading of it. (What a clock
/// that has run for more milliseconds than a reading can hold says, starts over.)
pub proof fn law_elapsed_rises_with_the_clock(sooner: Instant, later: Instant, start: Instant)
    requires
        nanoseconds(span_between(sooner, start)) <= nanoseconds(span_between(later, start)),
        nanoseconds(span_between(later, start)) / 1_000_000 <= u64::MAX,
    ensures
        ms_between(sooner, start) <= ms_between(later, start),
{
}

/// Run one full stateless sensor pass.
pub fn collect_snapshot<P: Probe>(probe: &P, clock: &Clock) -> (r: Pending)
    ensures
        rateless(r),
        exists|now: Instant|
            call_ensures(Instant::now, (), now) && r.elapsed_ms == #[trigger] ms_between(
                now,
                clock.0,
            ),
        exists|t: SweepTexts| #[trigger] sweep_answered(probe, t) && drafted(r, t),
{
    let (soc, zones) = read_thermal_zones(probe);
    let h = read_hwmons(probe);
    let f = read_firmware(probe);
    let p = read_proc(probe);
    let regulators = parse_regulators(probe);
    let clocks = parse_all_clocks(probe, &CLOCK_DOMAINS);
    let draft = Draft {
        elapsed_ms: clock.elapsed_ms(),
        soc,
        zones,
        nvme: h.nvme,
        rp1: h.rp1,
        adc: h.adc,
        undervolt_alarm: h.alarm,
        soc_firmware: f.soc,
        pmic: f.pmic,
        core_volts: f.core_volts,
        sdram_volatile_volts: f.sdram_volatile_volts,
        sdram_phy_volts: f.sdram_phy_volts,
        throttle: f.throttle,
        loads: p.loads,
        memory: p.memory,
        uptime: p.uptime,
        rssi: p.rssi,
        regulators,
        clocks,
        cores: Vec::new(),
        utilization: None,
        disk_io: None,
        net_io: None,
    };
    proof {
        let t = SweepTexts {
            zones: choose|zones: Seq<ZoneTexts>|
                {
                    &&& #[trigger] zones_answered(probe, zones)
                    &&& term(draft.soc) == soc_term(zones)
                    &&& named_terms(draft.zones@) == zone_terms(zones)
                },
            hwmons: choose|hwmons: Seq<HwmonTexts>|
                {
                    &&& #[trigger] hwmons_answered(probe, hwmons)
                    &&& h.is(hwmon_terms(hwmons))
                },
            firmware: choose|texts: FirmwareTexts| #[trigger]
                firmware_answered(probe, texts) && f.from(texts),
            proc: choose|texts: ProcTexts| #[trigger]
                proc_answered(probe, texts) && p.from(texts),
            rails: choose|rails: Seq<RegulatorTexts>|
                {
                    &&& #[trigger] regulators_answered(probe, rails)
                    &&& named_terms(draft.regulators@) == rail_terms(rails)
                },
            clocks: choose|clocks: Seq<ClockTexts>|
                {
                    &&& #[trigger] clocks_answered(probe, views(CLOCK_DOMAINS@), clocks)
                    &&& named_texts(draft.clocks@) == clock_texts(clocks)
                },
        };
        assert(sweep_answered(probe, t));
        assert(drafted(draft, t));
    }
    draft
}

// ------------------------------------------------------------------- rates

/// What the kernel's counters said in one sweep.
#[derive(Debug)]
pub struct CounterTexts {
    pub stat: Option<String>,
    pub diskstats: Option<String>,
    pub net_dev: Option<String>,
}

/// The texts are answers of the probe about the counters.
pub open spec fn counters_answered<P: Probe>(probe: &P, t: CounterTexts) -> bool {
    &&& may_read(probe, STAT@, text_of(t.stat))
    &&& may_read(probe, DISKSTATS@, text_of(t.diskstats))
    &&& may_read(probe, NET_DEV@, text_of(t.net_dev))
}

/// Asks for the counters.
pub fn read_counter_texts<P: Probe>(probe: &P) -> (r: CounterTexts)
    ensures
        counters_answered(probe, r),
{
    let stat = ask_file(probe, STAT);
    let diskstats = ask_file(probe, DISKSTATS);
    let net_dev = ask_file(probe, NET_DEV);
    CounterTexts { stat, diskstats, net_dev }
}

/// The tick counters of the cores.
pub open spec fn stat_times(stat: Option<Seq<char>>) -> Seq<CpuTimes> {
    match stat {
        Some(raw) => core_times(lines(raw)),
        None => seq![],
    }
}

/// Per-core tick counters for the [`Sweeper`] delta math.
pub fn read_core_times(stat: &Option<String>) -> (r: Vec<CpuTimes>)
    ensures
        r@ == stat_times(text_of(*stat)),
{
    match stat {
        Some(raw) => parse_core_times(raw.as_str()),
        None => Vec::new(),
    }
}

/// The busy share of a core between two samples; one that did not tick was not
/// busy.
pub open spec fn core_share(next: CpuTimes, prev: CpuTimes) -> (u64, u64) {
    match next.share_since(prev) {
        Some(share) => share,
        None => (0, 1),
    }
}

/// The busy shares of the cores between two sweeps, one for each core with an
/// earlier sample, in the order of the cores.
pub open spec fn core_shares(next: Seq<CpuTimes>, prev: Seq<CpuTimes>) -> Seq<(u64, u64)> {
    Seq::new(
        if next.len() <= prev.len() {
            next.len()
        } else {
            prev.len()
        },
        |core: int| core_share(next[core], prev[core]),
    )
}

/// The busy shares of the cores that ticked between two sweeps, in the order of
/// the cores.
pub open spec fn measured_shares(next: Seq<CpuTimes>, prev: Seq<CpuTimes>) -> Seq<(u64, u64)>
    decreases next.len(),
{
    if next.len() == 0 {
        seq![]
    } else {
        let front = measured_shares(next.drop_last(), prev);
        let core = next.len() - 1;
        if core < prev.len() {
            match next[core].share_since(prev[core]) {
                Some(share) => front.push(share),
                None => front,
            }
        } else {
            front
        }
    }
}

/// A name and two counters, such as a disk with its sectors read and written.
pub struct Count {
    pub name: Seq<char>,
    pub inward: u64,
    pub outward: u64,
}

/// The primary disk with its sectors read and written.
pub open spec fn disk_count(diskstats: Option<Seq<char>>) -> Option<Count> {
    match diskstats {
        Some(raw) => match primary_disk(raw) {
            Some(name) => match diskstats_sectors(raw, name) {
                Some((inward, outward)) => Some(Count { name, inward, outward }),
                None => None,
            },
            None => None,
        },
        None => None,
    }
}

/// The primary wireless interface with its bytes received and sent.
pub open spec fn net_count(net_dev: Option<Seq<char>>) -> Option<Count> {
    match net_dev {
        Some(raw) => match primary_wireless(raw) {
            Some(name) => match net_dev_bytes(raw, name) {
                Some((inward, outward)) => Some(Count { name, inward, outward }),
                None => None,
            },
            None => None,
        },
        None => None,
    }
}

/// What a counter gained; one that went backwards gained nothing.
pub open spec fn gained(now: u64, before: u64) -> u64 {
    if now >= before {
        (now - before) as u64
    } else {
        0
    }
}

/// A count and when it was taken.
pub struct Kept {
    pub count: Count,
    pub at: Instant,
}

/// What was gained inward and outward between two counts, and in how many
/// nanoseconds: nothing without an earlier count of the same name, or when no
/// time passed.
pub open spec fn gain(prev: Option<Kept>, count: Option<Count>, now: Instant) -> Option<
    (u64, u64, u128),
> {
    match (prev, count) {
        (Some(p), Some(n)) => {
            let nanos = nanoseconds(span_between(now, p.at));
            if p.count.name == n.name && nanos > 0 {
                Some(
                    (
                        gained(n.inward, p.count.inward),
                        gained(n.outward, p.count.outward),
                        nanos,
                    ),
                )
            } else {
                None
            }
        },
        _ => None,
    }
}

/// The count to compare the next one with: the latest one there is.
pub open spec fn baseline(prev: Option<Kept>, count: Option<Count>, now: Instant) -> Option<Kept> {
    match count {
        Some(count) => Some(Kept { count, at: now }),
        None => prev,
    }
}

/// A name and two counters.
pub open spec fn count_of(found: Option<(String, u64, u64)>) -> Option<Count> {
    match found {
        Some((name, inward, outward)) => Some(Count { name: name@, inward, outward }),
        None => None,
    }
}

/// A name and two counters as they are kept between sweeps.
pub open spec fn kept_of(kept: Option<(String, u64, u64, Instant)>) -> Option<Kept> {
    match kept {
        Some((name, inward, outward, at)) => Some(
            Kept { count: Count { name: name@, inward, outward }, at },
        ),
        None => None,
    }
}

/// The shares as terms.
pub open spec fn share_terms(shares: Seq<(u64, u64)>) -> Seq<Term> {
    Seq::new(shares.len(), |i: int| Term::Share(shares[i].0, shares[i].1))
}

/// The rates of one sweep, to be evaluated.
pub struct Rates {
    pub cores: Vec<Formula>,
    pub utilization: Option<Formula>,
    pub disk_io: Option<DiskIo<Formula>>,
    pub net_io: Option<NetIo<Formula>>,
}

impl Rates {
    /// The rates are those of the busy shares, of which the measured ones make up
    /// the utilization, and of what disk and network gained.
    pub open spec fn from(
        self,
        shares: Seq<(u64, u64)>,
        measured: Seq<(u64, u64)>,
        disk: Option<(u64, u64, u128)>,
        net: Option<(u64, u64, u128)>,
    ) -> bool {
        &&& terms(self.cores@) == share_terms(shares)
        &&& term(self.utilization) == if measured.len() > 0 {
            Some(Term::MeanShare(measured))
        } else {
            None
        }
        &&& match (self.disk_io, disk) {
            (Some(io), Some((read, written, nanos))) => {
                &&& io.read_mib_s@ == Term::SectorRate(read, nanos)
                &&& io.write_mib_s@ == Term::SectorRate(written, nanos)
            },
            (None, None) => true,
            _ => false,
        }
        &&& match (self.net_io, net) {
            (Some(io), Some((rx, tx, nanos))) => {
                &&& io.rx_kib_s@ == Term::ByteRate(rx, nanos)
                &&& io.tx_kib_s@ == Term::ByteRate(tx, nanos)
            },
            (None, None) => true,
            _ => false,
        }
    }
}

/// Stateful wrapper producing per-sweep deltas for CPU, disk and net rates.
pub struct Sweeper {
    prev_times: Vec<CpuTimes>,
    prev_disk: Option<(String, u64, u64, Instant)>,
    prev_net: Option<(String, u64, u64, Instant)>,
}

fn counted_disk(diskstats: &Option<String>) -> (r: Option<(String, u64, u64)>)
    ensures
        count_of(r) == disk_count(text_of(*diskstats)),
{
    match diskstats {
        Some(raw) => match parse_primary_disk(raw.as_str()) {
            Some(device) => match parse_diskstats_sectors(raw.as_str(), device.as_str()) {
                Some((read, written)) => Some((device, read, written)),
                None => None,
            },
            None => None,
        },
        None => None,
    }
}

fn counted_net(net_dev: &Option<String>) -> (r: Option<(String, u64, u64)>)
    ensures
        count_of(r) == net_count(text_of(*net_dev)),
{
    match net_dev {
        Some(raw) => match parse_primary_wireless(raw.as_str()) {
            Some(iface) => match parse_net_dev_bytes(raw.as_str(), iface.as_str()) {
                Some((rx, tx)) => Some((iface, rx, tx)),
                None => None,
            },
            None => None,
        },
        None => None,
    }
}

fn gain_between(
    prev: &Option<(String, u64, u64, Instant)>,
    name: &str,
    inward: u64,
    outward: u64,
    now: Instant,
) -> (r: Option<(u64, u64, u128)>)
    ensures
        r == gain(kept_of(*prev), Some(Count { name: name@, inward, outward }), now),
{
    match prev {
        Some(p) => {
            let nanos = now.duration_since(p.3).as_nanos();
            if same(p.0.as_str(), name) && nanos > 0 {
                Some((inward.saturating_sub(p.1), outward.saturating_sub(p.2), nanos))
            } else {
                None
            }
        },
        None => None,
    }
}

fn shares_between(next: &Vec<CpuTimes>, prev: &Vec<CpuTimes>) -> (r: Vec<(u64, u64)>)
    ensures
        r@ == core_shares(next@, prev@),
{
    let mut out: Vec<(u64, u64)> = Vec::new();
    let mut core: usize = 0;
    while core < next.len() && core < prev.len()
        invariant
            core <= next@.len(),
            core <= prev@.len(),
            out@.len() == core,
            forall|k: int| 0 <= k < core ==> #[trigger] out@[k] == core_share(next@[k], prev@[k]),
        decreases next@.len() - core,
    {
        let share = match next[core].busy_share(&prev[core]) {
            Some(share) => share,
            None => (0, 1),
        };
        out.push(share);
        core = core + 1;
    }
    assert(out@ =~= core_shares(next@, prev@));
    out
}

fn shares_measured(next: &Vec<CpuTimes>, prev: &Vec<CpuTimes>) -> (r: Vec<(u64, u64)>)
    ensures
        r@ == measured_shares(next@, prev@),
{
    let mut out: Vec<(u64, u64)> = Vec::new();
    let mut core: usize = 0;
    while core < next.len()
        invariant
            core <= next@.len(),
            out@ == measured_shares(next@.take(core as int), prev@),
        decreases next@.len() - core,
    {
        assert(next@.take(core + 1).drop_last() == next@.take(core as int));
        if core < prev.len() {
            if let Some(share) = next[core].busy_share(&prev[core]) {
                out.push(share);
            }
        }
        core = core + 1;
    }
    assert(next@.take(core as int) == next@);
    out
}

fn share_formulas(shares: &Vec<(u64, u64)>) -> (r: Vec<Formula>)
    ensures
        terms(r@) == share_terms(shares@),
{
    let mut out: Vec<Formula> = Vec::new();
    let mut i: usize = 0;
    while i < shares.len()
        invariant
            i <= shares@.len(),
            out@.len() == i,
            forall|k: int|
                0 <= k < i ==> (#[trigger] out@[k])@ == Term::Share(shares@[k].0, shares@[k].1),
        decreases shares@.len() - i,
    {
        out.push(Formula::Share { part: shares[i].0, whole: shares[i].1 });
        i = i + 1;
    }
    assert(terms(out@) == share_terms(shares@));
    out
}

/// One sweep of a [`Sweeper`]: when it began and what the probe answered.
pub struct Pass {
    pub now: Instant,
    pub texts: SweepTexts,
    pub counters: CounterTexts,
}

impl Sweeper {
    /// The tick counters of the previous sweep.
    pub closed spec fn times(self) -> Seq<CpuTimes> {
        self.prev_times@
    }

    /// The last count of a disk.
    pub closed spec fn disk(self) -> Option<Kept> {
        kept_of(self.prev_disk)
    }

    /// The last count of a wireless interface.
    pub closed spec fn net(self) -> Option<Kept> {
        kept_of(self.prev_net)
    }

    /// No sweep has been made.
    pub open spec fn fresh(self) -> bool {
        self.times().len() == 0 && self.disk() is None && self.net() is None
    }

    pub fn new() -> (r: Sweeper)
        ensures
            r.fresh(),
    {
        Sweeper { prev_times: Vec::new(), prev_disk: None, prev_net: None }
    }

    /// Computes the rates of a sweep from its counters and the point in time at
    /// which it began, and keeps them for the next.
    pub fn advance(&mut self, texts: &CounterTexts, now: Instant) -> (r: Rates)
        ensures
            r.from(
                core_shares(stat_times(text_of(texts.stat)), old(self).times()),
                measured_shares(stat_times(text_of(texts.stat)), old(self).times()),
                gain(old(self).disk(), disk_count(text_of(texts.diskstats)), now),
                gain(old(self).net(), net_count(text_of(texts.net_dev)), now),
            ),
            final(self).times() == stat_times(text_of(texts.stat)),
            final(self).disk() == baseline(
                old(self).disk(),
                disk_count(text_of(texts.diskstats)),
                now,
            ),
            final(self).net() == baseline(old(self).net(), net_count(text_of(texts.net_dev)), now),
    {
        // Per-core and aggregate utilization from tick deltas.
        let times = read_core_times(&texts.stat);
        let shares = shares_between(&times, &self.prev_times);
        let measured = shares_measured(&times, &self.prev_times);
        self.prev_times = times;
        let cores = share_formulas(&shares);
        let utilization = if measured.len() > 0 {
            Some(Formula::MeanShare { shares: measured })
        } else {
            None
        };
        // Disk and network throughput from sector and byte deltas.
        let disk_io = match counted_disk(&texts.diskstats) {
            Some((device, read, written)) => self.rate_disk(device.as_str(), read, written, now),
            None => None,
        };
        let net_io = match counted_net(&texts.net_dev) {
            Some((iface, rx, tx)) => self.rate_net(iface.as_str(), rx, tx, now),
            None => None,
        };
        Rates { cores, utilization, disk_io, net_io }
    }

    /// The disk throughput from 512-byte sector deltas since the last count;
    /// `None` on the first one or a device swap. Whatever comes out, the next
    /// count is compared with this one.
    pub fn rate_disk(&mut self, device: &str, read: u64, written: u64, now: Instant) -> (r: Option<
        DiskIo<Formula>,
    >)
        ensures
            match (
                r,
                gain(
                    old(self).disk(),
                    Some(Count { name: device@, inward: read, outward: written }),
                    now,
                ),
            ) {
                (Some(io), Some((read, written, nanos))) => {
                    &&& io.read_mib_s@ == Term::SectorRate(read, nanos)
                    &&& io.write_mib_s@ == Term::SectorRate(written, nanos)
                },
                (None, None) => true,
                _ => false,
            },
            final(self).disk() == Some(
                Kept { count: Count { name: device@, inward: read, outward: written }, at: now },
            ),
            final(self).times() == old(self).times(),
            final(self).net() == old(self).net(),
    {
        let gain = gain_between(&self.prev_disk, device, read, written, now);
        self.prev_disk = Some((device.to_owned(), read, written, now));
        match gain {
            Some((read, written, nanos)) => Some(
                DiskIo {
                    read_mib_s: Formula::SectorRate { sectors: read, nanos },
                    write_mib_s: Formula::SectorRate { sectors: written, nanos },
                },
            ),
            None => None,
        }
    }

    /// The network throughput from byte deltas since the last count; `None` on
    /// the first one or an interface change. Whatever comes out, the next count
    /// is compared with this one.
    pub fn rate_net(&mut self, iface: &str, rx: u64, tx: u64, now: Instant) -> (r: Option<
        NetIo<Formula>,
    >)
        ensures
            match (
                r,
                gain(
                    old(self).net(),
                    Some(Count { name: iface@, inward: rx, outward: tx }),
                    now,
                ),
            ) {
                (Some(io), Some((rx, tx, nanos))) => {
                    &&& io.rx_kib_s@ == Term::ByteRate(rx, nanos)
                    &&& io.tx_kib_s@ == Term::ByteRate(tx, nanos)
                },
                (None, None) => true,
                _ => false,
            },
            final(self).net() == Some(
                Kept { count: Count { name: iface@, inward: rx, outward: tx }, at: now },
            ),
            final(self).times() == old(self).times(),
            final(self).disk() == old(self).disk(),
    {
        let gain = gain_between(&self.prev_net, iface, rx, tx, now);
        self.prev_net = Some((iface.to_owned(), rx, tx, now));
        match gain {
            Some((rx, tx, nanos)) => Some(
                NetIo {
                    rx_kib_s: Formula::ByteRate { bytes: rx, nanos },
                    tx_kib_s: Formula::ByteRate { bytes: tx, nanos },
                },
            ),
            None => None,
        }
    }

    /// One sweep: the draft holds what the probe answered and the rates since
    /// `before`, and `after` keeps the counters.
    pub open spec fn sweeps<P: Probe>(
        before: Sweeper,
        after: Sweeper,
        probe: &P,
        pass: Pass,
        draft: Pending,
    ) -> bool {
        let stat = stat_times(text_of(pass.counters.stat));
        let disk = disk_count(text_of(pass.counters.diskstats));
        let net = net_count(text_of(pass.counters.net_dev));
        &&& call_ensures(Instant::now, (), pass.now)
        &&& sweep_answered(probe, pass.texts)
        &&& counters_answered(probe, pass.counters)
        &&& drafted(draft, pass.texts)
        &&& (Rates {
            cores: draft.cores,
            utilization: draft.utilization,
            disk_io: draft.disk_io,
            net_io: draft.net_io,
        }).from(
            core_shares(stat, before.times()),
            measured_shares(stat, before.times()),
            gain(before.disk(), disk, pass.now),
            gain(before.net(), net, pass.now),
        )
        &&& after.times() == stat
        &&& after.disk() == baseline(before.disk(), disk, pass.now)
        &&& after.net() == baseline(before.net(), net, pass.now)
    }

    /// Run one sweep, computing rates against the previous run. The first sweep
    /// establishes baselines and reports no rates.
    pub fn sweep<P: Probe>(&mut self, probe: &P, clock: &Clock) -> (r: Pending)
        ensures
            exists|now: Instant|
                call_ensures(Instant::now, (), now) && r.elapsed_ms == #[trigger] ms_between(
                    now,
                    clock.0,
                ),
            exists|pass: Pass| #[trigger]
                Sweeper::sweeps(*old(self), *final(self), probe, pass, r),
    {
        let now = Instant::now();
        let collected = collect_snapshot(probe, clock);
        let counters = read_counter_texts(probe);
        let rates = self.advance(&counters, now);
        let ghost texts = choose|t: SweepTexts| #[trigger]
            sweep_answered(probe, t) && drafted(collected, t);
        let draft = Draft {
            cores: rates.cores,
            utilization: rates.utilization,
            disk_io: rates.disk_io,
            net_io: rates.net_io,
            ..collected
        };
        proof {
            assert(drafted(draft, texts));
            assert(Sweeper::sweeps(
                *old(self),
                *self,
                probe,
                Pass { now, texts, counters },
                draft,
            ));
        }
        draft
    }
}

impl Default for Sweeper {
    fn default() -> (r: Sweeper)
        ensures
            r.fresh(),
    {
        Sweeper::new()
    }
}

/// The first sweep establishes baselines and reports no rates.
pub proof fn law_first_sweep_has_no_rates<P: Probe>(
    before: Sweeper,
    after: Sweeper,
    probe: &P,
    pass: Pass,
    draft: Pending,
)
    requires
        before.fresh(),
        Sweeper::sweeps(before, after, probe, pass, draft),
    ensures
        rateless(draft),
        after.times() == stat_times(text_of(pass.counters.stat)),
        after.disk() == baseline(None, disk_count(text_of(pass.counters.diskstats)), pass.now),
        after.net() == baseline(None, net_count(text_of(pass.counters.net_dev)), pass.now),
{
    assert(terms(draft.cores@).len() == 0);
    lemma_measured(stat_times(text_of(pass.counters.stat)), before.times());
}

/// After a first sweep the next one reports what was gained since: the busy
/// shares of the cores, and the traffic of the disk and of the wireless
/// interface over the time between the two sweeps.
pub proof fn law_second_sweep_has_rates<P: Probe>(
    fresh: Sweeper,
    between: Sweeper,
    after: Sweeper,
    probe: &P,
    first: Pass,
    second: Pass,
    baseline_draft: Pending,
    draft: Pending,
)
    requires
        fresh.fresh(),
        Sweeper::sweeps(fresh, between, probe, first, baseline_draft),
        Sweeper::sweeps(between, after, probe, second, draft),
    ensures
        (Rates {
            cores: draft.cores,
            utilization: draft.utilization,
            disk_io: draft.disk_io,
            net_io: draft.net_io,
        }).from(
            core_shares(
                stat_times(text_of(second.counters.stat)),
                stat_times(text_of(first.counters.stat)),
            ),
            measured_shares(
                stat_times(text_of(second.counters.stat)),
                stat_times(text_of(first.counters.stat)),
            ),
            gain(
                baseline(None, disk_count(text_of(first.counters.diskstats)), first.now),
                disk_count(text_of(second.counters.diskstats)),
                second.now,
            ),
            gain(
                baseline(None, net_count(text_of(first.counters.net_dev)), first.now),
                net_count(text_of(second.counters.net_dev)),
                second.now,
            ),
        ),
{
}

/// Each core with an earlier sample has its own entry, in its own place. The
/// utilization is the mean over the cores that ticked, and there is one exactly
/// when one did.
pub proof fn law_one_entry_per_core<P: Probe>(
    before: Sweeper,
    after: Sweeper,
    probe: &P,
    pass: Pass,
    draft: Pending,
)
    requires
        Sweeper::sweeps(before, after, probe, pass, draft),
    ensures
        ({
            let next = stat_times(text_of(pass.counters.stat));
            let prev = before.times();
            &&& next.len() <= prev.len() ==> draft.cores@.len() == next.len()
            &&& prev.len() <= next.len() ==> draft.cores@.len() == prev.len()
            &&& forall|core: int|
                0 <= core < draft.cores@.len() ==> (#[trigger] draft.cores@[core])@ == Term::Share(
                    core_share(next[core], prev[core]).0,
                    core_share(next[core], prev[core]).1,
                )
            &&& draft.utilization is Some <==> exists|core: int|
                {
                    &&& 0 <= core < draft.cores@.len()
                    &&& (#[trigger] next[core]).share_since(prev[core]) is Some
                }
            &&& draft.utilization is Some ==> term(draft.utilization) == Some(
                Term::MeanShare(measured_shares(next, prev)),
            )
        }),
{
    let shares = core_shares(stat_times(text_of(pass.counters.stat)), before.times());
    assert(terms(draft.cores@).len() == share_terms(shares).len());
    assert forall|core: int| 0 <= core < draft.cores@.len() implies (
    #[trigger] draft.cores@[core])@ == Term::Share(shares[core].0, shares[core].1) by {
        assert(terms(draft.cores@)[core] == share_terms(shares)[core]);
    }
    lemma_measured(stat_times(text_of(pass.counters.stat)), before.times());
}

proof fn lemma_measured(next: Seq<CpuTimes>, prev: Seq<CpuTimes>)
    ensures
        measured_shares(next, prev).len() <= next.len(),
        measured_shares(next, prev).len() <= prev.len(),
        measured_shares(next, prev).len() > 0 <==> exists|core: int|
            {
                &&& 0 <= core < next.len()
                &&& core < prev.len()
                &&& (#[trigger] next[core]).share_since(prev[core]) is Some
            },
        forall|i: int|
            0 <= i < measured_shares(next, prev).len() ==> (#[trigger] measured_shares(
                next,
                prev,
            )[i]).0 <= measured_shares(next, prev)[i].1 && 0 < measured_shares(next, prev)[i].1,
    decreases next.len(),
{
    if next.len() > 0 {
        let rest = next.drop_last();
        let front = measured_shares(rest, prev);
        let all = measured_shares(next, prev);
        let last = next.len() - 1;
        lemma_measured(rest, prev);
        if last < prev.len() {
            law_share_of_a_whole(next[last], prev[last]);
        }
        assert forall|i: int| 0 <= i < all.len() implies (#[trigger] all[i]).0 <= all[i].1 && 0
            < all[i].1 by {
            if i < front.len() {
                assert(all[i] == front[i]);
            }
        }
        if front.len() > 0 {
            let core = choose|core: int|
                {
                    &&& 0 <= core < rest.len()
                    &&& core < prev.len()
                    &&& (#[trigger] rest[core]).share_since(prev[core]) is Some
                };
            assert(next[core] == rest[core]);
        }
        assert forall|core: int|
            0 <= core < next.len() && core < prev.len() && (#[trigger] next[core]).share_since(
                prev[core],
            ) is Some implies all.len() > 0 by {
            if core < rest.len() {
                assert(rest[core] == next[core]);
            }
        }
    }
}

/// A disk has a rate exactly when it was counted before, under the same name,
/// and time has passed since; and so has a wireless interface. Each direction
/// gained what its counter did, or nothing where that went backwards, over the
/// time since the earlier count.
pub proof fn law_when_there_is_a_rate<P: Probe>(
    before: Sweeper,
    after: Sweeper,
    probe: &P,
    pass: Pass,
    draft: Pending,
)
    requires
        Sweeper::sweeps(before, after, probe, pass, draft),
    ensures
        ({
            let disk = disk_count(text_of(pass.counters.diskstats));
            let net = net_count(text_of(pass.counters.net_dev));
            &&& draft.disk_io is Some <==> {
                &&& before.disk() is Some && disk is Some
                &&& before.disk()->0.count.name == disk->0.name
                &&& nanoseconds(span_between(pass.now, before.disk()->0.at)) > 0
            }
            &&& draft.net_io is Some <==> {
                &&& before.net() is Some && net is Some
                &&& before.net()->0.count.name == net->0.name
                &&& nanoseconds(span_between(pass.now, before.net()->0.at)) > 0
            }
            &&& draft.disk_io matches Some(io) ==> {
                let p = before.disk()->0;
                let nanos = nanoseconds(span_between(pass.now, p.at));
                &&& io.read_mib_s@ == Term::SectorRate(
                    gained(disk->0.inward, p.count.inward),
                    nanos,
                )
                &&& io.write_mib_s@ == Term::SectorRate(
                    gained(disk->0.outward, p.count.outward),
                    nanos,
                )
            }
            &&& draft.net_io matches Some(io) ==> {
                let p = before.net()->0;
                let nanos = nanoseconds(span_between(pass.now, p.at));
                &&& io.rx_kib_s@ == Term::ByteRate(gained(net->0.inward, p.count.inward), nanos)
                &&& io.tx_kib_s@ == Term::ByteRate(gained(net->0.outward, p.count.outward), nanos)
            }
        }),
{
}

/// A sweep that finds no counters has no rates of them and leaves the counts as
/// they were, with their times: the next rates are over the whole time since.
pub proof fn law_missed_counts_keep_their_time<P: Probe>(
    before: Sweeper,
    after: Sweeper,
    probe: &P,
    pass: Pass,
    draft: Pending,
)
    requires
        Sweeper::sweeps(before, after, probe, pass, draft),
    ensures
        disk_count(text_of(pass.counters.diskstats)) is None ==> draft.disk_io is None
            && after.disk() == before.disk(),
        net_count(text_of(pass.counters.net_dev)) is None ==> draft.net_io is None && after.net()
            == before.net(),
{
}

/// Every rate can be evaluated without a division by zero, and every share is a
/// part of its whole.
pub proof fn law_rates_are_sound<P: Probe>(
    before: Sweeper,
    after: Sweeper,
    probe: &P,
    pass: Pass,
    draft: Pending,
)
    requires
        Sweeper::sweeps(before, after, probe, pass, draft),
    ensures
        forall|i: int|
            0 <= i < draft.cores@.len() ==> ((#[trigger] draft.cores@[i])@ matches Term::Share(
                part,
                whole,
            ) && part <= whole && 0 < whole),
        draft.utilization matches Some(mean) ==> (mean@ matches Term::MeanShare(shares)
            && shares.len() > 0 && forall|i: int|
            0 <= i < shares.len() ==> (#[trigger] shares[i]).0 <= shares[i].1 && 0 < shares[i].1),
        draft.disk_io matches Some(io) ==> {
            &&& io.read_mib_s@ matches Term::SectorRate(_, nanos) && nanos > 0
            &&& io.write_mib_s@ matches Term::SectorRate(_, nanos) && nanos > 0
        },
        draft.net_io matches Some(io) ==> {
            &&& io.rx_kib_s@ matches Term::ByteRate(_, nanos) && nanos > 0
            &&& io.tx_kib_s@ matches Term::ByteRate(_, nanos) && nanos > 0
        },
{
    let next = stat_times(text_of(pass.counters.stat));
    let prev = before.times();
    law_one_entry_per_core(before, after, probe, pass, draft);
    assert(terms(draft.cores@).len() == share_terms(core_shares(next, prev)).len());
    assert forall|i: int| 0 <= i < draft.cores@.len() implies ((
    #[trigger] draft.cores@[i])@ matches Term::Share(part, whole) && part <= whole && 0
        < whole) by {
        law_share_of_a_whole(next[i], prev[i]);
    }
    lemma_measured(next, prev);
}

} // verus!
