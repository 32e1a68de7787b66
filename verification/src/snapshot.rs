//! One sensor sweep: first as a draft whose numbers are still formulas, then as
//! a snapshot of values.

use std::collections::BTreeMap;

use vstd::prelude::*;

use crate::probe::{ask_temp, may_run, measure_temp, Probe};
use crate::sensors::{
    below_zero_in, finite_only, finite_value, first_below_zero, law_level_is_below_zero,
    seconds_from, whole_seconds,
};
use crate::single::{Double, Single};
use crate::table::{lemma_beside, lemma_found, pairs_of, Table};
use crate::text::text_of;
use crate::throttle::ThrottleState;
use crate::units::{vcgencmd_missing, vcgencmd_missing_text};

verus! {

/// One CPU core's utilization for the current snapshot, between zero and one.
#[derive(Debug, Clone, Copy, Default, PartialEq, Eq, Structural)]
pub struct CoreState {
    pub utilization: Single,
}

/// Memory usage block for the gauges.
#[derive(Debug, Clone, Copy, Default, PartialEq)]
pub struct MemoryInfo<N> {
    pub used_pct: N,
    pub buff_cache_pct: N,
    pub swap_used_pct: Option<N>,
    pub total_mib: N,
    pub used_mib: N,
}

/// Disk throughput block, MiB per second.
#[derive(Debug, Clone, Copy, Default, PartialEq)]
pub struct DiskIo<N> {
    pub read_mib_s: N,
    pub write_mib_s: N,
}

/// Network throughput block, KiB per second.
#[derive(Debug, Clone, Copy, Default, PartialEq)]
pub struct NetIo<N> {
    pub rx_kib_s: N,
    pub tx_kib_s: N,
}

/// A clock domain's frequency in MHz, in the precision it is judged in and in
/// the one it is shown in.
#[derive(Debug, Clone, Copy, PartialEq, Eq, Structural)]
pub struct Megahertz {
    pub wide: Double,
    pub narrow: Single,
}

/// One full sensor sweep, used directly as a chart data point.
#[derive(Debug, Clone)]
pub struct Snapshot {
    /// Milliseconds since app start, for the chart x axis.
    pub elapsed_ms: u64,
    pub soc_temp_c: Option<Single>,
    pub nvme_temp_c: Option<Single>,
    pub rp1_temp_c: Option<Single>,
    pub pmic_temp_c: Option<Single>,
    pub core_volts: Option<Single>,
    pub sdram_volatile_volts: Option<Single>,
    pub sdram_phy_volts: Option<Single>,
    pub arm_clock_mhz: Option<Single>,
    pub v3d_clock_mhz: Option<Single>,
    pub core_clock_mhz: Option<Single>,
    /// Every firmware clock domain that answered, MHz.
    pub all_clocks_mhz: Table<Single>,
    pub load_1m: Option<Single>,
    pub load_5m: Option<Single>,
    pub load_15m: Option<Single>,
    /// Seconds since boot, from /proc/uptime.
    pub uptime_secs: Option<u64>,
    pub rssi_dbm: Option<Single>,
    pub throttle: ThrottleState,
    /// Level of the firmware undervoltage alarm (`rpi_volt` hwmon).
    pub undervolt_alarm: bool,
    /// Why this sweep is mostly empty, if it is.
    pub error: Option<String>,
    /// Per-core utilization between zero and one, one entry per core.
    pub cores: Vec<CoreState>,
    /// Aggregate CPU utilization across all cores, between zero and one: the mean
    /// over those that ticked.
    pub utilization_pct: Option<Single>,
    /// Memory block: percents and MiB readouts.
    pub memory: Option<MemoryInfo<Single>>,
    /// NVMe throughput since the previous sweep, MiB/s. After a sweep that could
    /// not count the disk it is that since the last count.
    pub disk_io: Option<DiskIo<Single>>,
    /// Wireless throughput since the previous sweep, KiB/s, or since the last
    /// count like that of the disk.
    pub net_io: Option<NetIo<Single>>,
    /// Enabled voltage regulators, volts, from /sys/class/regulator.
    pub regulators_v: Table<Single>,
    /// Raw RP1 ADC inputs in millivolts, keyed by input number (in1..in4).
    pub rp1_adc_mv: BTreeMap<u8, Single>,
    /// Extra temperature zones found in /sys/class/thermal beyond zone0,
    /// e.g. on other boards or after a user adds a sensor overlay.
    pub extra_zones_c: Table<Single>,
}

/// A sweep before its numbers are evaluated, or just after: a cell of type `N`
/// stands for a number, one of type `H` for a frequency, one of type `S` for
/// the seconds since boot.
///
/// Which cells there are depends on what the probe answered alone. What becomes
/// of a cell whose evaluation fails is decided by [`Draft::settle`].
#[derive(Debug)]
pub struct Draft<N, H, S> {
    pub elapsed_ms: u64,
    /// The first thermal zone.
    pub soc: Option<N>,
    /// The further thermal zones by their labels, in the order of the zones.
    pub zones: Vec<(String, N)>,
    pub nvme: Option<N>,
    pub rp1: Option<N>,
    /// The ADC inputs by their numbers, in the order of the devices.
    pub adc: Vec<(u8, N)>,
    pub undervolt_alarm: bool,
    /// The firmware's own reading of the SoC temperature.
    pub soc_firmware: Option<N>,
    pub pmic: Option<N>,
    pub core_volts: Option<N>,
    pub sdram_volatile_volts: Option<N>,
    pub sdram_phy_volts: Option<N>,
    pub throttle: ThrottleState,
    /// The words of `/proc/loadavg`.
    pub loads: Vec<N>,
    pub memory: Option<MemoryInfo<N>>,
    pub uptime: Option<S>,
    /// The candidates for the Wi-Fi level.
    pub rssi: Vec<N>,
    /// The enabled regulators by their names, in the order of the rails.
    pub regulators: Vec<(String, N)>,
    /// The clock domains that answered.
    pub clocks: Vec<(String, H)>,
    pub cores: Vec<N>,
    pub utilization: Option<N>,
    pub disk_io: Option<DiskIo<N>>,
    pub net_io: Option<NetIo<N>>,
}

/// A draft with every cell evaluated; `None` is a text that is no number.
pub type Evaluated = Draft<Option<Single>, Option<Megahertz>, Option<i64>>;

// ------------------------------------------------------------- evaluation

/// `b` is what `f` made of `a`.
pub open spec fn made_option<A, B, F: Fn(&A) -> B>(f: F, a: Option<A>, b: Option<B>) -> bool {
    match (a, b) {
        (Some(x), Some(y)) => f.ensures((&x,), y),
        (None, None) => true,
        _ => false,
    }
}

/// `b` is what `f` made of the members of `a`, one for one.
pub open spec fn made_list<A, B, F: Fn(&A) -> B>(f: F, a: Seq<A>, b: Seq<B>) -> bool {
    &&& a.len() == b.len()
    &&& forall|i: int| 0 <= i < a.len() ==> f.ensures((&a[i],), #[trigger] b[i])
}

/// `b` has the names of `a`, and beside each what `f` made of its value.
pub open spec fn made_named<A, B, F: Fn(&A) -> B>(
    f: F,
    a: Seq<(String, A)>,
    b: Seq<(String, B)>,
) -> bool {
    &&& a.len() == b.len()
    &&& forall|i: int|
        0 <= i < a.len() ==> (#[trigger] b[i]).0@ == a[i].0@ && f.ensures((&a[i].1,), b[i].1)
}

/// `b` has the numbers of `a`, and beside each what `f` made of its value.
pub open spec fn made_numbered<A, B, F: Fn(&A) -> B>(
    f: F,
    a: Seq<(u8, A)>,
    b: Seq<(u8, B)>,
) -> bool {
    &&& a.len() == b.len()
    &&& forall|i: int|
        0 <= i < a.len() ==> (#[trigger] b[i]).0 == a[i].0 && f.ensures((&a[i].1,), b[i].1)
}

pub open spec fn made_memory<A, B, F: Fn(&A) -> B>(
    f: F,
    a: Option<MemoryInfo<A>>,
    b: Option<MemoryInfo<B>>,
) -> bool {
    match (a, b) {
        (Some(x), Some(y)) => {
            &&& f.ensures((&x.used_pct,), y.used_pct)
            &&& f.ensures((&x.buff_cache_pct,), y.buff_cache_pct)
            &&& made_option(f, x.swap_used_pct, y.swap_used_pct)
            &&& f.ensures((&x.total_mib,), y.total_mib)
            &&& f.ensures((&x.used_mib,), y.used_mib)
        },
        (None, None) => true,
        _ => false,
    }
}

pub open spec fn made_disk<A, B, F: Fn(&A) -> B>(
    f: F,
    a: Option<DiskIo<A>>,
    b: Option<DiskIo<B>>,
) -> bool {
    match (a, b) {
        (Some(x), Some(y)) => f.ensures((&x.read_mib_s,), y.read_mib_s) && f.ensures(
            (&x.write_mib_s,),
            y.write_mib_s,
        ),
        (None, None) => true,
        _ => false,
    }
}

pub open spec fn made_net<A, B, F: Fn(&A) -> B>(
    f: F,
    a: Option<NetIo<A>>,
    b: Option<NetIo<B>>,
) -> bool {
    match (a, b) {
        (Some(x), Some(y)) => f.ensures((&x.rx_kib_s,), y.rx_kib_s) && f.ensures(
            (&x.tx_kib_s,),
            y.tx_kib_s,
        ),
        (None, None) => true,
        _ => false,
    }
}

fn map_option<A, B, F: Fn(&A) -> B>(f: &F, a: &Option<A>) -> (r: Option<B>)
    requires
        forall|x: &A| f.requires((x,)),
    ensures
        made_option(*f, *a, r),
{
    match a {
        Some(x) => Some(f(x)),
        None => None,
    }
}

fn map_list<A, B, F: Fn(&A) -> B>(f: &F, a: &Vec<A>) -> (r: Vec<B>)
    requires
        forall|x: &A| f.requires((x,)),
    ensures
        made_list(*f, a@, r@),
{
    let mut out: Vec<B> = Vec::new();
    let mut i: usize = 0;
    while i < a.len()
        invariant
            i <= a@.len(),
            out@.len() == i,
            forall|x: &A| f.requires((x,)),
            forall|k: int| 0 <= k < i ==> f.ensures((&a@[k],), #[trigger] out@[k]),
        decreases a@.len() - i,
    {
        out.push(f(&a[i]));
        i = i + 1;
    }
    out
}

fn map_named<A, B, F: Fn(&A) -> B>(f: &F, a: &Vec<(String, A)>) -> (r: Vec<(String, B)>)
    requires
        forall|x: &A| f.requires((x,)),
    ensures
        made_named(*f, a@, r@),
{
    let mut out: Vec<(String, B)> = Vec::new();
    let mut i: usize = 0;
    while i < a.len()
        invariant
            i <= a@.len(),
            out@.len() == i,
            forall|x: &A| f.requires((x,)),
            forall|k: int|
                0 <= k < i ==> (#[trigger] out@[k]).0@ == a@[k].0@ && f.ensures(
                    (&a@[k].1,),
                    out@[k].1,
                ),
        decreases a@.len() - i,
    {
        out.push((a[i].0.clone(), f(&a[i].1)));
        i = i + 1;
    }
    out
}

fn map_numbered<A, B, F: Fn(&A) -> B>(f: &F, a: &Vec<(u8, A)>) -> (r: Vec<(u8, B)>)
    requires
        forall|x: &A| f.requires((x,)),
    ensures
        made_numbered(*f, a@, r@),
{
    let mut out: Vec<(u8, B)> = Vec::new();
    let mut i: usize = 0;
    while i < a.len()
        invariant
            i <= a@.len(),
            out@.len() == i,
            forall|x: &A| f.requires((x,)),
            forall|k: int|
                0 <= k < i ==> (#[trigger] out@[k]).0 == a@[k].0 && f.ensures(
                    (&a@[k].1,),
                    out@[k].1,
                ),
        decreases a@.len() - i,
    {
        out.push((a[i].0, f(&a[i].1)));
        i = i + 1;
    }
    out
}

impl<N, H, S> Draft<N, H, S> {
    /// Evaluates every cell: the numbers, the frequencies and the seconds since
    /// boot each by their own function.
    pub fn evaluate<M, I, T, F: Fn(&N) -> M, G: Fn(&H) -> I, K: Fn(&S) -> T>(
        &self,
        number: F,
        frequency: G,
        seconds: K,
    ) -> (r: Draft<M, I, T>)
        requires
            forall|x: &N| number.requires((x,)),
            forall|x: &H| frequency.requires((x,)),
            forall|x: &S| seconds.requires((x,)),
        ensures
            r.elapsed_ms == self.elapsed_ms,
            made_option(number, self.soc, r.soc),
            made_named(number, self.zones@, r.zones@),
            made_option(number, self.nvme, r.nvme),
            made_option(number, self.rp1, r.rp1),
            made_numbered(number, self.adc@, r.adc@),
            r.undervolt_alarm == self.undervolt_alarm,
            made_option(number, self.soc_firmware, r.soc_firmware),
            made_option(number, self.pmic, r.pmic),
            made_option(number, self.core_volts, r.core_volts),
            made_option(number, self.sdram_volatile_volts, r.sdram_volatile_volts),
            made_option(number, self.sdram_phy_volts, r.sdram_phy_volts),
            r.throttle == self.throttle,
            made_list(number, self.loads@, r.loads@),
            made_memory(number, self.memory, r.memory),
            made_option(seconds, self.uptime, r.uptime),
            made_list(number, self.rssi@, r.rssi@),
            made_named(number, self.regulators@, r.regulators@),
            made_named(frequency, self.clocks@, r.clocks@),
            made_list(number, self.cores@, r.cores@),
            made_option(number, self.utilization, r.utilization),
            made_disk(number, self.disk_io, r.disk_io),
            made_net(number, self.net_io, r.net_io),
    {
        Draft {
            elapsed_ms: self.elapsed_ms,
            soc: map_option(&number, &self.soc),
            zones: map_named(&number, &self.zones),
            nvme: map_option(&number, &self.nvme),
            rp1: map_option(&number, &self.rp1),
            adc: map_numbered(&number, &self.adc),
            undervolt_alarm: self.undervolt_alarm,
            soc_firmware: map_option(&number, &self.soc_firmware),
            pmic: map_option(&number, &self.pmic),
            core_volts: map_option(&number, &self.core_volts),
            sdram_volatile_volts: map_option(&number, &self.sdram_volatile_volts),
            sdram_phy_volts: map_option(&number, &self.sdram_phy_volts),
            throttle: self.throttle,
            loads: map_list(&number, &self.loads),
            memory: match &self.memory {
                Some(m) => Some(
                    MemoryInfo {
                        used_pct: number(&m.used_pct),
                        buff_cache_pct: number(&m.buff_cache_pct),
                        swap_used_pct: map_option(&number, &m.swap_used_pct),
                        total_mib: number(&m.total_mib),
                        used_mib: number(&m.used_mib),
                    },
                ),
                None => None,
            },
            uptime: map_option(&seconds, &self.uptime),
            rssi: map_list(&number, &self.rssi),
            regulators: map_named(&number, &self.regulators),
            clocks: map_named(&frequency, &self.clocks),
            cores: map_list(&number, &self.cores),
            utilization: map_option(&number, &self.utilization),
            disk_io: match &self.disk_io {
                Some(d) => Some(
                    DiskIo {
                        read_mib_s: number(&d.read_mib_s),
                        write_mib_s: number(&d.write_mib_s),
                    },
                ),
                None => None,
            },
            net_io: match &self.net_io {
                Some(n) => Some(
                    NetIo { rx_kib_s: number(&n.rx_kib_s), tx_kib_s: number(&n.tx_kib_s) },
                ),
                None => None,
            },
        }
    }
}

// ---------------------------------------------------------------- settling

/// The value of a cell that may be missing.
pub open spec fn cell_value(cell: Option<Option<Single>>) -> Option<Single> {
    match cell {
        Some(v) => v,
        None => None,
    }
}

/// A value, or else another.
pub open spec fn or_value(a: Option<Single>, b: Option<Single>) -> Option<Single> {
    match a {
        Some(_) => a,
        None => b,
    }
}

/// The values that are numbers, in their order.
pub open spec fn known(values: Seq<Option<Single>>) -> Seq<Single>
    decreases values.len(),
{
    if values.len() == 0 {
        seq![]
    } else {
        match values.last() {
            Some(v) => known(values.drop_last()).push(v),
            None => known(values.drop_last()),
        }
    }
}

pub open spec fn nth(values: Seq<Single>, n: int) -> Option<Single> {
    if n < values.len() {
        Some(values[n])
    } else {
        None
    }
}

/// The last number that stands beside a name.
pub open spec fn last_known(
    pairs: Seq<(Seq<char>, Option<Single>)>,
    name: Seq<char>,
) -> Option<Single>
    decreases pairs.len(),
{
    if pairs.len() == 0 {
        None
    } else if pairs.last().0 == name && pairs.last().1 is Some {
        pairs.last().1
    } else {
        last_known(pairs.drop_last(), name)
    }
}

/// The numbers under their input numbers, the last one where an input occurs
/// again.
pub open spec fn inputs_map(adc: Seq<(u8, Option<Single>)>) -> Map<u8, Single>
    decreases adc.len(),
{
    if adc.len() == 0 {
        Map::empty()
    } else {
        match adc.last().1 {
            Some(v) => inputs_map(adc.drop_last()).insert(adc.last().0, v),
            None => inputs_map(adc.drop_last()),
        }
    }
}

/// What is shown of a frequency: nothing of one that is infinite, not a number
/// or below zero.
pub open spec fn clock_value(clock: Option<Megahertz>) -> Option<Single> {
    match clock {
        Some(mhz) => if mhz.wide.finite() && mhz.wide.ge_zero() {
            Some(mhz.narrow)
        } else {
            None
        },
        None => None,
    }
}

/// The frequencies as they are shown.
pub open spec fn clock_pairs(clocks: Seq<(String, Option<Megahertz>)>) -> Seq<
    (Seq<char>, Option<Single>),
> {
    Seq::new(clocks.len(), |i: int| (clocks[i].0@, clock_value(clocks[i].1)))
}

/// A memory block, if each of its figures has a value.
pub open spec fn memory_value(memory: Option<MemoryInfo<Option<Single>>>) -> Option<
    MemoryInfo<Single>,
> {
    match memory {
        Some(m) => match (m.used_pct, m.buff_cache_pct, m.total_mib, m.used_mib) {
            (Some(used_pct), Some(buff_cache_pct), Some(total_mib), Some(used_mib)) => Some(
                MemoryInfo {
                    used_pct,
                    buff_cache_pct,
                    swap_used_pct: cell_value(m.swap_used_pct),
                    total_mib,
                    used_mib,
                },
            ),
            _ => None,
        },
        None => None,
    }
}

pub open spec fn disk_value(disk: Option<DiskIo<Option<Single>>>) -> Option<DiskIo<Single>> {
    match disk {
        Some(d) => match (d.read_mib_s, d.write_mib_s) {
            (Some(read_mib_s), Some(write_mib_s)) => Some(DiskIo { read_mib_s, write_mib_s }),
            _ => None,
        },
        None => None,
    }
}

pub open spec fn net_value(net: Option<NetIo<Option<Single>>>) -> Option<NetIo<Single>> {
    match net {
        Some(n) => match (n.rx_kib_s, n.tx_kib_s) {
            (Some(rx_kib_s), Some(tx_kib_s)) => Some(NetIo { rx_kib_s, tx_kib_s }),
            _ => None,
        },
        None => None,
    }
}

/// What a sweep without any board temperature says of itself.
pub open spec fn fault(
    soc: Option<Single>,
    pmic: Option<Single>,
    zones: nat,
    firmware_answers: bool,
) -> Option<Seq<char>> {
    if soc is None && pmic is None && zones == 0 {
        Some(
            if firmware_answers {
                "no thermal zones or firmware sensors found"@
            } else {
                vcgencmd_missing_text()
            },
        )
    } else {
        None
    }
}

/// The utilizations of a list of cores.
pub open spec fn utilizations(cores: Seq<CoreState>) -> Seq<Single> {
    Seq::new(cores.len(), |i: int| cores[i].utilization)
}

/// The snapshot is what the evaluated draft says.
pub open spec fn settled(d: Evaluated, firmware_answers: bool, s: Snapshot) -> bool {
    &&& s.elapsed_ms == d.elapsed_ms
    &&& s.soc_temp_c == or_value(cell_value(d.soc), finite_value(cell_value(d.soc_firmware)))
    &&& s.nvme_temp_c == cell_value(d.nvme)
    &&& s.rp1_temp_c == cell_value(d.rp1)
    &&& s.pmic_temp_c == finite_value(cell_value(d.pmic))
    &&& s.core_volts == finite_value(cell_value(d.core_volts))
    &&& s.sdram_volatile_volts == finite_value(cell_value(d.sdram_volatile_volts))
    &&& s.sdram_phy_volts == finite_value(cell_value(d.sdram_phy_volts))
    &&& s.all_clocks_mhz.wf()
    &&& forall|k: Seq<char>| #[trigger]
        s.all_clocks_mhz.lookup(k) == last_known(clock_pairs(d.clocks@), k)
    &&& s.arm_clock_mhz == s.all_clocks_mhz.lookup("arm"@)
    &&& s.v3d_clock_mhz == s.all_clocks_mhz.lookup("v3d"@)
    &&& s.core_clock_mhz == s.all_clocks_mhz.lookup("core"@)
    &&& s.load_1m == nth(known(d.loads@), 0)
    &&& s.load_5m == nth(known(d.loads@), 1)
    &&& s.load_15m == nth(known(d.loads@), 2)
    &&& s.uptime_secs == match d.uptime {
        Some(Some(floor)) => seconds_from(floor),
        _ => None,
    }
    &&& s.rssi_dbm == below_zero_in(d.rssi@)
    &&& s.throttle == d.throttle
    &&& s.undervolt_alarm == d.undervolt_alarm
    &&& text_of(s.error) == fault(
        s.soc_temp_c,
        s.pmic_temp_c,
        s.extra_zones_c@.len(),
        firmware_answers,
    )
    &&& utilizations(s.cores@) == known(d.cores@)
    &&& s.utilization_pct == cell_value(d.utilization)
    &&& s.memory == memory_value(d.memory)
    &&& s.disk_io == disk_value(d.disk_io)
    &&& s.net_io == net_value(d.net_io)
    &&& s.regulators_v.wf()
    &&& forall|k: Seq<char>| #[trigger]
        s.regulators_v.lookup(k) == last_known(pairs_of(d.regulators@), k)
    &&& s.rp1_adc_mv@ == inputs_map(d.adc@)
    &&& s.extra_zones_c.wf()
    &&& forall|k: Seq<char>| #[trigger]
        s.extra_zones_c.lookup(k) == last_known(pairs_of(d.zones@), k)
}

fn value_of(cell: Option<Option<Single>>) -> (r: Option<Single>)
    ensures
        r == cell_value(cell),
{
    match cell {
        Some(v) => v,
        None => None,
    }
}

fn known_values(values: &Vec<Option<Single>>) -> (r: Vec<Single>)
    ensures
        r@ == known(values@),
{
    let mut out: Vec<Single> = Vec::new();
    let mut i: usize = 0;
    while i < values.len()
        invariant
            i <= values@.len(),
            out@ == known(values@.take(i as int)),
        decreases values@.len() - i,
    {
        assert(values@.take(i + 1).drop_last() == values@.take(i as int));
        if let Some(v) = values[i] {
            out.push(v);
        }
        i = i + 1;
    }
    assert(values@.take(i as int) == values@);
    out
}

fn nth_value(values: &Vec<Single>, n: usize) -> (r: Option<Single>)
    ensures
        r == nth(values@, n as int),
{
    if n < values.len() {
        Some(values[n])
    } else {
        None
    }
}

fn shown_clock(clock: &Option<Megahertz>) -> (r: Option<Single>)
    ensures
        r == clock_value(*clock),
{
    match clock {
        Some(mhz) => if mhz.wide.is_finite_from_zero() {
            Some(mhz.narrow)
        } else {
            None
        },
        None => None,
    }
}

fn named_values(list: &Vec<(String, Option<Single>)>) -> (r: Table<Single>)
    ensures
        r.wf(),
        forall|k: Seq<char>| #[trigger] r.lookup(k) == last_known(pairs_of(list@), k),
{
    let mut out: Table<Single> = Table::new();
    let ghost all = pairs_of(list@);
    let mut i: usize = 0;
    while i < list.len()
        invariant
            i <= list@.len(),
            all == pairs_of(list@),
            out.wf(),
            forall|k: Seq<char>| #[trigger] out.lookup(k) == last_known(all.take(i as int), k),
        decreases list@.len() - i,
    {
        assert(all.take(i + 1).drop_last() == all.take(i as int));
        if let Some(v) = list[i].1 {
            out.insert(list[i].0.clone(), v);
        }
        i = i + 1;
    }
    assert(all.take(i as int) == all);
    out
}

fn clock_table(list: &Vec<(String, Option<Megahertz>)>) -> (r: Table<Single>)
    ensures
        r.wf(),
        forall|k: Seq<char>| #[trigger] r.lookup(k) == last_known(clock_pairs(list@), k),
{
    let mut out: Table<Single> = Table::new();
    let ghost all = clock_pairs(list@);
    let mut i: usize = 0;
    while i < list.len()
        invariant
            i <= list@.len(),
            all == clock_pairs(list@),
            out.wf(),
            forall|k: Seq<char>| #[trigger] out.lookup(k) == last_known(all.take(i as int), k),
        decreases list@.len() - i,
    {
        assert(all.take(i + 1).drop_last() == all.take(i as int));
        if let Some(v) = shown_clock(&list[i].1) {
            out.insert(list[i].0.clone(), v);
        }
        i = i + 1;
    }
    assert(all.take(i as int) == all);
    out
}

fn input_values(list: &Vec<(u8, Option<Single>)>) -> (r: BTreeMap<u8, Single>)
    ensures
        r@ == inputs_map(list@),
{
    let mut out: BTreeMap<u8, Single> = BTreeMap::new();
    let mut i: usize = 0;
    while i < list.len()
        invariant
            i <= list@.len(),
            out@ == inputs_map(list@.take(i as int)),
        decreases list@.len() - i,
    {
        assert(list@.take(i + 1).drop_last() == list@.take(i as int));
        if let Some(v) = list[i].1 {
            out.insert(list[i].0, v);
        }
        i = i + 1;
    }
    assert(list@.take(i as int) == list@);
    out
}

fn entry(table: &Table<Single>, name: &str) -> (r: Option<Single>)
    ensures
        r == table.lookup(name@),
{
    match table.get(name) {
        Some(v) => Some(*v),
        None => None,
    }
}

fn core_states(values: Vec<Single>) -> (r: Vec<CoreState>)
    ensures
        utilizations(r@) == values@,
{
    let mut out: Vec<CoreState> = Vec::new();
    let mut i: usize = 0;
    while i < values.len()
        invariant
            i <= values@.len(),
            out@.len() == i,
            forall|k: int| 0 <= k < i ==> (#[trigger] out@[k]).utilization == values@[k],
        decreases values@.len() - i,
    {
        out.push(CoreState { utilization: values[i] });
        i = i + 1;
    }
    assert(utilizations(out@) == values@);
    out
}

/// Names what is wrong with a sweep without any board temperature.
pub fn sweep_error(
    soc: Option<Single>,
    pmic: Option<Single>,
    zones: usize,
    firmware_answers: bool,
) -> (r: Option<String>)
    ensures
        text_of(r) == fault(soc, pmic, zones as nat, firmware_answers),
{
    if soc.is_none() && pmic.is_none() && zones == 0 {
        Some(
            if firmware_answers {
                "no thermal zones or firmware sensors found".to_owned()
            } else {
                vcgencmd_missing()
            },
        )
    } else {
        None
    }
}

impl Draft<Option<Single>, Option<Megahertz>, Option<i64>> {
    /// The evaluated draft has no board temperature at all.
    pub open spec fn cold(self) -> bool {
        &&& or_value(cell_value(self.soc), finite_value(cell_value(self.soc_firmware))) is None
        &&& finite_value(cell_value(self.pmic)) is None
        &&& forall|i: int| 0 <= i < self.zones@.len() ==> (#[trigger] self.zones@[i]).1 is None
    }

    /// Tells whether the evaluated draft has no board temperature at all.
    pub fn is_cold(&self) -> (r: bool)
        ensures
            r == self.cold(),
    {
        let mut i: usize = 0;
        while i < self.zones.len()
            invariant
                i <= self.zones@.len(),
                forall|j: int| 0 <= j < i ==> (#[trigger] self.zones@[j]).1 is None,
            decreases self.zones@.len() - i,
        {
            if self.zones[i].1.is_some() {
                return false;
            }
            i = i + 1;
        }
        value_of(self.soc).is_none() && finite_only(value_of(self.soc_firmware)).is_none()
            && finite_only(value_of(self.pmic)).is_none()
    }

    /// Turns an evaluated draft into a snapshot. Never fails: missing sensors
    /// stay `None` and a mostly-empty sweep carries a human-readable `error`,
    /// which depends on whether the firmware tool answers when asked again.
    pub fn settle<P: Probe>(&self, probe: &P) -> (r: Snapshot)
        ensures
            if self.cold() {
                exists|answer: Option<Seq<char>>|
                    {
                        &&& #[trigger] may_run(probe, measure_temp(), answer)
                        &&& settled(*self, answer is Some, r)
                    }
            } else {
                settled(*self, true, r)
            },
    {
        if self.is_cold() {
            let answer = ask_temp(probe);
            assert(may_run(probe, measure_temp(), text_of(answer)));
            self.settle_with(answer.is_some())
        } else {
            self.settle_with(true)
        }
    }

    /// Turns an evaluated draft into a snapshot, given whether the firmware tool
    /// answers. That matters only to the error of a draft without temperatures.
    pub fn settle_with(&self, firmware_answers: bool) -> (r: Snapshot)
        ensures
            settled(*self, firmware_answers, r),
    {
        let from_sysfs = value_of(self.soc);
        let soc_temp_c = if from_sysfs.is_some() {
            from_sysfs
        } else {
            finite_only(value_of(self.soc_firmware))
        };
        let pmic_temp_c = finite_only(value_of(self.pmic));
        let all_clocks_mhz = clock_table(&self.clocks);
        let extra_zones_c = named_values(&self.zones);
        let loads = known_values(&self.loads);
        let error = sweep_error(
            soc_temp_c,
            pmic_temp_c,
            extra_zones_c.len(),
            firmware_answers,
        );
        Snapshot {
            elapsed_ms: self.elapsed_ms,
            soc_temp_c,
            nvme_temp_c: value_of(self.nvme),
            rp1_temp_c: value_of(self.rp1),
            pmic_temp_c,
            core_volts: finite_only(value_of(self.core_volts)),
            sdram_volatile_volts: finite_only(value_of(self.sdram_volatile_volts)),
            sdram_phy_volts: finite_only(value_of(self.sdram_phy_volts)),
            arm_clock_mhz: entry(&all_clocks_mhz, "arm"),
            v3d_clock_mhz: entry(&all_clocks_mhz, "v3d"),
            core_clock_mhz: entry(&all_clocks_mhz, "core"),
            all_clocks_mhz,
            load_1m: nth_value(&loads, 0),
            load_5m: nth_value(&loads, 1),
            load_15m: nth_value(&loads, 2),
            uptime_secs: match self.uptime {
                Some(Some(floor)) => whole_seconds(floor),
                _ => None,
            },
            rssi_dbm: first_below_zero(&self.rssi),
            throttle: self.throttle,
            undervolt_alarm: self.undervolt_alarm,
            error,
            cores: core_states(known_values(&self.cores)),
            utilization_pct: value_of(self.utilization),
            memory: match self.memory {
                Some(m) => match (m.used_pct, m.buff_cache_pct, m.total_mib, m.used_mib) {
                    (
                        Some(used_pct),
                        Some(buff_cache_pct),
                        Some(total_mib),
                        Some(used_mib),
                    ) => Some(
                        MemoryInfo {
                            used_pct,
                            buff_cache_pct,
                            swap_used_pct: value_of(m.swap_used_pct),
                            total_mib,
                            used_mib,
                        },
                    ),
                    _ => None,
                },
                None => None,
            },
            disk_io: match self.disk_io {
                Some(d) => match (d.read_mib_s, d.write_mib_s) {
                    (Some(read_mib_s), Some(write_mib_s)) => Some(
                        DiskIo { read_mib_s, write_mib_s },
                    ),
                    _ => None,
                },
                None => None,
            },
            net_io: match self.net_io {
                Some(n) => match (n.rx_kib_s, n.tx_kib_s) {
                    (Some(rx_kib_s), Some(tx_kib_s)) => Some(NetIo { rx_kib_s, tx_kib_s }),
                    _ => None,
                },
                None => None,
            },
            regulators_v: named_values(&self.regulators),
            rp1_adc_mv: input_values(&self.adc),
            extra_zones_c,
        }
    }
}

/// A snapshot names an error exactly when the sweep found no temperature of the
/// board at all: neither the kernel's nor the firmware's of the SoC, no extra
/// zone and none of the PMIC. Whether the firmware tool answers decides which
/// error that is.
pub proof fn law_error_when_cold(d: Evaluated, firmware_answers: bool, s: Snapshot)
    requires
        settled(d, firmware_answers, s),
    ensures
        s.error is Some <==> d.cold(),
        d.cold() ==> (s.error->0)@ == if firmware_answers {
            "no thermal zones or firmware sensors found"@
        } else {
            vcgencmd_missing_text()
        },
{
    let zones = pairs_of(d.zones@);
    let table = s.extra_zones_c;
    if table@.len() > 0 {
        lemma_beside(table@, 0);
        assert(table.lookup(table@[0].0) is Some);
        let i = lemma_last_known(zones, table@[0].0);
        assert(d.zones@[i].1 is Some);
    } else {
        assert forall|i: int| 0 <= i < d.zones@.len() implies (#[trigger] d.zones@[i]).1
            is None by {
            if d.zones@[i].1 is Some {
                lemma_known_stays(zones, i);
                assert(table.lookup(zones[i].0) is Some);
                let j = lemma_found(table@, zones[i].0);
            }
        }
    }
}

/// A sensor of the kernel wins over the firmware's reading of the same
/// temperature, which is only a fallback.
pub proof fn law_kernel_temperature_wins(d: Evaluated, firmware_answers: bool, s: Snapshot)
    requires
        settled(d, firmware_answers, s),
    ensures
        cell_value(d.soc) is Some ==> s.soc_temp_c == cell_value(d.soc),
        cell_value(d.soc) is None ==> s.soc_temp_c == finite_value(cell_value(d.soc_firmware)),
{
}

/// What a snapshot shows makes sense: the firmware's temperatures and voltages
/// are finite, a Wi-Fi level is below zero, and every clock is a finite
/// frequency that is not below zero.
pub proof fn law_readings_make_sense(d: Evaluated, firmware_answers: bool, s: Snapshot)
    requires
        settled(d, firmware_answers, s),
    ensures
        s.pmic_temp_c matches Some(v) ==> v.finite(),
        s.core_volts matches Some(v) ==> v.finite(),
        s.sdram_volatile_volts matches Some(v) ==> v.finite(),
        s.sdram_phy_volts matches Some(v) ==> v.finite(),
        s.rssi_dbm matches Some(v) ==> v.below_zero(),
        forall|k: Seq<char>| #[trigger]
            s.all_clocks_mhz.lookup(k) matches Some(v) ==> exists|i: int|
                {
                    &&& 0 <= i < d.clocks@.len()
                    &&& (#[trigger] d.clocks@[i]).0@ == k
                    &&& d.clocks@[i].1 matches Some(mhz) && mhz.narrow == v
                        && mhz.wide.finite() && mhz.wide.ge_zero()
                },
{
    law_level_is_below_zero(d.rssi@);
    assert forall|k: Seq<char>| #[trigger] s.all_clocks_mhz.lookup(k) is Some implies exists|
        i: int,
    |
        {
            &&& 0 <= i < d.clocks@.len()
            &&& (#[trigger] d.clocks@[i]).0@ == k
            &&& d.clocks@[i].1 matches Some(mhz) && Some(mhz.narrow) == s.all_clocks_mhz.lookup(k)
                && mhz.wide.finite() && mhz.wide.ge_zero()
        } by {
        let i = lemma_last_known(clock_pairs(d.clocks@), k);
        assert(clock_pairs(d.clocks@)[i].1 == clock_value(d.clocks@[i].1));
        assert(d.clocks@[i].0@ == k);
    }
}

proof fn lemma_last_known(pairs: Seq<(Seq<char>, Option<Single>)>, name: Seq<char>) -> (i: int)
    requires
        last_known(pairs, name) is Some,
    ensures
        0 <= i < pairs.len(),
        pairs[i].0 == name,
        pairs[i].1 == last_known(pairs, name),
    decreases pairs.len(),
{
    if pairs.last().0 == name && pairs.last().1 is Some {
        pairs.len() - 1
    } else {
        lemma_last_known(pairs.drop_last(), name)
    }
}

proof fn lemma_known_stays(pairs: Seq<(Seq<char>, Option<Single>)>, i: int)
    requires
        0 <= i < pairs.len(),
        pairs[i].1 is Some,
    ensures
        last_known(pairs, pairs[i].0) is Some,
    decreases pairs.len(),
{
    if i < pairs.len() - 1 {
        lemma_known_stays(pairs.drop_last(), i);
    }
}

// --------------------------------------------------------------- questions

/// The temperatures of a snapshot: the four of the board, then the extra zones.
pub open spec fn temperatures(s: Snapshot) -> Seq<Single> {
    known(seq![s.soc_temp_c, s.nvme_temp_c, s.rp1_temp_c, s.pmic_temp_c]) + Seq::new(
        s.extra_zones_c@.len(),
        |i: int| s.extra_zones_c@[i].1,
    )
}

/// The highest of a list of values, the first of those that are highest. A
/// value that cannot be compared replaces what came before it.
pub open spec fn highest(values: Seq<Single>) -> Option<Single>
    decreases values.len(),
{
    if values.len() == 0 {
        None
    } else {
        match highest(values.drop_last()) {
            Some(best) => if best.ge(values.last()) {
                Some(best)
            } else {
                Some(values.last())
            },
            None => Some(values.last()),
        }
    }
}

fn higher(best: Option<Single>, t: Single) -> (r: Option<Single>)
    ensures
        r == match best {
            Some(b) => if b.ge(t) {
                Some(b)
            } else {
                Some(t)
            },
            None => Some(t),
        },
{
    match best {
        Some(b) => if b.at_least(&t) {
            Some(b)
        } else {
            Some(t)
        },
        None => Some(t),
    }
}

impl Default for Snapshot {
    /// A snapshot that knows nothing.
    fn default() -> (r: Snapshot)
        ensures
            r.blank(),
    {
        Snapshot {
            elapsed_ms: 0,
            soc_temp_c: None,
            nvme_temp_c: None,
            rp1_temp_c: None,
            pmic_temp_c: None,
            core_volts: None,
            sdram_volatile_volts: None,
            sdram_phy_volts: None,
            arm_clock_mhz: None,
            v3d_clock_mhz: None,
            core_clock_mhz: None,
            all_clocks_mhz: Table::new(),
            load_1m: None,
            load_5m: None,
            load_15m: None,
            uptime_secs: None,
            rssi_dbm: None,
            throttle: ThrottleState::default(),
            undervolt_alarm: false,
            error: None,
            cores: Vec::new(),
            utilization_pct: None,
            memory: None,
            disk_io: None,
            net_io: None,
            regulators_v: Table::new(),
            rp1_adc_mv: BTreeMap::new(),
            extra_zones_c: Table::new(),
        }
    }
}

impl Snapshot {
    /// Nothing is known.
    pub open spec fn blank(self) -> bool {
        &&& self.elapsed_ms == 0
        &&& self.soc_temp_c is None
        &&& self.nvme_temp_c is None
        &&& self.rp1_temp_c is None
        &&& self.pmic_temp_c is None
        &&& self.core_volts is None
        &&& self.sdram_volatile_volts is None
        &&& self.sdram_phy_volts is None
        &&& self.arm_clock_mhz is None
        &&& self.v3d_clock_mhz is None
        &&& self.core_clock_mhz is None
        &&& self.all_clocks_mhz@.len() == 0
        &&& self.load_1m is None
        &&& self.load_5m is None
        &&& self.load_15m is None
        &&& self.uptime_secs is None
        &&& self.rssi_dbm is None
        &&& self.throttle == ThrottleState::quiet()
        &&& !self.undervolt_alarm
        &&& self.error is None
        &&& self.cores@.len() == 0
        &&& self.utilization_pct is None
        &&& self.memory is None
        &&& self.disk_io is None
        &&& self.net_io is None
        &&& self.regulators_v@.len() == 0
        &&& self.rp1_adc_mv@ == Map::<u8, Single>::empty()
        &&& self.extra_zones_c@.len() == 0
    }

    /// Highest available temperature, for the health badge.
    pub fn max_temp_c(&self) -> (r: Option<Single>)
        ensures
            r == highest(temperatures(*self)),
    {
        let mut cells: Vec<Option<Single>> = Vec::new();
        cells.push(self.soc_temp_c);
        cells.push(self.nvme_temp_c);
        cells.push(self.rp1_temp_c);
        cells.push(self.pmic_temp_c);
        assert(cells@ == seq![
            self.soc_temp_c,
            self.nvme_temp_c,
            self.rp1_temp_c,
            self.pmic_temp_c,
        ]);
        let board = known_values(&cells);
        let ghost all = temperatures(*self);
        let ghost zones = self.extra_zones_c@.len();
        let mut best: Option<Single> = None;
        let mut i: usize = 0;
        while i < board.len()
            invariant
                i <= board@.len(),
                board@ == all.take(board@.len() as int),
                all.len() == board@.len() + zones,
                best == highest(all.take(i as int)),
            decreases board@.len() - i,
        {
            assert(all.take(i + 1).drop_last() == all.take(i as int));
            assert(board@[i as int] == all[i as int]);
            best = higher(best, board[i]);
            i = i + 1;
        }
        let mut j: usize = 0;
        while j < self.extra_zones_c.len()
            invariant
                i == board@.len(),
                zones == self.extra_zones_c@.len(),
                j <= zones,
                all == temperatures(*self),
                all.len() == board@.len() + zones,
                forall|k: int| 0 <= k < zones ==> all[board@.len() + k]
                    == (#[trigger] self.extra_zones_c@[k]).1,
                best == highest(all.take(i + j)),
            decreases zones - j,
        {
            assert(all.take(i + j + 1).drop_last() == all.take(i + j));
            best = higher(best, *self.extra_zones_c.value(j));
            j = j + 1;
        }
        assert(all.take(i + j) == all);
        best
    }
}

/// The highest temperature is one of the temperatures, and there is one when
/// there are any.
pub proof fn law_highest_occurs(values: Seq<Single>)
    ensures
        highest(values) is Some <==> values.len() > 0,
        highest(values) matches Some(t) ==> values.contains(t),
    decreases values.len(),
{
    if values.len() > 0 {
        let front = values.drop_last();
        law_highest_occurs(front);
        assert(values.contains(values.last()));
        if let Some(t) = highest(front) {
            let i = choose|i: int| 0 <= i < front.len() && front[i] == t;
            assert(values[i] == t);
        }
    }
}

/// No temperature is above the highest one, if all are numbers.
pub proof fn law_highest_bounds(values: Seq<Single>, i: int)
    requires
        0 <= i < values.len(),
        forall|k: int| 0 <= k < values.len() ==> !(#[trigger] values[k]).nan(),
    ensures
        highest(values) matches Some(t) && t.ge(values[i]),
    decreases values.len(),
{
    let front = values.drop_last();
    assert forall|k: int| 0 <= k < front.len() implies !(#[trigger] front[k]).nan() by {
        assert(front[k] == values[k]);
    }
    law_highest_occurs(front);
    if let Some(best) = highest(front) {
        let j = choose|j: int| 0 <= j < front.len() && front[j] == best;
        assert(!values[j].nan());
        assert(!values.last().nan());
        if i < front.len() {
            law_highest_bounds(front, i);
            assert(front[i] == values[i]);
        }
    } else {
        assert(!values.last().nan());
    }
}

} // verus!
