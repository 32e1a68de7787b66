//! What the live page and the bars around it promise: the readouts, gauges,
//! clocks, voltages, charts, cards and chips of a snapshot.

use std::collections::VecDeque;

use vstd::prelude::*;

use crate::board::{health_color, health_label, Health};
use crate::laws_of_sweeps::picks;
use crate::laws_of_views::{
    begin, joined, lemma_lies, lemma_number_row, lemma_parts, lemma_share_row, lemma_table_rows,
    lemma_temp_row, lemma_zone_rows, lies, one, row,
};
use crate::live::{
    charts, chips_of, clock_lines, clock_rows, core_dials, core_meters, dials_of, error_chip,
    memory_dials, memory_gauges, page, points, rail_lines, readout_lines, readouts, status_chips,
    throttle_card, title, used_lines, voltage_rows, Chart, Chip, Fill, Mark, Meter, Metric, Page,
    Title,
};
use crate::single::Single;
use crate::snapshot::{MemoryInfo, Snapshot};
use crate::text::decimal;
use crate::throttle::ThrottleState;
use crate::views::{
    lines_of, number_lines, share_lines, table_lines, temp_lines, tone, zone_lines, Line, Row,
    Shown, Tint,
};
use crate::widgets::{
    clock_color, fmt_uptime, swap_color, temp_color, utilization_color, Tone,
};

verus! {

// ------------------------------------------------------------------ readouts

/// The readouts are the known temperatures in the order SoC, PMIC, NVMe, RP1 and
/// further zones, then processor and memory.
pub proof fn law_readouts(s: &Snapshot, r: Vec<Row>)
    requires
        call_ensures(readouts, (Some(s),), r),
    ensures
        ({
            let pmic = one(s.soc_temp_c);
            let nvme = pmic + one(s.pmic_temp_c);
            let rp1 = nvme + one(s.nvme_temp_c);
            let zones = rp1 + one(s.rp1_temp_c);
            let cpu = zones + s.extra_zones_c@.len();
            let mem = cpu + one(s.utilization_pct);
            &&& r@.len() == mem + one(s.memory)
            &&& s.soc_temp_c matches Some(t) ==> row(
                r@,
                0,
                "soc"@,
                Shown::Number(t, 1, "\u{b0}C"@),
                Tint::Temperature(t),
            )
            &&& s.pmic_temp_c matches Some(t) ==> row(
                r@,
                pmic,
                "pmic"@,
                Shown::Number(t, 1, "\u{b0}C"@),
                Tint::Temperature(t),
            )
            &&& s.nvme_temp_c matches Some(t) ==> row(
                r@,
                nvme,
                "nvme"@,
                Shown::Number(t, 1, "\u{b0}C"@),
                Tint::Temperature(t),
            )
            &&& s.rp1_temp_c matches Some(t) ==> row(
                r@,
                rp1,
                "rp1"@,
                Shown::Number(t, 1, "\u{b0}C"@),
                Tint::Temperature(t),
            )
            &&& forall|k: int|
                0 <= k < s.extra_zones_c@.len() ==> row(
                    r@,
                    zones + k,
                    "zone "@ + (#[trigger] s.extra_zones_c@[k]).0,
                    Shown::Number(s.extra_zones_c@[k].1, 1, "\u{b0}C"@),
                    Tint::Temperature(s.extra_zones_c@[k].1),
                )
            &&& s.utilization_pct matches Some(v) ==> row(
                r@,
                cpu,
                "cpu"@,
                Shown::Percent(v, 0, "%"@),
                Tint::Utilization(v),
            )
            &&& s.memory matches Some(m) ==> row(
                r@,
                mem,
                "mem"@,
                Shown::Number(m.used_pct, 0, "%"@),
                Tint::Percent(m.used_pct),
            )
        }),
{
    let c = "\u{b0}C"@;
    let parts = seq![
        temp_lines("soc"@, s.soc_temp_c, c),
        temp_lines("pmic"@, s.pmic_temp_c, c),
        temp_lines("nvme"@, s.nvme_temp_c, c),
        temp_lines("rp1"@, s.rp1_temp_c, c),
        zone_lines("zone "@, s.extra_zones_c@, c),
        share_lines("cpu"@, s.utilization_pct, 0, "%"@),
        used_lines(s.memory),
    ];
    reveal_with_fuel(joined, 8);
    assert(Seq::<Line>::empty() + parts[0] =~= parts[0]);
    assert(joined(parts, 7) =~= readout_lines(Some(s)));
    lemma_lies(r@, joined(parts, 7));
    lemma_parts(r@, parts, 7);
    reveal_with_fuel(begin, 8);
    lemma_temp_row(r@, begin(parts, 0), "soc"@, s.soc_temp_c, c);
    lemma_temp_row(r@, begin(parts, 1), "pmic"@, s.pmic_temp_c, c);
    lemma_temp_row(r@, begin(parts, 2), "nvme"@, s.nvme_temp_c, c);
    lemma_temp_row(r@, begin(parts, 3), "rp1"@, s.rp1_temp_c, c);
    lemma_zone_rows(r@, begin(parts, 4), "zone "@, s.extra_zones_c@, c);
    lemma_share_row(r@, begin(parts, 5), "cpu"@, s.utilization_pct, 0, "%"@);
    lemma_used_row(r@, begin(parts, 6), s.memory);
}

proof fn lemma_used_row(rows: Seq<Row>, at: int, memory: Option<MemoryInfo<Single>>)
    requires
        lies(rows, at, used_lines(memory)),
    ensures
        used_lines(memory).len() == one(memory),
        memory matches Some(m) ==> row(
            rows,
            at,
            "mem"@,
            Shown::Number(m.used_pct, 0, "%"@),
            Tint::Percent(m.used_pct),
        ),
{
    reveal(lies);
    reveal(row);
    if memory is Some {
        assert(used_lines(memory)[0] == rows[at + 0]@);
    }
}

/// Without a snapshot there is one readout, a dash.
pub proof fn law_readouts_before_the_first_sweep(r: Vec<Row>)
    requires
        call_ensures(readouts, (None,), r),
    ensures
        r@.len() == 1,
        row(r@, 0, "sensors"@, Shown::Text("\u{2014}"@), Tint::Fixed(Tone::Muted)),
{
    reveal(row);
    assert(lines_of(r@).len() == r@.len());
    assert(lines_of(r@)[0] == r@[0]@);
}

// -------------------------------------------------------- voltages and clocks

/// The voltages are the three of the firmware that are known, then the
/// regulators.
pub proof fn law_voltage_rows(s: &Snapshot, r: Vec<Row>)
    requires
        call_ensures(voltage_rows, (Some(s),), r),
    ensures
        ({
            let sdram_c = one(s.core_volts);
            let sdram_p = sdram_c + one(s.sdram_volatile_volts);
            let rails = sdram_p + one(s.sdram_phy_volts);
            &&& r@.len() == rails + s.regulators_v@.len()
            &&& s.core_volts matches Some(v) ==> row(
                r@,
                0,
                "core"@,
                Shown::Number(v, 4, " V"@),
                Tint::Plain,
            )
            &&& s.sdram_volatile_volts matches Some(v) ==> row(
                r@,
                sdram_c,
                "sdram_c"@,
                Shown::Number(v, 4, " V"@),
                Tint::Plain,
            )
            &&& s.sdram_phy_volts matches Some(v) ==> row(
                r@,
                sdram_p,
                "sdram_p"@,
                Shown::Number(v, 4, " V"@),
                Tint::Plain,
            )
            &&& forall|k: int|
                0 <= k < s.regulators_v@.len() ==> row(
                    r@,
                    rails + k,
                    (#[trigger] s.regulators_v@[k]).0,
                    Shown::Number(s.regulators_v@[k].1, 2, " V"@),
                    Tint::Plain,
                )
        }),
{
    let parts = seq![
        number_lines("core"@, s.core_volts, 4, " V"@),
        number_lines("sdram_c"@, s.sdram_volatile_volts, 4, " V"@),
        number_lines("sdram_p"@, s.sdram_phy_volts, 4, " V"@),
        table_lines(""@, s.regulators_v@, 2, " V"@),
    ];
    reveal_with_fuel(joined, 5);
    assert(Seq::<Line>::empty() + parts[0] =~= parts[0]);
    assert(joined(parts, 4) =~= rail_lines(*s));
    lemma_lies(r@, joined(parts, 4));
    lemma_parts(r@, parts, 4);
    reveal_with_fuel(begin, 5);
    lemma_number_row(r@, begin(parts, 0), "core"@, s.core_volts, 4, " V"@);
    lemma_number_row(r@, begin(parts, 1), "sdram_c"@, s.sdram_volatile_volts, 4, " V"@);
    lemma_number_row(r@, begin(parts, 2), "sdram_p"@, s.sdram_phy_volts, 4, " V"@);
    lemma_table_rows(r@, begin(parts, 3), ""@, s.regulators_v@, 2, " V"@);
    reveal_strlit("");
    assert forall|k: int| 0 <= k < s.regulators_v@.len() implies row(
        r@,
        begin(parts, 3) + k,
        (#[trigger] s.regulators_v@[k]).0,
        Shown::Number(s.regulators_v@[k].1, 2, " V"@),
        Tint::Plain,
    ) by {
        assert(""@ + s.regulators_v@[k].0 =~= s.regulators_v@[k].0);
    }
}

/// The clock rows are the clocks of the snapshot in their order, in whole MHz;
/// only the ARM clock is colored.
pub proof fn law_clock_rows(s: &Snapshot, r: Vec<Row>)
    requires
        call_ensures(clock_rows, (Some(s),), r),
    ensures
        r@.len() == s.all_clocks_mhz@.len(),
        forall|k: int|
            0 <= k < r@.len() ==> {
                let (name, mhz) = s.all_clocks_mhz@[k];
                &&& (#[trigger] r@[k]).label@ == name
                &&& r@[k].value@ == Shown::Number(mhz, 0, " MHz"@)
                &&& name == "arm"@ ==> r@[k].tint == Tint::Clock(mhz)
                &&& name != "arm"@ ==> r@[k].tint == Tint::Plain
            },
{
    assert(lines_of(r@).len() == r@.len());
    assert forall|k: int| 0 <= k < r@.len() implies {
        let (name, mhz) = s.all_clocks_mhz@[k];
        &&& (#[trigger] r@[k]).label@ == name
        &&& r@[k].value@ == Shown::Number(mhz, 0, " MHz"@)
        &&& name == "arm"@ ==> r@[k].tint == Tint::Clock(mhz)
        &&& name != "arm"@ ==> r@[k].tint == Tint::Plain
    } by {
        assert(lines_of(r@)[k] == r@[k]@);
        assert(clock_lines(s.all_clocks_mhz@)[k] == r@[k]@);
    }
}

/// Without a snapshot there are no rows, gauges, chips or cards.
pub proof fn law_nothing_before_the_first_sweep(
    volts: Vec<Row>,
    clocks: Vec<Row>,
    meters: Vec<Meter>,
    chips: Vec<Chip>,
    card: Option<(String, Tone)>,
)
    requires
        call_ensures(voltage_rows, (None,), volts),
        call_ensures(clock_rows, (None,), clocks),
        call_ensures(core_meters, (None,), meters),
        call_ensures(status_chips, (None,), chips),
        call_ensures(throttle_card, (None,), card),
    ensures
        volts@.len() == 0 && clocks@.len() == 0 && meters@.len() == 0 && chips@.len() == 0,
        card is None,
{
    assert(lines_of(volts@).len() == volts@.len());
    assert(lines_of(clocks@).len() == clocks@.len());
    assert(dials_of(meters@).len() == meters@.len());
    assert(chips_of(chips@).len() == chips@.len());
}

// -------------------------------------------------------------------- gauges

/// There is one gauge of fourteen cells per core, filled and colored by the
/// core's own utilization.
pub proof fn law_core_meters(s: &Snapshot, r: Vec<Meter>)
    requires
        call_ensures(core_meters, (Some(s),), r),
    ensures
        r@.len() == s.cores@.len(),
        forall|k: int|
            0 <= k < r@.len() ==> {
                let share = s.cores@[k].utilization;
                &&& (#[trigger] r@[k]).label@ == "cpu"@ + decimal(k as nat)
                &&& r@[k].fill == Fill::Share(share)
                &&& r@[k].value@ == Shown::Percent(share, 0, "%"@)
                &&& r@[k].tint == Tint::Utilization(share)
                &&& r@[k].cells == 14
            },
{
    assert(dials_of(r@).len() == r@.len());
    assert forall|k: int| 0 <= k < r@.len() implies {
        let share = s.cores@[k].utilization;
        &&& (#[trigger] r@[k]).label@ == "cpu"@ + decimal(k as nat)
        &&& r@[k].fill == Fill::Share(share)
        &&& r@[k].value@ == Shown::Percent(share, 0, "%"@)
        &&& r@[k].tint == Tint::Utilization(share)
        &&& r@[k].cells == 14
    } by {
        assert(dials_of(r@)[k] == r@[k]@);
        assert(core_dials(s.cores@)[k] == r@[k]@);
    }
}

/// The memory gauges show what is used, what caches hold and, where there is
/// swap, how much of it is used, which turns yellow from one half on.
pub proof fn law_memory_meters(mem: &MemoryInfo<Single>, r: Vec<Meter>)
    requires
        call_ensures(memory_gauges, (mem,), r),
    ensures
        r@.len() == 2 + one(mem.swap_used_pct),
        forall|k: int| 0 <= k < r@.len() ==> (#[trigger] r@[k]).cells == 20,
        r@[0].label@ == "mem"@ && r@[0].fill == Fill::Percent(mem.used_pct),
        r@[0].value@ == Shown::MemoryOf(mem.used_pct, mem.total_mib),
        r@[0].tint == Tint::Percent(mem.used_pct),
        r@[1].label@ == "cache"@ && r@[1].fill == Fill::Percent(mem.buff_cache_pct),
        r@[1].value@ == Shown::Number(mem.buff_cache_pct, 0, "%"@),
        r@[1].tint == Tint::Fixed(Tone::Accent),
        mem.swap_used_pct matches Some(swap) ==> {
            &&& r@[2].label@ == "swap"@ && r@[2].fill == Fill::Percent(swap)
            &&& r@[2].value@ == Shown::Number(swap, 0, "%"@)
            &&& swap.reaches(50) ==> r@[2].tint == Tint::Fixed(Tone::Yellow)
            &&& !swap.reaches(50) ==> r@[2].tint == Tint::Fixed(Tone::Muted)
        },
{
    let dials = memory_dials(*mem);
    assert(dials_of(r@).len() == r@.len());
    assert(dials_of(r@)[0] == r@[0]@ && dials_of(r@)[1] == r@[1]@);
    assert(dials[0] == r@[0]@ && dials[1] == r@[1]@);
    if mem.swap_used_pct is Some {
        assert(dials_of(r@)[2] == r@[2]@);
        assert(dials[2] == r@[2]@);
    }
    assert forall|k: int| 0 <= k < r@.len() implies (#[trigger] r@[k]).cells == 20 by {
        assert(dials_of(r@)[k] == r@[k]@);
    }
}

// -------------------------------------------------------------------- charts

/// The disk reads of a snapshot.
pub open spec fn disk_reads() -> spec_fn(Snapshot) -> Option<Single> {
    |s: Snapshot|
        match s.disk_io {
            Some(io) => Some(io.read_mib_s),
            None => None,
        }
}

/// The disk writes of a snapshot.
pub open spec fn disk_writes() -> spec_fn(Snapshot) -> Option<Single> {
    |s: Snapshot|
        match s.disk_io {
            Some(io) => Some(io.write_mib_s),
            None => None,
        }
}

/// What a snapshot received.
pub open spec fn received() -> spec_fn(Snapshot) -> Option<Single> {
    |s: Snapshot|
        match s.net_io {
            Some(io) => Some(io.rx_kib_s),
            None => None,
        }
}

/// What a snapshot sent.
pub open spec fn sent() -> spec_fn(Snapshot) -> Option<Single> {
    |s: Snapshot|
        match s.net_io {
            Some(io) => Some(io.tx_kib_s),
            None => None,
        }
}

/// A rate is known at the snapshot in this place.
pub open spec fn known_at(
    history: Seq<Snapshot>,
    rate: spec_fn(Snapshot) -> Option<Single>,
) -> spec_fn(int) -> bool {
    |i: int| rate(history[i]) is Some
}

/// The values are those of a rate at the snapshots where it is known, the oldest
/// first.
pub open spec fn traces(
    values: Seq<Single>,
    history: Seq<Snapshot>,
    rate: spec_fn(Snapshot) -> Option<Single>,
) -> bool {
    exists|which: Seq<int>|
        {
            &&& #[trigger] picks(which, history.len() as int, known_at(history, rate))
            &&& values.len() == which.len()
            &&& forall|k: int|
                0 <= k < which.len() ==> Some(#[trigger] values[k]) == rate(history[which[k]])
        }
}

proof fn lemma_points(
    history: Seq<Snapshot>,
    metric: Metric,
    rate: spec_fn(Snapshot) -> Option<Single>,
) -> (which: Seq<int>)
    requires
        rate == match metric {
            Metric::DiskRead => disk_reads(),
            Metric::DiskWrite => disk_writes(),
            Metric::NetRx => received(),
            Metric::NetTx => sent(),
        },
    ensures
        picks(which, history.len() as int, known_at(history, rate)),
        points(history, metric).len() == which.len(),
        forall|k: int|
            0 <= k < which.len() ==> Some(#[trigger] points(history, metric)[k]) == rate(
                history[which[k]],
            ),
    decreases history.len(),
{
    let p = known_at(history, rate);
    if history.len() == 0 {
        let none: Seq<int> = seq![];
        assert(picks(none, 0, p));
        none
    } else {
        let rest = history.drop_last();
        let n = history.len() - 1;
        let front = lemma_points(rest, metric, rate);
        let which = if p(n) {
            front.push(n)
        } else {
            front
        };
        assert forall|k: int| 0 <= k < history.len() && #[trigger] p(k) implies which.contains(
            k,
        ) by {
            if k < n {
                assert(known_at(rest, rate)(k));
                let i = choose|i: int| 0 <= i < front.len() && front[i] == k;
                assert(which[i] == k);
            } else {
                assert(which[which.len() - 1] == k);
            }
        }
        assert forall|i: int| 0 <= i < which.len() implies 0 <= #[trigger] which[i]
            < history.len() && p(which[i]) by {
            if i < front.len() {
                assert(which[i] == front[i]);
                assert(known_at(rest, rate)(front[i]));
                assert(rest[front[i]] == history[front[i]]);
            }
        }
        assert(picks(which, history.len() as int, p));
        assert forall|k: int| 0 <= k < which.len() implies Some(
            #[trigger] points(history, metric)[k],
        ) == rate(history[which[k]]) by {
            if k < front.len() {
                assert(which[k] == front[k]);
                assert(points(history, metric)[k] == points(rest, metric)[k]);
                assert(history[which[k]] == rest[which[k]]);
            }
        }
        which
    }
}

/// The current value of a chart is its last one, or zero before there is one.
pub open spec fn is_current(
    shown: Shown,
    values: Seq<Single>,
    decimals: u8,
    unit: Seq<char>,
) -> bool {
    &&& values.len() > 0 ==> shown == Shown::Number(values[values.len() - 1], decimals, unit)
    &&& values.len() == 0 ==> shown == Shown::Number(Single { bits: 0 }, decimals, unit)
}

/// The four charts trace disk reads, disk writes, received and sent bytes.
pub proof fn law_charts(history: &VecDeque<Snapshot>, r: [Chart; 4])
    requires
        call_ensures(charts, (history,), r),
    ensures
        r@[0].title@ == "nvme read"@ && r@[0].color == Tone::Blue,
        traces(r@[0].series@, history@, disk_reads()),
        is_current(r@[0].current@, r@[0].series@, 2, " MiB/s"@),
        r@[1].title@ == "nvme write"@ && r@[1].color == Tone::Accent,
        traces(r@[1].series@, history@, disk_writes()),
        is_current(r@[1].current@, r@[1].series@, 2, " MiB/s"@),
        r@[2].title@ == "wifi rx"@ && r@[2].color == Tone::Green,
        traces(r@[2].series@, history@, received()),
        is_current(r@[2].current@, r@[2].series@, 1, " KiB/s"@),
        r@[3].title@ == "wifi tx"@ && r@[3].color == Tone::Yellow,
        traces(r@[3].series@, history@, sent()),
        is_current(r@[3].current@, r@[3].series@, 1, " KiB/s"@),
{
    let a = lemma_points(history@, Metric::DiskRead, disk_reads());
    let b = lemma_points(history@, Metric::DiskWrite, disk_writes());
    let c = lemma_points(history@, Metric::NetRx, received());
    let d = lemma_points(history@, Metric::NetTx, sent());
}

// ------------------------------------------------------------- cards and chips

/// The card of the firmware's health is red while something is going on, yellow
/// when something has happened since boot, and green otherwise.
pub proof fn law_throttle_card(s: &Snapshot, r: Option<(String, Tone)>, words: String)
    requires
        call_ensures(throttle_card, (Some(s),), r),
        call_ensures(ThrottleState::describe, (&s.throttle,), words),
    ensures
        r is Some && (r->0).0@ == words@,
        ({
            let t = s.throttle;
            let now = t.undervolted_now || t.freq_capped_now || t.throttled_now
                || t.soft_temp_limit_now;
            let ever = t.undervolted_past || t.freq_capped_past || t.throttled_past
                || t.soft_temp_limit_past || t.other_past;
            &&& now ==> (r->0).1 == Tone::Red
            &&& !now && ever ==> (r->0).1 == Tone::Yellow
            &&& !now && !ever ==> (r->0).1 == Tone::Green
        }),
{
}

/// The chip in a place has this picture and value.
pub open spec fn chip(chips: Seq<Chip>, i: int, icon: Mark, value: Shown) -> bool {
    0 <= i < chips.len() && chips[i].icon == icon && chips[i].value@ == value
}

/// The status bar has a chip for the loads, the memory, the disk and the Wi-Fi
/// level, as far as they are known, in this order.
pub proof fn law_status_chips(s: &Snapshot, r: Vec<Chip>)
    requires
        call_ensures(status_chips, (Some(s),), r),
    ensures
        ({
            let memory = one(s.load_1m);
            let disk = memory + one(s.memory);
            let signal = disk + one(s.disk_io);
            &&& r@.len() == signal + one(s.rssi_dbm)
            &&& s.load_1m matches Some(v) ==> chip(r@, 0, Mark::Cpu, Shown::Loads(v, s.load_15m))
            &&& s.memory matches Some(m) ==> chip(
                r@,
                memory,
                Mark::MemoryStick,
                Shown::Number(m.used_pct, 0, "%"@),
            )
            &&& s.disk_io matches Some(io) ==> chip(
                r@,
                disk,
                Mark::HardDrive,
                Shown::Throughput(io.read_mib_s, io.write_mib_s),
            )
            &&& s.rssi_dbm matches Some(v) ==> chip(
                r@,
                signal,
                Mark::Network,
                Shown::Number(v, 0, " dBm"@),
            )
        }),
{
    let all = chips_of(r@);
    assert(all.len() == r@.len());
    let memory = one(s.load_1m);
    let disk = memory + one(s.memory);
    let signal = disk + one(s.disk_io);
    if s.load_1m is Some {
        assert(all[0] == (r@[0].icon, r@[0].value@));
    }
    if s.memory is Some {
        assert(all[memory] == (r@[memory].icon, r@[memory].value@));
    }
    if s.disk_io is Some {
        assert(all[disk] == (r@[disk].icon, r@[disk].value@));
    }
    if s.rssi_dbm is Some {
        assert(all[signal] == (r@[signal].icon, r@[signal].value@));
    }
}

/// The text of an error says how often a sweep is tried, and the error.
pub proof fn law_error_chip(err: &str, r: Option<String>, none: Option<String>)
    requires
        call_ensures(error_chip, (Some(err),), r),
        call_ensures(error_chip, (None,), none),
    ensures
        r is Some && (r->0)@ == "1 sample / 1s \u{b7} "@ + err@,
        none is None,
{
    reveal_strlit("1 sample / ");
    reveal_strlit("s \u{b7} ");
    reveal_strlit("1 sample / 1s \u{b7} ");
    reveal_with_fuel(decimal, 2);
    assert(decimal(1) =~= seq!['1']);
    assert((r->0)@ =~= "1 sample / 1s \u{b7} "@ + err@);
}

/// The title shows the uptime where it is known, and a badge: a green check
/// mark for a healthy board, a yellow warning sign for one that has something
/// behind it, a red one for one in trouble.
pub proof fn law_title(s: &Snapshot, health: Health, r: Title)
    requires
        call_ensures(title, (Some(s), health), r),
    ensures
        r.uptime is Some <==> s.uptime_secs is Some,
        forall|words: String|
            s.uptime_secs is Some && #[trigger] call_ensures(
                fmt_uptime,
                (s.uptime_secs->0,),
                words,
            ) ==> (r.uptime->0)@ == words@,
        health == Health::Healthy ==> r.icon == Mark::CircleCheck && r.color == Tone::Green
            && r.label@ == "Healthy"@,
        health == Health::Warn ==> r.icon == Mark::TriangleAlert && r.color == Tone::Yellow
            && r.label@ == "Check history"@,
        health == Health::Alert ==> r.icon == Mark::TriangleAlert && r.color == Tone::Red
            && r.label@ == "Throttling risk"@,
{
}

/// Without a snapshot the title shows no uptime.
pub proof fn law_title_before_the_first_sweep(health: Health, r: Title)
    requires
        call_ensures(title, (None, health), r),
    ensures
        r.uptime is None,
{
}

/// The words and the color of each state of health.
pub proof fn law_health_words(healthy: &'static str, warn: &'static str, alert: &'static str)
    requires
        call_ensures(health_label, (Health::Healthy,), healthy),
        call_ensures(health_label, (Health::Warn,), warn),
        call_ensures(health_label, (Health::Alert,), alert),
    ensures
        healthy@ == "Healthy"@ && warn@ == "Check history"@ && alert@ == "Throttling risk"@,
        forall|t: Tone| call_ensures(health_color, (Health::Healthy,), t) ==> t == Tone::Green,
        forall|t: Tone| call_ensures(health_color, (Health::Warn,), t) ==> t == Tone::Yellow,
        forall|t: Tone| call_ensures(health_color, (Health::Alert,), t) ==> t == Tone::Red,
{
}

/// The second tab has the details, every other one the live page.
pub proof fn law_pages(tab: usize, r: Page)
    requires
        call_ensures(page, (tab,), r),
    ensures
        r == Page::Details <==> tab == 1,
        r == Page::Live <==> tab != 1,
{
}

// -------------------------------------------------------------------- colors

/// A temperature is red from 85 degrees on, yellow from 75, orange from 60 and
/// green below; what is no number is green.
pub proof fn law_temperature_bands(temp: Single, r: Tone)
    requires
        call_ensures(temp_color, (temp,), r),
    ensures
        temp.reaches(85) ==> r == Tone::Red,
        !temp.reaches(85) && temp.reaches(75) ==> r == Tone::Yellow,
        !temp.reaches(85) && !temp.reaches(75) && temp.reaches(60) ==> r == Tone::Warning,
        !temp.reaches(85) && !temp.reaches(75) && !temp.reaches(60) ==> r == Tone::Green,
{
}

/// An ARM clock is green from 2300 MHz on, orange from 1800 and muted below; swap
/// is yellow from fifty percent on and muted below.
pub proof fn law_clock_and_swap_bands(value: Single, clock: Tone, swap: Tone)
    requires
        call_ensures(clock_color, (value,), clock),
        call_ensures(swap_color, (value,), swap),
    ensures
        value.reaches(2300) ==> clock == Tone::Green,
        !value.reaches(2300) && value.reaches(1800) ==> clock == Tone::Warning,
        !value.reaches(2300) && !value.reaches(1800) ==> clock == Tone::Muted,
        value.reaches(50) ==> swap == Tone::Yellow,
        !value.reaches(50) ==> swap == Tone::Muted,
{
}

/// A utilization is red from nine tenths on, yellow from six tenths and green
/// below, where the tenths are the numbers nearest to them.
pub proof fn law_utilization_bands(share: Single, nine: Single, six: Single, r: Tone)
    requires
        call_ensures(utilization_color, (share,), r),
        nine.bits == 0x3f66_6666u32,
        six.bits == 0x3f19_999au32,
    ensures
        share.ge(nine) ==> r == Tone::Red,
        !share.ge(nine) && share.ge(six) ==> r == Tone::Yellow,
        !share.ge(nine) && !share.ge(six) ==> r == Tone::Green,
{
}

/// Each tint decides by its own value: a temperature, a utilization, the
/// hundredth part of a percentage or a clock.
pub proof fn law_tints(v: Single, hundredth: Single, fixed: Tone, r: Tone, t: Tone)
    ensures
        call_ensures(tone, (Tint::Plain, hundredth), r) ==> r == Tone::Foreground,
        call_ensures(tone, (Tint::Fixed(fixed), hundredth), r) ==> r == fixed,
        call_ensures(tone, (Tint::Temperature(v), hundredth), r) && call_ensures(
            temp_color,
            (v,),
            t,
        ) ==> r == t,
        call_ensures(tone, (Tint::Utilization(v), hundredth), r) && call_ensures(
            utilization_color,
            (v,),
            t,
        ) ==> r == t,
        call_ensures(tone, (Tint::Percent(v), hundredth), r) && call_ensures(
            utilization_color,
            (hundredth,),
            t,
        ) ==> r == t,
        call_ensures(tone, (Tint::Clock(v), hundredth), r) && call_ensures(
            clock_color,
            (v,),
            t,
        ) ==> r == t,
{
}

} // verus!
