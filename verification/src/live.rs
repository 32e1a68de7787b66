//! The live tab and the bars around it: readouts, gauges, charts, clocks,
//! voltages, status chips and the title's badge.

use std::collections::VecDeque;

use vstd::prelude::*;
use vstd::string::StringExecFns;

use crate::board::{
    badge_tone, health_color, health_label, health_words, Health, POLL_INTERVAL_MS,
};
use crate::single::Single;
use crate::snapshot::{CoreState, MemoryInfo, Snapshot};
use crate::text::{decimal, push_decimal, same, text_of};
use crate::throttle::ThrottleState;
use crate::views::{
    lines_of, number_line, number_lines, numbered, push_number, push_row, push_share, push_table,
    push_temp, push_zones, share_lines, table_lines, temp_lines, zone_lines, Figure, Line, Row,
    Shown, Tint,
};
use crate::widgets::{fmt_uptime, swap_color, swap_tone, uptime_text, Tone};

verus! {

/// The two pages of the window.
#[derive(Debug, Clone, Copy, PartialEq, Eq, Structural)]
pub enum Page {
    Live,
    Details,
}

/// The page of a tab: the details for the second tab, the live page otherwise.
pub fn page(active_tab: usize) -> (r: Page)
    ensures
        r == if active_tab == 1 {
            Page::Details
        } else {
            Page::Live
        },
{
    if active_tab == 1 {
        Page::Details
    } else {
        Page::Live
    }
}

/// A small picture in front of a text.
#[derive(Debug, Clone, Copy, PartialEq, Eq, Structural)]
pub enum Mark {
    CircleCheck,
    TriangleAlert,
    Cpu,
    MemoryStick,
    HardDrive,
    Network,
}

/// The right side of the title bar.
#[derive(Debug)]
pub struct Title {
    pub uptime: Option<String>,
    pub icon: Mark,
    pub color: Tone,
    pub label: &'static str,
}

/// The picture of a health badge.
pub open spec fn badge_mark(health: Health) -> Mark {
    match health {
        Health::Healthy => Mark::CircleCheck,
        _ => Mark::TriangleAlert,
    }
}

/// What the title bar shows beside the tabs.
pub fn title(latest: Option<&Snapshot>, health: Health) -> (r: Title)
    ensures
        text_of(r.uptime) == match latest {
            Some(s) => match s.uptime_secs {
                Some(secs) => Some(uptime_text(secs)),
                None => None,
            },
            None => None,
        },
        r.icon == badge_mark(health),
        r.color == badge_tone(health),
        r.label@ == health_words(health),
{
    let uptime = match latest {
        Some(s) => match s.uptime_secs {
            Some(secs) => Some(fmt_uptime(secs)),
            None => None,
        },
        None => None,
    };
    let icon = match health {
        Health::Healthy => Mark::CircleCheck,
        Health::Warn => Mark::TriangleAlert,
        Health::Alert => Mark::TriangleAlert,
    };
    Title { uptime, icon, color: health_color(health), label: health_label(health) }
}

/// A line for the memory in use, if it is known.
pub open spec fn used_lines(memory: Option<MemoryInfo<Single>>) -> Seq<Line> {
    match memory {
        Some(m) => seq![number_line("mem"@, m.used_pct, 0, "%"@, Tint::Percent(m.used_pct))],
        None => seq![],
    }
}

/// The top strip: each temperature, then processor and memory.
pub open spec fn readout_lines(latest: Option<&Snapshot>) -> Seq<Line> {
    match latest {
        Some(s) => temp_lines("soc"@, s.soc_temp_c, "\u{b0}C"@) + temp_lines(
            "pmic"@,
            s.pmic_temp_c,
            "\u{b0}C"@,
        ) + temp_lines("nvme"@, s.nvme_temp_c, "\u{b0}C"@) + temp_lines(
            "rp1"@,
            s.rp1_temp_c,
            "\u{b0}C"@,
        ) + zone_lines("zone "@, s.extra_zones_c@, "\u{b0}C"@) + share_lines(
            "cpu"@,
            s.utilization_pct,
            0,
            "%"@,
        ) + used_lines(s.memory),
        None => seq![
            Line {
                label: "sensors"@,
                value: Shown::Text("\u{2014}"@),
                tint: Tint::Fixed(Tone::Muted),
            },
        ],
    }
}

/// One big readout per temperature plus CPU and memory.
pub fn readouts(latest: Option<&Snapshot>) -> (r: Vec<Row>)
    ensures
        lines_of(r@) == readout_lines(latest),
{
    let mut rows: Vec<Row> = Vec::new();
    assert(lines_of(rows@) =~= Seq::<Line>::empty());
    let s = match latest {
        Some(s) => s,
        None => {
            push_row(
                &mut rows,
                "sensors".to_owned(),
                Figure::Text { text: "\u{2014}".to_owned() },
                Tint::Fixed(Tone::Muted),
            );
            assert(lines_of(rows@) =~= readout_lines(latest));
            return rows;
        },
    };
    push_temp(&mut rows, "soc", s.soc_temp_c, "\u{b0}C");
    assert(lines_of(rows@) =~= temp_lines("soc"@, s.soc_temp_c, "\u{b0}C"@));
    push_temp(&mut rows, "pmic", s.pmic_temp_c, "\u{b0}C");
    push_temp(&mut rows, "nvme", s.nvme_temp_c, "\u{b0}C");
    push_temp(&mut rows, "rp1", s.rp1_temp_c, "\u{b0}C");
    push_zones(&mut rows, "zone ", &s.extra_zones_c, "\u{b0}C");
    push_share(&mut rows, "cpu", s.utilization_pct, 0, "%");
    let ghost front = lines_of(rows@);
    if let Some(m) = &s.memory {
        push_row(
            &mut rows,
            "mem".to_owned(),
            Figure::Number { value: m.used_pct, decimals: 0, unit: "%" },
            Tint::Percent(m.used_pct),
        );
    }
    assert(lines_of(rows@) =~= front + used_lines(s.memory));
    rows
}

/// How full a gauge is.
#[derive(Debug, Clone, Copy, PartialEq, Eq, Structural)]
pub enum Fill {
    /// A share of one.
    Share(Single),
    /// A share of a hundred.
    Percent(Single),
}

/// A gauge to be drawn: its label, how full it is, the value beside it, what
/// decides its color and its number of cells.
#[derive(Debug)]
pub struct Meter {
    pub label: String,
    pub fill: Fill,
    pub value: Figure,
    pub tint: Tint,
    pub cells: usize,
}

/// The mathematical form of a [`Meter`].
pub struct Dial {
    pub label: Seq<char>,
    pub fill: Fill,
    pub value: Shown,
    pub tint: Tint,
    pub cells: usize,
}

impl View for Meter {
    type V = Dial;

    open spec fn view(&self) -> Dial {
        Dial {
            label: self.label@,
            fill: self.fill,
            value: self.value@,
            tint: self.tint,
            cells: self.cells,
        }
    }
}

/// The dials of a list of gauges.
pub open spec fn dials_of(meters: Seq<Meter>) -> Seq<Dial> {
    Seq::new(meters.len(), |i: int| meters[i]@)
}

/// One gauge per core, numbered from zero.
pub open spec fn core_dials(cores: Seq<CoreState>) -> Seq<Dial> {
    Seq::new(
        cores.len(),
        |i: int|
            Dial {
                label: "cpu"@ + decimal(i as nat),
                fill: Fill::Share(cores[i].utilization),
                value: Shown::Percent(cores[i].utilization, 0, "%"@),
                tint: Tint::Utilization(cores[i].utilization),
                cells: 14,
            },
    )
}

/// Per-core utilization bars, btop style.
pub fn core_meters(latest: Option<&Snapshot>) -> (r: Vec<Meter>)
    ensures
        dials_of(r@) == match latest {
            Some(s) => core_dials(s.cores@),
            None => seq![],
        },
{
    let mut meters: Vec<Meter> = Vec::new();
    let s = match latest {
        Some(s) => s,
        None => {
            assert(dials_of(meters@) =~= seq![]);
            return meters;
        },
    };
    let mut i: usize = 0;
    while i < s.cores.len()
        invariant
            i <= s.cores@.len(),
            meters@.len() == i,
            forall|j: int| 0 <= j < i ==> (#[trigger] meters@[j])@ == core_dials(s.cores@)[j],
        decreases s.cores@.len() - i,
    {
        let share = s.cores[i].utilization;
        meters.push(
            Meter {
                label: numbered("cpu", i as u64),
                fill: Fill::Share(share),
                value: Figure::Percent { share, decimals: 0, unit: "%" },
                tint: Tint::Utilization(share),
                cells: 14,
            },
        );
        i = i + 1;
    }
    assert(dials_of(meters@) =~= core_dials(s.cores@));
    meters
}

/// The gauges of a memory: what is used, what caches hold, and swap if there is
/// any.
pub open spec fn memory_dials(m: MemoryInfo<Single>) -> Seq<Dial> {
    seq![
        Dial {
            label: "mem"@,
            fill: Fill::Percent(m.used_pct),
            value: Shown::MemoryOf(m.used_pct, m.total_mib),
            tint: Tint::Percent(m.used_pct),
            cells: 20,
        },
        Dial {
            label: "cache"@,
            fill: Fill::Percent(m.buff_cache_pct),
            value: Shown::Number(m.buff_cache_pct, 0, "%"@),
            tint: Tint::Fixed(Tone::Accent),
            cells: 20,
        },
    ] + match m.swap_used_pct {
        Some(swap) => seq![
            Dial {
                label: "swap"@,
                fill: Fill::Percent(swap),
                value: Shown::Number(swap, 0, "%"@),
                tint: Tint::Fixed(swap_tone(swap)),
                cells: 20,
            },
        ],
        None => seq![],
    }
}

/// A memory block's gauge rows (used + buff/cache + swap).
pub fn memory_gauges(mem: &MemoryInfo<Single>) -> (r: Vec<Meter>)
    ensures
        dials_of(r@) == memory_dials(*mem),
{
    let mut meters: Vec<Meter> = Vec::new();
    meters.push(
        Meter {
            label: "mem".to_owned(),
            fill: Fill::Percent(mem.used_pct),
            value: Figure::MemoryOf { percent: mem.used_pct, total_mib: mem.total_mib },
            tint: Tint::Percent(mem.used_pct),
            cells: 20,
        },
    );
    meters.push(
        Meter {
            label: "cache".to_owned(),
            fill: Fill::Percent(mem.buff_cache_pct),
            value: Figure::Number { value: mem.buff_cache_pct, decimals: 0, unit: "%" },
            tint: Tint::Fixed(Tone::Accent),
            cells: 20,
        },
    );
    if let Some(swap) = mem.swap_used_pct {
        meters.push(
            Meter {
                label: "swap".to_owned(),
                fill: Fill::Percent(swap),
                value: Figure::Number { value: swap, decimals: 0, unit: "%" },
                tint: Tint::Fixed(swap_color(swap)),
                cells: 20,
            },
        );
    }
    assert(dials_of(meters@) =~= memory_dials(*mem));
    meters
}

/// The clock domains; the ARM clock has a color of its own.
pub open spec fn clock_lines(clocks: Seq<(Seq<char>, Single)>) -> Seq<Line> {
    Seq::new(
        clocks.len(),
        |i: int|
            number_line(
                clocks[i].0,
                clocks[i].1,
                0,
                " MHz"@,
                if clocks[i].0 == "arm"@ {
                    Tint::Clock(clocks[i].1)
                } else {
                    Tint::Plain
                },
            ),
    )
}

/// Clock domain grid: `arm 2400 MHz` cells for every domain that answered.
pub fn clock_rows(latest: Option<&Snapshot>) -> (r: Vec<Row>)
    ensures
        lines_of(r@) == match latest {
            Some(s) => clock_lines(s.all_clocks_mhz@),
            None => seq![],
        },
{
    let mut rows: Vec<Row> = Vec::new();
    let s = match latest {
        Some(s) => s,
        None => {
            assert(lines_of(rows@) =~= seq![]);
            return rows;
        },
    };
    let clocks = &s.all_clocks_mhz;
    let mut i: usize = 0;
    while i < clocks.len()
        invariant
            i <= clocks@.len(),
            rows@.len() == i,
            forall|j: int| 0 <= j < i ==> (#[trigger] rows@[j])@ == clock_lines(clocks@)[j],
        decreases clocks@.len() - i,
    {
        let name = clocks.name(i);
        let mhz = *clocks.value(i);
        let tint = if same(name, "arm") {
            Tint::Clock(mhz)
        } else {
            Tint::Plain
        };
        rows.push(
            Row {
                label: name.to_owned(),
                value: Figure::Number { value: mhz, decimals: 0, unit: " MHz" },
                tint,
            },
        );
        i = i + 1;
    }
    assert(lines_of(rows@) =~= clock_lines(clocks@));
    rows
}

/// The voltage rails of one snapshot.
pub open spec fn rail_lines(s: Snapshot) -> Seq<Line> {
    number_lines("core"@, s.core_volts, 4, " V"@) + number_lines(
        "sdram_c"@,
        s.sdram_volatile_volts,
        4,
        " V"@,
    ) + number_lines("sdram_p"@, s.sdram_phy_volts, 4, " V"@) + table_lines(
        ""@,
        s.regulators_v@,
        2,
        " V"@,
    )
}

/// Voltage rails: vcgencmd rails plus enabled regulators.
pub fn voltage_rows(latest: Option<&Snapshot>) -> (r: Vec<Row>)
    ensures
        lines_of(r@) == match latest {
            Some(s) => rail_lines(*s),
            None => seq![],
        },
{
    let mut rows: Vec<Row> = Vec::new();
    assert(lines_of(rows@) =~= Seq::<Line>::empty());
    if let Some(s) = latest {
        push_number(&mut rows, "core", s.core_volts, 4, " V");
        assert(lines_of(rows@) =~= number_lines("core"@, s.core_volts, 4, " V"@));
        push_number(&mut rows, "sdram_c", s.sdram_volatile_volts, 4, " V");
        push_number(&mut rows, "sdram_p", s.sdram_phy_volts, 4, " V");
        push_table(&mut rows, "", &s.regulators_v, 2, " V");
    }
    rows
}

/// A rate that is charted over the history.
#[derive(Debug, Clone, Copy, PartialEq, Eq, Structural)]
pub enum Metric {
    DiskRead,
    DiskWrite,
    NetRx,
    NetTx,
}

/// The value of a charted rate at one snapshot, if it is known there.
pub open spec fn metric_of(metric: Metric, s: Snapshot) -> Option<Single> {
    match metric {
        Metric::DiskRead => match s.disk_io {
            Some(d) => Some(d.read_mib_s),
            None => None,
        },
        Metric::DiskWrite => match s.disk_io {
            Some(d) => Some(d.write_mib_s),
            None => None,
        },
        Metric::NetRx => match s.net_io {
            Some(n) => Some(n.rx_kib_s),
            None => None,
        },
        Metric::NetTx => match s.net_io {
            Some(n) => Some(n.tx_kib_s),
            None => None,
        },
    }
}

/// Picks the value of a charted rate.
pub fn pick(metric: Metric, s: &Snapshot) -> (r: Option<Single>)
    ensures
        r == metric_of(metric, *s),
{
    match metric {
        Metric::DiskRead => match &s.disk_io {
            Some(d) => Some(d.read_mib_s),
            None => None,
        },
        Metric::DiskWrite => match &s.disk_io {
            Some(d) => Some(d.write_mib_s),
            None => None,
        },
        Metric::NetRx => match &s.net_io {
            Some(n) => Some(n.rx_kib_s),
            None => None,
        },
        Metric::NetTx => match &s.net_io {
            Some(n) => Some(n.tx_kib_s),
            None => None,
        },
    }
}

/// The known values of a rate over a history, the oldest first.
pub open spec fn points(history: Seq<Snapshot>, metric: Metric) -> Seq<Single>
    decreases history.len(),
{
    if history.len() == 0 {
        seq![]
    } else {
        let front = points(history.drop_last(), metric);
        match metric_of(metric, history.last()) {
            Some(value) => front.push(value),
            None => front,
        }
    }
}

/// The known values of a rate over a history.
pub fn series(history: &VecDeque<Snapshot>, metric: Metric) -> (r: Vec<Single>)
    ensures
        r@ == points(history@, metric),
{
    let mut values: Vec<Single> = Vec::new();
    let mut i: usize = 0;
    while i < history.len()
        invariant
            i <= history@.len(),
            values@ == points(history@.take(i as int), metric),
        decreases history@.len() - i,
    {
        assert(history@.take(i + 1).drop_last() =~= history@.take(i as int));
        if let Some(value) = pick(metric, &history[i]) {
            values.push(value);
        }
        i = i + 1;
    }
    assert(history@.take(i as int) =~= history@);
    values
}

/// The value a chart shows as the current one: the last, or zero.
pub fn current(series: &Vec<Single>) -> (r: Single)
    ensures
        r == if series@.len() == 0 {
            (Single { bits: 0 })
        } else {
            series@.last()
        },
{
    if series.len() == 0 {
        Single { bits: 0 }
    } else {
        series[series.len() - 1]
    }
}

/// One charted metric: its title, values, unit, color and decimals.
#[derive(Debug)]
pub struct Chart {
    pub title: &'static str,
    pub series: Vec<Single>,
    pub current: Figure,
    pub color: Tone,
}

impl Chart {
    /// Whether this is the chart of a metric over a history.
    pub open spec fn shows(
        self,
        history: Seq<Snapshot>,
        metric: Metric,
        title: Seq<char>,
        unit: Seq<char>,
        color: Tone,
        decimals: u8,
    ) -> bool {
        let values = points(history, metric);
        &&& self.title@ == title
        &&& self.series@ == values
        &&& self.current@ == Shown::Number(
            if values.len() == 0 {
                (Single { bits: 0 })
            } else {
                values.last()
            },
            decimals,
            unit,
        )
        &&& self.color == color
    }
}

/// The chart of a metric.
pub fn chart(
    history: &VecDeque<Snapshot>,
    metric: Metric,
    title: &'static str,
    unit: &'static str,
    color: Tone,
    decimals: u8,
) -> (r: Chart)
    ensures
        r.shows(history@, metric, title@, unit@, color, decimals),
{
    let values = series(history, metric);
    let value = current(&values);
    Chart { title, series: values, current: Figure::Number { value, decimals, unit }, color }
}

/// The charts of the live tab: disk traffic, then network traffic.
pub fn charts(history: &VecDeque<Snapshot>) -> (r: [Chart; 4])
    ensures
        r@[0].shows(history@, Metric::DiskRead, "nvme read"@, " MiB/s"@, Tone::Blue, 2),
        r@[1].shows(history@, Metric::DiskWrite, "nvme write"@, " MiB/s"@, Tone::Accent, 2),
        r@[2].shows(history@, Metric::NetRx, "wifi rx"@, " KiB/s"@, Tone::Green, 1),
        r@[3].shows(history@, Metric::NetTx, "wifi tx"@, " KiB/s"@, Tone::Yellow, 1),
{
    [
        chart(history, Metric::DiskRead, "nvme read", " MiB/s", Tone::Blue, 2),
        chart(history, Metric::DiskWrite, "nvme write", " MiB/s", Tone::Accent, 2),
        chart(history, Metric::NetRx, "wifi rx", " KiB/s", Tone::Green, 1),
        chart(history, Metric::NetTx, "wifi tx", " KiB/s", Tone::Yellow, 1),
    ]
}

/// What the throttling card says of one state, and in which color.
pub open spec fn card_tone(throttle: ThrottleState) -> Tone {
    if throttle.live() {
        Tone::Red
    } else if throttle.sticky() {
        Tone::Yellow
    } else {
        Tone::Green
    }
}

/// The sticky health bitmask from `vcgencmd get_throttled` as a status card:
/// its text and color. Without a snapshot there is no card.
pub fn throttle_card(latest: Option<&Snapshot>) -> (r: Option<(String, Tone)>)
    ensures
        match latest {
            Some(s) => r is Some && (r->0).0@ == s.throttle.summary() && (r->0).1 == card_tone(
                s.throttle,
            ),
            None => r is None,
        },
{
    match latest {
        Some(s) => {
            let color = if s.throttle.active_now() {
                Tone::Red
            } else if s.throttle.any_event() {
                Tone::Yellow
            } else {
                Tone::Green
            };
            Some((s.throttle.describe(), color))
        },
        None => None,
    }
}

/// A picture and a value in the status bar.
#[derive(Debug)]
pub struct Chip {
    pub icon: Mark,
    pub value: Figure,
}

/// The chips of a status bar.
pub open spec fn chips_of(chips: Seq<Chip>) -> Seq<(Mark, Shown)> {
    Seq::new(chips.len(), |i: int| (chips[i].icon, chips[i].value@))
}

pub open spec fn load_chips(s: Snapshot) -> Seq<(Mark, Shown)> {
    match s.load_1m {
        Some(one) => seq![(Mark::Cpu, Shown::Loads(one, s.load_15m))],
        None => seq![],
    }
}

pub open spec fn memory_chips(s: Snapshot) -> Seq<(Mark, Shown)> {
    match s.memory {
        Some(m) => seq![(Mark::MemoryStick, Shown::Number(m.used_pct, 0, "%"@))],
        None => seq![],
    }
}

pub open spec fn disk_chips(s: Snapshot) -> Seq<(Mark, Shown)> {
    match s.disk_io {
        Some(d) => seq![(Mark::HardDrive, Shown::Throughput(d.read_mib_s, d.write_mib_s))],
        None => seq![],
    }
}

pub open spec fn signal_chips(s: Snapshot) -> Seq<(Mark, Shown)> {
    match s.rssi_dbm {
        Some(rssi) => seq![(Mark::Network, Shown::Number(rssi, 0, " dBm"@))],
        None => seq![],
    }
}

/// Bottom bar: load averages, memory, disk and Wi-Fi chips.
pub fn status_chips(latest: Option<&Snapshot>) -> (r: Vec<Chip>)
    ensures
        chips_of(r@) == match latest {
            Some(s) => load_chips(*s) + memory_chips(*s) + disk_chips(*s) + signal_chips(*s),
            None => seq![],
        },
{
    let mut chips: Vec<Chip> = Vec::new();
    if let Some(s) = latest {
        if let Some(one) = s.load_1m {
            chips.push(
                Chip { icon: Mark::Cpu, value: Figure::Loads { one, fifteen: s.load_15m } },
            );
        }
        if let Some(m) = &s.memory {
            chips.push(
                Chip {
                    icon: Mark::MemoryStick,
                    value: Figure::Number { value: m.used_pct, decimals: 0, unit: "%" },
                },
            );
        }
        if let Some(d) = &s.disk_io {
            chips.push(
                Chip {
                    icon: Mark::HardDrive,
                    value: Figure::Throughput { inward: d.read_mib_s, outward: d.write_mib_s },
                },
            );
        }
        if let Some(rssi) = s.rssi_dbm {
            chips.push(
                Chip {
                    icon: Mark::Network,
                    value: Figure::Number { value: rssi, decimals: 0, unit: " dBm" },
                },
            );
        }
        assert(chips_of(chips@) =~= load_chips(*s) + memory_chips(*s) + disk_chips(*s)
            + signal_chips(*s));
    } else {
        assert(chips_of(chips@) =~= seq![]);
    }
    chips
}

/// The end of the status bar while a sweep reports an error: how often it is
/// tried, and the error.
pub open spec fn error_text(err: Seq<char>) -> Seq<char> {
    "1 sample / "@ + decimal((POLL_INTERVAL_MS / 1000) as nat) + "s \u{b7} "@ + err
}

/// The text of the probe's error in the status bar.
pub fn error_chip(probe_error: Option<&str>) -> (r: Option<String>)
    ensures
        match probe_error {
            Some(err) => r is Some && (r->0)@ == error_text(err@),
            None => r is None,
        },
{
    match probe_error {
        Some(err) => {
            let mut out = "1 sample / ".to_owned();
            push_decimal(&mut out, POLL_INTERVAL_MS / 1000);
            out.append("s \u{b7} ");
            out.append(err);
            Some(out)
        },
        None => None,
    }
}

} // verus!
