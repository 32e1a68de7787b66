//! What the dashboard shows, row by row: labels, values and colors. Placing and
//! painting the rows is left to the window.

use std::collections::BTreeMap;

use vstd::prelude::*;
use vstd::string::StringExecFns;

use crate::single::Single;
use crate::snapshot::{CoreState, DiskIo, MemoryInfo, NetIo, Snapshot};
use crate::table::Table;
use crate::text::{decimal, push_decimal};
use crate::widgets::{
    clock_color, clock_tone, fmt_uptime, temp_color, temp_tone, uptime_text, utilization_color,
    utilization_tone, Tone,
};

verus! {

/// A value as it is to be written out.
#[derive(Debug)]
pub enum Figure {
    Text { text: String },
    /// A number with a count of decimals, and what follows it.
    Number { value: Single, decimals: u8, unit: &'static str },
    /// A share times a hundred with a count of decimals, and what follows it.
    Percent { share: Single, decimals: u8, unit: &'static str },
    /// `{used} / {total} MiB ({percent} %)`, the percent with one decimal.
    Memory { used_mib: Single, total_mib: Single, percent: Single },
    /// `{percent}% of {total}G`, the total in GiB.
    MemoryOf { percent: Single, total_mib: Single },
    /// `{inward} {outward} MiB/s`, each with one decimal behind its arrow.
    Throughput { inward: Single, outward: Single },
    /// `{one} / {fifteen} load`, each with two decimals; the second may be
    /// missing.
    Loads { one: Single, fifteen: Option<Single> },
}

/// The mathematical form of a [`Figure`].
pub enum Shown {
    Text(Seq<char>),
    Number(Single, u8, Seq<char>),
    Percent(Single, u8, Seq<char>),
    Memory(Single, Single, Single),
    MemoryOf(Single, Single),
    Throughput(Single, Single),
    Loads(Single, Option<Single>),
}

impl View for Figure {
    type V = Shown;

    open spec fn view(&self) -> Shown {
        match *self {
            Figure::Text { text } => Shown::Text(text@),
            Figure::Number { value, decimals, unit } => Shown::Number(value, decimals, unit@),
            Figure::Percent { share, decimals, unit } => Shown::Percent(share, decimals, unit@),
            Figure::Memory { used_mib, total_mib, percent } => Shown::Memory(
                used_mib,
                total_mib,
                percent,
            ),
            Figure::MemoryOf { percent, total_mib } => Shown::MemoryOf(percent, total_mib),
            Figure::Throughput { inward, outward } => Shown::Throughput(inward, outward),
            Figure::Loads { one, fifteen } => Shown::Loads(one, fifteen),
        }
    }
}

/// What decides the color of a row.
#[derive(Debug, Clone, Copy, PartialEq, Eq, Structural)]
pub enum Tint {
    /// The color of ordinary text.
    Plain,
    /// The color of a temperature.
    Temperature(Single),
    /// The color of a utilization.
    Utilization(Single),
    /// The color of a utilization in percent.
    Percent(Single),
    /// The color of the ARM clock.
    Clock(Single),
    /// One color.
    Fixed(Tone),
}

/// The color that a tint decides on. Of a percentage it is that of its hundredth
/// part.
pub open spec fn tint_tone(tint: Tint, hundredth: Single) -> Tone {
    match tint {
        Tint::Plain => Tone::Foreground,
        Tint::Temperature(temp) => temp_tone(temp),
        Tint::Utilization(share) => utilization_tone(share),
        Tint::Percent(_) => utilization_tone(hundredth),
        Tint::Clock(mhz) => clock_tone(mhz),
        Tint::Fixed(tone) => tone,
    }
}

/// Picks the color that a tint decides on. For a percentage the second argument
/// is its hundredth part; otherwise it does not matter.
pub fn tone(tint: Tint, hundredth: Single) -> (r: Tone)
    ensures
        r == tint_tone(tint, hundredth),
{
    match tint {
        Tint::Plain => Tone::Foreground,
        Tint::Temperature(temp) => temp_color(temp),
        Tint::Utilization(share) => utilization_color(share),
        Tint::Percent(_) => utilization_color(hundredth),
        Tint::Clock(mhz) => clock_color(mhz),
        Tint::Fixed(tone) => tone,
    }
}

/// One row: a label, a value and what decides its color.
#[derive(Debug)]
pub struct Row {
    pub label: String,
    pub value: Figure,
    pub tint: Tint,
}

/// The mathematical form of a [`Row`].
pub struct Line {
    pub label: Seq<char>,
    pub value: Shown,
    pub tint: Tint,
}

impl View for Row {
    type V = Line;

    open spec fn view(&self) -> Line {
        Line { label: self.label@, value: self.value@, tint: self.tint }
    }
}

/// The lines of a list of rows.
pub open spec fn lines_of(rows: Seq<Row>) -> Seq<Line> {
    Seq::new(rows.len(), |i: int| rows[i]@)
}

/// A line for a number.
pub open spec fn number_line(
    label: Seq<char>,
    value: Single,
    decimals: u8,
    unit: Seq<char>,
    tint: Tint,
) -> Line {
    Line { label, value: Shown::Number(value, decimals, unit), tint }
}

/// A line for a number, if there is one.
pub open spec fn number_lines(
    label: Seq<char>,
    value: Option<Single>,
    decimals: u8,
    unit: Seq<char>,
) -> Seq<Line> {
    match value {
        Some(v) => seq![number_line(label, v, decimals, unit, Tint::Plain)],
        None => seq![],
    }
}

/// A line for a temperature, if there is one.
pub open spec fn temp_lines(label: Seq<char>, temp: Option<Single>, unit: Seq<char>) -> Seq<Line> {
    match temp {
        Some(t) => seq![number_line(label, t, 1, unit, Tint::Temperature(t))],
        None => seq![],
    }
}

/// The temperatures of a table, each label behind a prefix.
pub open spec fn zone_lines(
    prefix: Seq<char>,
    zones: Seq<(Seq<char>, Single)>,
    unit: Seq<char>,
) -> Seq<Line> {
    Seq::new(
        zones.len(),
        |i: int|
            number_line(prefix + zones[i].0, zones[i].1, 1, unit, Tint::Temperature(zones[i].1)),
    )
}

/// The numbers of a table, each name behind a prefix.
pub open spec fn table_lines(
    prefix: Seq<char>,
    table: Seq<(Seq<char>, Single)>,
    decimals: u8,
    unit: Seq<char>,
) -> Seq<Line> {
    Seq::new(
        table.len(),
        |i: int| number_line(prefix + table[i].0, table[i].1, decimals, unit, Tint::Plain),
    )
}

/// A line for a utilization, if there is one.
pub open spec fn share_lines(
    label: Seq<char>,
    share: Option<Single>,
    decimals: u8,
    unit: Seq<char>,
) -> Seq<Line> {
    match share {
        Some(v) => seq![
            Line { label, value: Shown::Percent(v, decimals, unit), tint: Tint::Utilization(v) },
        ],
        None => seq![],
    }
}

/// The cores, numbered from zero.
pub open spec fn core_lines(cores: Seq<CoreState>, decimals: u8, unit: Seq<char>) -> Seq<Line> {
    Seq::new(
        cores.len(),
        |i: int|
            Line {
                label: "cpu"@ + decimal(i as nat),
                value: Shown::Percent(cores[i].utilization, decimals, unit),
                tint: Tint::Utilization(cores[i].utilization),
            },
    )
}

/// The ADC inputs below `n`, in the order of their numbers.
pub open spec fn input_lines(inputs: Map<u8, Single>, n: nat) -> Seq<Line>
    decreases n,
{
    if n == 0 {
        seq![]
    } else {
        let input = (n - 1) as u8;
        let front = input_lines(inputs, (n - 1) as nat);
        if inputs.contains_key(input) {
            front.push(
                number_line(
                    "RP1 ADC in"@ + decimal((n - 1) as nat),
                    inputs[input],
                    0,
                    " mV"@,
                    Tint::Plain,
                ),
            )
        } else {
            front
        }
    }
}

/// The lines of a memory, if it is known.
pub open spec fn memory_lines(memory: Option<MemoryInfo<Single>>) -> Seq<Line> {
    match memory {
        Some(m) => seq![
            Line {
                label: "Memory"@,
                value: Shown::Memory(m.used_mib, m.total_mib, m.used_pct),
                tint: Tint::Percent(m.used_pct),
            },
            number_line("Buff/cache"@, m.buff_cache_pct, 1, " %"@, Tint::Plain),
        ] + number_lines("Swap"@, m.swap_used_pct, 1, " %"@),
        None => seq![],
    }
}

/// The lines of a disk's traffic, if it is known.
pub open spec fn disk_lines(disk: Option<DiskIo<Single>>) -> Seq<Line> {
    match disk {
        Some(d) => seq![
            number_line("NVMe read"@, d.read_mib_s, 2, " MiB/s"@, Tint::Plain),
            number_line("NVMe write"@, d.write_mib_s, 2, " MiB/s"@, Tint::Plain),
        ],
        None => seq![],
    }
}

/// The lines of the wireless traffic, if it is known.
pub open spec fn net_lines(net: Option<NetIo<Single>>) -> Seq<Line> {
    match net {
        Some(n) => seq![
            number_line("Wi-Fi rx"@, n.rx_kib_s, 1, " KiB/s"@, Tint::Plain),
            number_line("Wi-Fi tx"@, n.tx_kib_s, 1, " KiB/s"@, Tint::Plain),
        ],
        None => seq![],
    }
}

/// The line of an undervoltage alarm.
pub open spec fn alarm_lines(alarm: bool) -> Seq<Line> {
    if alarm {
        seq![
            Line {
                label: "Undervoltage alarm (hwmon)"@,
                value: Shown::Text("ACTIVE"@),
                tint: Tint::Fixed(Tone::Red),
            },
        ]
    } else {
        seq![]
    }
}

/// The line of the time since boot, if it is known.
pub open spec fn uptime_lines(uptime: Option<u64>) -> Seq<Line> {
    match uptime {
        Some(secs) => seq![
            Line { label: "Uptime"@, value: Shown::Text(uptime_text(secs)), tint: Tint::Plain },
        ],
        None => seq![],
    }
}

/// The full sensor table of one snapshot.
pub open spec fn detail_lines(s: Snapshot) -> Seq<Line> {
    temp_lines("SoC (cpu-thermal)"@, s.soc_temp_c, " \u{b0}C"@) + temp_lines(
        "PMIC"@,
        s.pmic_temp_c,
        " \u{b0}C"@,
    ) + temp_lines("NVMe composite"@, s.nvme_temp_c, " \u{b0}C"@) + temp_lines(
        "RP1 die"@,
        s.rp1_temp_c,
        " \u{b0}C"@,
    ) + zone_lines("zone: "@, s.extra_zones_c@, " \u{b0}C"@) + share_lines(
        "CPU utilization"@,
        s.utilization_pct,
        1,
        " %"@,
    ) + core_lines(s.cores@, 1, " %"@) + memory_lines(s.memory) + disk_lines(s.disk_io)
        + net_lines(s.net_io) + number_lines("Core voltage"@, s.core_volts, 4, " V"@)
        + number_lines("SDRAM controller (sdram_c)"@, s.sdram_volatile_volts, 4, " V"@)
        + number_lines("SDRAM PHY (sdram_p)"@, s.sdram_phy_volts, 4, " V"@) + input_lines(
        s.rp1_adc_mv@,
        256,
    ) + table_lines("regulator: "@, s.regulators_v@, 2, " V"@) + alarm_lines(s.undervolt_alarm)
        + table_lines("clock: "@, s.all_clocks_mhz@, 0, " MHz"@) + number_lines(
        "Load (1 min)"@,
        s.load_1m,
        2,
        ""@,
    ) + number_lines("Load (5 min)"@, s.load_5m, 2, ""@) + number_lines(
        "Load (15 min)"@,
        s.load_15m,
        2,
        ""@,
    ) + uptime_lines(s.uptime_secs) + number_lines("Wi-Fi signal"@, s.rssi_dbm, 0, " dBm"@)
}

pub(crate) fn push_row(rows: &mut Vec<Row>, label: String, value: Figure, tint: Tint)
    ensures
        lines_of(final(rows)@) == lines_of(old(rows)@) + seq![
            Line { label: label@, value: value@, tint },
        ],
{
    let ghost line = Line { label: label@, value: value@, tint };
    rows.push(Row { label, value, tint });
    assert(lines_of(rows@) =~= lines_of(old(rows)@) + seq![line]);
}

pub(crate) fn push_number(
    rows: &mut Vec<Row>,
    label: &str,
    value: Option<Single>,
    decimals: u8,
    unit: &'static str,
)
    ensures
        lines_of(final(rows)@) == lines_of(old(rows)@) + number_lines(
            label@,
            value,
            decimals,
            unit@,
        ),
{
    if let Some(v) = value {
        push_row(rows, label.to_owned(), Figure::Number { value: v, decimals, unit }, Tint::Plain);
    } else {
        assert(lines_of(rows@) =~= lines_of(old(rows)@) + Seq::<Line>::empty());
    }
}

pub(crate) fn push_temp(rows: &mut Vec<Row>, label: &str, temp: Option<Single>, unit: &'static str)
    ensures
        lines_of(final(rows)@) == lines_of(old(rows)@) + temp_lines(label@, temp, unit@),
{
    if let Some(t) = temp {
        push_row(
            rows,
            label.to_owned(),
            Figure::Number { value: t, decimals: 1, unit },
            Tint::Temperature(t),
        );
    } else {
        assert(lines_of(rows@) =~= lines_of(old(rows)@) + Seq::<Line>::empty());
    }
}

pub(crate) fn push_share(
    rows: &mut Vec<Row>,
    label: &str,
    share: Option<Single>,
    decimals: u8,
    unit: &'static str,
)
    ensures
        lines_of(final(rows)@) == lines_of(old(rows)@) + share_lines(
            label@,
            share,
            decimals,
            unit@,
        ),
{
    if let Some(v) = share {
        push_row(
            rows,
            label.to_owned(),
            Figure::Percent { share: v, decimals, unit },
            Tint::Utilization(v),
        );
    } else {
        assert(lines_of(rows@) =~= lines_of(old(rows)@) + Seq::<Line>::empty());
    }
}

pub(crate) fn prefixed(prefix: &str, name: &str) -> (r: String)
    ensures
        r@ == prefix@ + name@,
{
    prefix.to_owned().concat(name)
}

pub(crate) fn numbered(prefix: &str, n: u64) -> (r: String)
    ensures
        r@ == prefix@ + decimal(n as nat),
{
    let mut out = prefix.to_owned();
    push_decimal(&mut out, n);
    out
}

pub(crate) fn push_zones(
    rows: &mut Vec<Row>,
    prefix: &str,
    zones: &Table<Single>,
    unit: &'static str,
)
    ensures
        lines_of(final(rows)@) == lines_of(old(rows)@) + zone_lines(prefix@, zones@, unit@),
{
    let ghost all = zone_lines(prefix@, zones@, unit@);
    let mut i: usize = 0;
    assert(lines_of(rows@) =~= lines_of(old(rows)@) + all.take(0));
    while i < zones.len()
        invariant
            i <= zones@.len(),
            all == zone_lines(prefix@, zones@, unit@),
            lines_of(rows@) == lines_of(old(rows)@) + all.take(i as int),
        decreases zones@.len() - i,
    {
        let t = *zones.value(i);
        push_row(
            rows,
            prefixed(prefix, zones.name(i)),
            Figure::Number { value: t, decimals: 1, unit },
            Tint::Temperature(t),
        );
        assert(all.take(i + 1) =~= all.take(i as int) + seq![all[i as int]]);
        assert(lines_of(rows@) =~= lines_of(old(rows)@) + all.take(i + 1));
        i = i + 1;
    }
    assert(all.take(i as int) == all);
}

pub(crate) fn push_table(
    rows: &mut Vec<Row>,
    prefix: &str,
    table: &Table<Single>,
    decimals: u8,
    unit: &'static str,
)
    ensures
        lines_of(final(rows)@) == lines_of(old(rows)@) + table_lines(
            prefix@,
            table@,
            decimals,
            unit@,
        ),
{
    let ghost all = table_lines(prefix@, table@, decimals, unit@);
    let mut i: usize = 0;
    assert(lines_of(rows@) =~= lines_of(old(rows)@) + all.take(0));
    while i < table.len()
        invariant
            i <= table@.len(),
            all == table_lines(prefix@, table@, decimals, unit@),
            lines_of(rows@) == lines_of(old(rows)@) + all.take(i as int),
        decreases table@.len() - i,
    {
        push_row(
            rows,
            prefixed(prefix, table.name(i)),
            Figure::Number { value: *table.value(i), decimals, unit },
            Tint::Plain,
        );
        assert(all.take(i + 1) =~= all.take(i as int) + seq![all[i as int]]);
        assert(lines_of(rows@) =~= lines_of(old(rows)@) + all.take(i + 1));
        i = i + 1;
    }
    assert(all.take(i as int) == all);
}

fn push_cores(rows: &mut Vec<Row>, cores: &Vec<CoreState>, decimals: u8, unit: &'static str)
    ensures
        lines_of(final(rows)@) == lines_of(old(rows)@) + core_lines(cores@, decimals, unit@),
{
    let ghost all = core_lines(cores@, decimals, unit@);
    let mut i: usize = 0;
    assert(lines_of(rows@) =~= lines_of(old(rows)@) + all.take(0));
    while i < cores.len()
        invariant
            i <= cores@.len(),
            all == core_lines(cores@, decimals, unit@),
            lines_of(rows@) == lines_of(old(rows)@) + all.take(i as int),
        decreases cores@.len() - i,
    {
        let share = cores[i].utilization;
        push_row(
            rows,
            numbered("cpu", i as u64),
            Figure::Percent { share, decimals, unit },
            Tint::Utilization(share),
        );
        assert(all.take(i + 1) =~= all.take(i as int) + seq![all[i as int]]);
        assert(lines_of(rows@) =~= lines_of(old(rows)@) + all.take(i + 1));
        i = i + 1;
    }
    assert(all.take(i as int) == all);
}

fn push_inputs(rows: &mut Vec<Row>, inputs: &BTreeMap<u8, Single>)
    ensures
        lines_of(final(rows)@) == lines_of(old(rows)@) + input_lines(inputs@, 256),
{
    let mut n: u16 = 0;
    assert(lines_of(rows@) =~= lines_of(old(rows)@) + input_lines(inputs@, 0));
    while n < 256
        invariant
            n <= 256,
            lines_of(rows@) == lines_of(old(rows)@) + input_lines(inputs@, n as nat),
        decreases 256 - n,
    {
        let input: u8 = n as u8;
        let ghost front = input_lines(inputs@, n as nat);
        if let Some(mv) = inputs.get(&input) {
            push_row(
                rows,
                numbered("RP1 ADC in", n as u64),
                Figure::Number { value: *mv, decimals: 0, unit: " mV" },
                Tint::Plain,
            );
            proof {
                let line = number_line(
                    "RP1 ADC in"@ + decimal(n as nat),
                    *mv,
                    0,
                    " mV"@,
                    Tint::Plain,
                );
                assert(lines_of(old(rows)@) + front + seq![line] =~= lines_of(old(rows)@)
                    + front.push(line));
            }
        }
        n = n + 1;
    }
}

fn push_memory(rows: &mut Vec<Row>, memory: &Option<MemoryInfo<Single>>)
    ensures
        lines_of(final(rows)@) == lines_of(old(rows)@) + memory_lines(*memory),
{
    if let Some(m) = memory {
        push_row(
            rows,
            "Memory".to_owned(),
            Figure::Memory {
                used_mib: m.used_mib,
                total_mib: m.total_mib,
                percent: m.used_pct,
            },
            Tint::Percent(m.used_pct),
        );
        push_number(rows, "Buff/cache", Some(m.buff_cache_pct), 1, " %");
        push_number(rows, "Swap", m.swap_used_pct, 1, " %");
    }
    assert(lines_of(rows@) =~= lines_of(old(rows)@) + memory_lines(*memory));
}

fn push_disk(rows: &mut Vec<Row>, disk: &Option<DiskIo<Single>>)
    ensures
        lines_of(final(rows)@) == lines_of(old(rows)@) + disk_lines(*disk),
{
    if let Some(d) = disk {
        push_number(rows, "NVMe read", Some(d.read_mib_s), 2, " MiB/s");
        push_number(rows, "NVMe write", Some(d.write_mib_s), 2, " MiB/s");
    }
    assert(lines_of(rows@) =~= lines_of(old(rows)@) + disk_lines(*disk));
}

fn push_net(rows: &mut Vec<Row>, net: &Option<NetIo<Single>>)
    ensures
        lines_of(final(rows)@) == lines_of(old(rows)@) + net_lines(*net),
{
    if let Some(n) = net {
        push_number(rows, "Wi-Fi rx", Some(n.rx_kib_s), 1, " KiB/s");
        push_number(rows, "Wi-Fi tx", Some(n.tx_kib_s), 1, " KiB/s");
    }
    assert(lines_of(rows@) =~= lines_of(old(rows)@) + net_lines(*net));
}

fn push_alarm(rows: &mut Vec<Row>, alarm: bool)
    ensures
        lines_of(final(rows)@) == lines_of(old(rows)@) + alarm_lines(alarm),
{
    if alarm {
        push_row(
            rows,
            "Undervoltage alarm (hwmon)".to_owned(),
            Figure::Text { text: "ACTIVE".to_owned() },
            Tint::Fixed(Tone::Red),
        );
    }
    assert(lines_of(rows@) =~= lines_of(old(rows)@) + alarm_lines(alarm));
}

fn push_uptime(rows: &mut Vec<Row>, uptime: Option<u64>)
    ensures
        lines_of(final(rows)@) == lines_of(old(rows)@) + uptime_lines(uptime),
{
    if let Some(secs) = uptime {
        push_row(
            rows,
            "Uptime".to_owned(),
            Figure::Text { text: fmt_uptime(secs) },
            Tint::Plain,
        );
    }
    assert(lines_of(rows@) =~= lines_of(old(rows)@) + uptime_lines(uptime));
}

/// The rows of the details table, or one that says that there is nothing yet.
pub open spec fn details(latest: Option<&Snapshot>) -> Seq<Line> {
    match latest {
        Some(s) => detail_lines(*s),
        None => seq![
            Line {
                label: "sensors"@,
                value: Shown::Text("waiting for first sweep\u{2026}"@),
                tint: Tint::Plain,
            },
        ],
    }
}

/// The rows of the details table.
pub fn details_rows(latest: Option<&Snapshot>) -> (r: Vec<Row>)
    ensures
        lines_of(r@) == details(latest),
{
    let mut rows: Vec<Row> = Vec::new();
    assert(lines_of(rows@) =~= Seq::<Line>::empty());
    let s = match latest {
        Some(s) => s,
        None => {
            push_row(
                &mut rows,
                "sensors".to_owned(),
                Figure::Text { text: "waiting for first sweep\u{2026}".to_owned() },
                Tint::Plain,
            );
            assert(lines_of(rows@) =~= details(latest));
            return rows;
        },
    };
    push_temp(&mut rows, "SoC (cpu-thermal)", s.soc_temp_c, " \u{b0}C");
    assert(lines_of(rows@) =~= temp_lines("SoC (cpu-thermal)"@, s.soc_temp_c, " \u{b0}C"@));
    push_temp(&mut rows, "PMIC", s.pmic_temp_c, " \u{b0}C");
    push_temp(&mut rows, "NVMe composite", s.nvme_temp_c, " \u{b0}C");
    push_temp(&mut rows, "RP1 die", s.rp1_temp_c, " \u{b0}C");
    push_zones(&mut rows, "zone: ", &s.extra_zones_c, " \u{b0}C");
    push_share(&mut rows, "CPU utilization", s.utilization_pct, 1, " %");
    push_cores(&mut rows, &s.cores, 1, " %");
    push_memory(&mut rows, &s.memory);
    push_disk(&mut rows, &s.disk_io);
    push_net(&mut rows, &s.net_io);
    push_number(&mut rows, "Core voltage", s.core_volts, 4, " V");
    push_number(&mut rows, "SDRAM controller (sdram_c)", s.sdram_volatile_volts, 4, " V");
    push_number(&mut rows, "SDRAM PHY (sdram_p)", s.sdram_phy_volts, 4, " V");
    push_inputs(&mut rows, &s.rp1_adc_mv);
    push_table(&mut rows, "regulator: ", &s.regulators_v, 2, " V");
    push_alarm(&mut rows, s.undervolt_alarm);
    push_table(&mut rows, "clock: ", &s.all_clocks_mhz, 0, " MHz");
    push_number(&mut rows, "Load (1 min)", s.load_1m, 2, "");
    push_number(&mut rows, "Load (5 min)", s.load_5m, 2, "");
    push_number(&mut rows, "Load (15 min)", s.load_15m, 2, "");
    push_uptime(&mut rows, s.uptime_secs);
    push_number(&mut rows, "Wi-Fi signal", s.rssi_dbm, 0, " dBm");
    rows
}

} // verus!
