//! What the dashboard promises to show: which rows, gauges, charts and chips a
//! snapshot has, in which order, and what each of them says.

use vstd::prelude::*;

use crate::single::Single;
use crate::snapshot::{CoreState, DiskIo, MemoryInfo, NetIo, Snapshot};
use crate::text::decimal;
use crate::views::{
    alarm_lines, core_lines, detail_lines, details_rows, disk_lines, input_lines, lines_of,
    memory_lines, net_lines, number_lines, share_lines, table_lines, temp_lines, uptime_lines,
    zone_lines, Figure, Line, Row, Shown, Tint,
};
use crate::widgets::{uptime_text, Tone};

verus! {

/// One row for a value that is there.
pub open spec fn one<T>(value: Option<T>) -> int {
    if value is Some {
        1
    } else {
        0
    }
}

/// The row in a place has this label, value and tint.
#[verifier::opaque]
pub open spec fn row(
    rows: Seq<Row>,
    i: int,
    label: Seq<char>,
    value: Shown,
    tint: Tint,
) -> bool {
    0 <= i < rows.len() && rows[i].label@ == label && rows[i].value@ == value && rows[i].tint
        == tint
}

/// A figure means what its fields say, each in its place.
pub proof fn law_figures_mean_their_fields(
    text: String,
    unit: &'static str,
    a: Single,
    b: Single,
    c: Single,
    n: u8,
    o: Option<Single>,
)
    ensures
        (Figure::Text { text })@ == Shown::Text(text@),
        (Figure::Number { value: a, decimals: n, unit })@ == Shown::Number(a, n, unit@),
        (Figure::Percent { share: a, decimals: n, unit })@ == Shown::Percent(a, n, unit@),
        (Figure::Memory { used_mib: a, total_mib: b, percent: c })@ == Shown::Memory(a, b, c),
        (Figure::MemoryOf { percent: a, total_mib: b })@ == Shown::MemoryOf(a, b),
        (Figure::Throughput { inward: a, outward: b })@ == Shown::Throughput(a, b),
        (Figure::Loads { one: a, fifteen: o })@ == Shown::Loads(a, o),
{
}

/// The ADC inputs that are known, below a number.
pub open spec fn inputs_below(inputs: Map<u8, Single>, n: int) -> Set<u8> {
    Set::new(|k: u8| inputs.contains_key(k) && k < n)
}

proof fn lemma_inputs(inputs: Map<u8, Single>, n: nat)
    requires
        n <= 256,
    ensures
        inputs_below(inputs, n as int).finite(),
        input_lines(inputs, n).len() == inputs_below(inputs, n as int).len(),
        forall|k: u8|
            k < n && inputs.contains_key(k) ==> {
                let i = (#[trigger] inputs_below(inputs, k as int)).len() as int;
                &&& i < input_lines(inputs, n).len()
                &&& input_lines(inputs, n)[i].label == "RP1 ADC in"@ + decimal(k as nat)
                &&& input_lines(inputs, n)[i].value == Shown::Number(inputs[k], 0, " mV"@)
                &&& input_lines(inputs, n)[i].tint == Tint::Plain
            },
    decreases n,
{
    if n == 0 {
        assert(inputs_below(inputs, 0) =~= Set::empty());
    } else {
        let m = (n - 1) as nat;
        let input = m as u8;
        lemma_inputs(inputs, m);
        let front = inputs_below(inputs, m as int);
        if inputs.contains_key(input) {
            assert(inputs_below(inputs, n as int) =~= front.insert(input));
        } else {
            assert(inputs_below(inputs, n as int) =~= front);
        }
        assert forall|k: u8| k < n && inputs.contains_key(k) implies {
            let i = (#[trigger] inputs_below(inputs, k as int)).len() as int;
            &&& i < input_lines(inputs, n).len()
            &&& input_lines(inputs, n)[i].label == "RP1 ADC in"@ + decimal(k as nat)
            &&& input_lines(inputs, n)[i].value == Shown::Number(inputs[k], 0, " mV"@)
            &&& input_lines(inputs, n)[i].tint == Tint::Plain
        } by {
            if k == input {
                assert(inputs_below(inputs, k as int) == front);
            } else {
                let i = inputs_below(inputs, k as int).len() as int;
                assert(input_lines(inputs, n)[i] == input_lines(inputs, m)[i]);
            }
        }
    }
}

/// The rows from a place on are these lines.
#[verifier::opaque]
pub open spec fn lies(rows: Seq<Row>, at: int, part: Seq<Line>) -> bool {
    &&& 0 <= at
    &&& at + part.len() <= rows.len()
    &&& forall|j: int| 0 <= j < part.len() ==> #[trigger] part[j] == rows[at + j]@
}

pub proof fn lemma_lies(rows: Seq<Row>, all: Seq<Line>)
    requires
        lines_of(rows) == all,
    ensures
        lies(rows, 0, all),
        rows.len() == all.len(),
{
    reveal(lies);
    assert(lines_of(rows).len() == rows.len());
    assert forall|j: int| 0 <= j < all.len() implies #[trigger] all[j] == rows[0 + j]@ by {
        assert(lines_of(rows)[j] == rows[j]@);
    }
}

pub proof fn lemma_last_part(rows: Seq<Row>, front: Seq<Line>, part: Seq<Line>)
    requires
        lies(rows, 0, front + part),
    ensures
        lies(rows, 0, front),
        lies(rows, front.len() as int, part),
        (front + part).len() == front.len() + part.len(),
{
    reveal(lies);
    let all = front + part;
    assert forall|j: int| 0 <= j < front.len() implies #[trigger] front[j] == rows[0 + j]@ by {
        assert(all[j] == front[j]);
    }
    assert forall|j: int| 0 <= j < part.len() implies #[trigger] part[j] == rows[front.len()
        + j]@ by {
        assert(all[front.len() + j] == part[j]);
        assert(rows[0 + (front.len() + j)]@ == all[front.len() + j]);
    }
}

pub proof fn lemma_number_row(
    rows: Seq<Row>,
    at: int,
    label: Seq<char>,
    value: Option<Single>,
    decimals: u8,
    unit: Seq<char>,
)
    requires
        lies(rows, at, number_lines(label, value, decimals, unit)),
    ensures
        number_lines(label, value, decimals, unit).len() == one(value),
        value matches Some(v) ==> row(
            rows,
            at,
            label,
            Shown::Number(v, decimals, unit),
            Tint::Plain,
        ),
{
    reveal(lies);
    reveal(row);
    if value is Some {
        assert(number_lines(label, value, decimals, unit)[0] == rows[at + 0]@);
    }
}

pub proof fn lemma_temp_row(
    rows: Seq<Row>,
    at: int,
    label: Seq<char>,
    temp: Option<Single>,
    unit: Seq<char>,
)
    requires
        lies(rows, at, temp_lines(label, temp, unit)),
    ensures
        temp_lines(label, temp, unit).len() == one(temp),
        temp matches Some(t) ==> row(
            rows,
            at,
            label,
            Shown::Number(t, 1, unit),
            Tint::Temperature(t),
        ),
{
    reveal(lies);
    reveal(row);
    if temp is Some {
        assert(temp_lines(label, temp, unit)[0] == rows[at + 0]@);
    }
}

pub proof fn lemma_share_row(
    rows: Seq<Row>,
    at: int,
    label: Seq<char>,
    share: Option<Single>,
    decimals: u8,
    unit: Seq<char>,
)
    requires
        lies(rows, at, share_lines(label, share, decimals, unit)),
    ensures
        share_lines(label, share, decimals, unit).len() == one(share),
        share matches Some(v) ==> row(
            rows,
            at,
            label,
            Shown::Percent(v, decimals, unit),
            Tint::Utilization(v),
        ),
{
    reveal(lies);
    reveal(row);
    if share is Some {
        assert(share_lines(label, share, decimals, unit)[0] == rows[at + 0]@);
    }
}

pub proof fn lemma_zone_rows(
    rows: Seq<Row>,
    at: int,
    prefix: Seq<char>,
    zones: Seq<(Seq<char>, Single)>,
    unit: Seq<char>,
)
    requires
        lies(rows, at, zone_lines(prefix, zones, unit)),
    ensures
        zone_lines(prefix, zones, unit).len() == zones.len(),
        forall|k: int|
            0 <= k < zones.len() ==> row(
                rows,
                at + k,
                prefix + (#[trigger] zones[k]).0,
                Shown::Number(zones[k].1, 1, unit),
                Tint::Temperature(zones[k].1),
            ),
{
    reveal(lies);
    reveal(row);
    assert forall|k: int| 0 <= k < zones.len() implies row(
        rows,
        at + k,
        prefix + (#[trigger] zones[k]).0,
        Shown::Number(zones[k].1, 1, unit),
        Tint::Temperature(zones[k].1),
    ) by {
        assert(zone_lines(prefix, zones, unit)[k] == rows[at + k]@);
    }
}

pub proof fn lemma_table_rows(
    rows: Seq<Row>,
    at: int,
    prefix: Seq<char>,
    table: Seq<(Seq<char>, Single)>,
    decimals: u8,
    unit: Seq<char>,
)
    requires
        lies(rows, at, table_lines(prefix, table, decimals, unit)),
    ensures
        table_lines(prefix, table, decimals, unit).len() == table.len(),
        forall|k: int|
            0 <= k < table.len() ==> row(
                rows,
                at + k,
                prefix + (#[trigger] table[k]).0,
                Shown::Number(table[k].1, decimals, unit),
                Tint::Plain,
            ),
{
    reveal(lies);
    reveal(row);
    assert forall|k: int| 0 <= k < table.len() implies row(
        rows,
        at + k,
        prefix + (#[trigger] table[k]).0,
        Shown::Number(table[k].1, decimals, unit),
        Tint::Plain,
    ) by {
        assert(table_lines(prefix, table, decimals, unit)[k] == rows[at + k]@);
    }
}

proof fn lemma_core_rows(rows: Seq<Row>, at: int, cores: Seq<CoreState>)
    requires
        lies(rows, at, core_lines(cores, 1, " %"@)),
    ensures
        core_lines(cores, 1, " %"@).len() == cores.len(),
        forall|k: int|
            0 <= k < cores.len() ==> row(
                rows,
                at + k,
                "cpu"@ + decimal(k as nat),
                Shown::Percent((#[trigger] cores[k]).utilization, 1, " %"@),
                Tint::Utilization(cores[k].utilization),
            ),
{
    reveal(lies);
    reveal(row);
    assert forall|k: int| 0 <= k < cores.len() implies row(
        rows,
        at + k,
        "cpu"@ + decimal(k as nat),
        Shown::Percent((#[trigger] cores[k]).utilization, 1, " %"@),
        Tint::Utilization(cores[k].utilization),
    ) by {
        assert(core_lines(cores, 1, " %"@)[k] == rows[at + k]@);
    }
}

proof fn lemma_memory_rows(rows: Seq<Row>, at: int, memory: Option<MemoryInfo<Single>>)
    requires
        lies(rows, at, memory_lines(memory)),
    ensures
        memory_lines(memory).len() == match memory {
            Some(m) => 2 + one(m.swap_used_pct),
            None => 0,
        },
        memory matches Some(m) ==> row(
            rows,
            at,
            "Memory"@,
            Shown::Memory(m.used_mib, m.total_mib, m.used_pct),
            Tint::Percent(m.used_pct),
        ) && row(
            rows,
            at + 1,
            "Buff/cache"@,
            Shown::Number(m.buff_cache_pct, 1, " %"@),
            Tint::Plain,
        ) && (m.swap_used_pct matches Some(swap) ==> row(
            rows,
            at + 2,
            "Swap"@,
            Shown::Number(swap, 1, " %"@),
            Tint::Plain,
        )),
{
    reveal(lies);
    reveal(row);
    if let Some(m) = memory {
        let part = memory_lines(memory);
        assert(part[0] == rows[at + 0]@);
        assert(part[1] == rows[at + 1]@);
        if m.swap_used_pct is Some {
            assert(part[2] == rows[at + 2]@);
        }
    }
}

proof fn lemma_traffic_rows(
    rows: Seq<Row>,
    at: int,
    disk: Option<DiskIo<Single>>,
    next: int,
    net: Option<NetIo<Single>>,
)
    requires
        lies(rows, at, disk_lines(disk)),
        lies(rows, next, net_lines(net)),
    ensures
        disk_lines(disk).len() == 2 * one(disk),
        net_lines(net).len() == 2 * one(net),
        disk matches Some(io) ==> row(
            rows,
            at,
            "NVMe read"@,
            Shown::Number(io.read_mib_s, 2, " MiB/s"@),
            Tint::Plain,
        ) && row(
            rows,
            at + 1,
            "NVMe write"@,
            Shown::Number(io.write_mib_s, 2, " MiB/s"@),
            Tint::Plain,
        ),
        net matches Some(io) ==> row(
            rows,
            next,
            "Wi-Fi rx"@,
            Shown::Number(io.rx_kib_s, 1, " KiB/s"@),
            Tint::Plain,
        ) && row(
            rows,
            next + 1,
            "Wi-Fi tx"@,
            Shown::Number(io.tx_kib_s, 1, " KiB/s"@),
            Tint::Plain,
        ),
{
    reveal(lies);
    reveal(row);
    if disk is Some {
        assert(disk_lines(disk)[0] == rows[at + 0]@);
        assert(disk_lines(disk)[1] == rows[at + 1]@);
    }
    if net is Some {
        assert(net_lines(net)[0] == rows[next + 0]@);
        assert(net_lines(net)[1] == rows[next + 1]@);
    }
}

proof fn lemma_input_rows(rows: Seq<Row>, at: int, inputs: Map<u8, Single>)
    requires
        lies(rows, at, input_lines(inputs, 256)),
    ensures
        input_lines(inputs, 256).len() == inputs_below(inputs, 256).len(),
        forall|k: u8|
            inputs.contains_key(k) ==> row(
                rows,
                at + (#[trigger] inputs_below(inputs, k as int)).len(),
                "RP1 ADC in"@ + decimal(k as nat),
                Shown::Number(inputs[k], 0, " mV"@),
                Tint::Plain,
            ),
{
    reveal(lies);
    reveal(row);
    lemma_inputs(inputs, 256);
    assert forall|k: u8| inputs.contains_key(k) implies row(
        rows,
        at + (#[trigger] inputs_below(inputs, k as int)).len(),
        "RP1 ADC in"@ + decimal(k as nat),
        Shown::Number(inputs[k], 0, " mV"@),
        Tint::Plain,
    ) by {
        let i = inputs_below(inputs, k as int).len() as int;
        assert(input_lines(inputs, 256)[i] == rows[at + i]@);
    }
}

proof fn lemma_alarm_row(rows: Seq<Row>, at: int, alarm: bool)
    requires
        lies(rows, at, alarm_lines(alarm)),
    ensures
        alarm_lines(alarm).len() == if alarm {
            1int
        } else {
            0
        },
        alarm ==> row(
            rows,
            at,
            "Undervoltage alarm (hwmon)"@,
            Shown::Text("ACTIVE"@),
            Tint::Fixed(Tone::Red),
        ),
{
    reveal(lies);
    reveal(row);
    if alarm {
        assert(alarm_lines(alarm)[0] == rows[at + 0]@);
    }
}

proof fn lemma_uptime_row(rows: Seq<Row>, at: int, uptime: Option<u64>)
    requires
        lies(rows, at, uptime_lines(uptime)),
    ensures
        uptime_lines(uptime).len() == one(uptime),
        uptime matches Some(secs) ==> row(
            rows,
            at,
            "Uptime"@,
            Shown::Text(uptime_text(secs)),
            Tint::Plain,
        ),
{
    reveal(lies);
    reveal(row);
    if uptime is Some {
        assert(uptime_lines(uptime)[0] == rows[at + 0]@);
    }
}

/// The parts up to a number, one behind the other.
pub open spec fn joined(parts: Seq<Seq<Line>>, n: int) -> Seq<Line>
    decreases n,
{
    if n <= 0 {
        seq![]
    } else {
        joined(parts, n - 1) + parts[n - 1]
    }
}

/// Where a part begins.
pub open spec fn begin(parts: Seq<Seq<Line>>, k: int) -> int
    decreases k,
{
    if k <= 0 {
        0
    } else {
        begin(parts, k - 1) + parts[k - 1].len()
    }
}

pub proof fn lemma_parts(rows: Seq<Row>, parts: Seq<Seq<Line>>, n: int)
    requires
        0 <= n <= parts.len(),
        lies(rows, 0, joined(parts, n)),
    ensures
        joined(parts, n).len() == begin(parts, n),
        forall|k: int| 0 <= k < n ==> lies(rows, #[trigger] begin(parts, k), parts[k]),
    decreases n,
{
    if n > 0 {
        lemma_last_part(rows, joined(parts, n - 1), parts[n - 1]);
        lemma_parts(rows, parts, n - 1);
    }
}

#[verifier::opaque]
spec fn detail_parts(s: Snapshot) -> Seq<Seq<Line>> {
    seq![
        temp_lines("SoC (cpu-thermal)"@, s.soc_temp_c, " \u{b0}C"@),
        temp_lines("PMIC"@, s.pmic_temp_c, " \u{b0}C"@),
        temp_lines("NVMe composite"@, s.nvme_temp_c, " \u{b0}C"@),
        temp_lines("RP1 die"@, s.rp1_temp_c, " \u{b0}C"@),
        zone_lines("zone: "@, s.extra_zones_c@, " \u{b0}C"@),
        share_lines("CPU utilization"@, s.utilization_pct, 1, " %"@),
        core_lines(s.cores@, 1, " %"@),
        memory_lines(s.memory),
        disk_lines(s.disk_io),
        net_lines(s.net_io),
        number_lines("Core voltage"@, s.core_volts, 4, " V"@),
        number_lines("SDRAM controller (sdram_c)"@, s.sdram_volatile_volts, 4, " V"@),
        number_lines("SDRAM PHY (sdram_p)"@, s.sdram_phy_volts, 4, " V"@),
        input_lines(s.rp1_adc_mv@, 256),
        table_lines("regulator: "@, s.regulators_v@, 2, " V"@),
        alarm_lines(s.undervolt_alarm),
        table_lines("clock: "@, s.all_clocks_mhz@, 0, " MHz"@),
        number_lines("Load (1 min)"@, s.load_1m, 2, ""@),
        number_lines("Load (5 min)"@, s.load_5m, 2, ""@),
        number_lines("Load (15 min)"@, s.load_15m, 2, ""@),
        uptime_lines(s.uptime_secs),
        number_lines("Wi-Fi signal"@, s.rssi_dbm, 0, " dBm"@),
    ]
}

proof fn lemma_detail_parts(s: Snapshot)
    ensures
        detail_parts(s).len() == 22,
        joined(detail_parts(s), 22) == detail_lines(s),
        detail_parts(s)[0] == temp_lines("SoC (cpu-thermal)"@, s.soc_temp_c, " \u{b0}C"@),
        detail_parts(s)[1] == temp_lines("PMIC"@, s.pmic_temp_c, " \u{b0}C"@),
        detail_parts(s)[2] == temp_lines("NVMe composite"@, s.nvme_temp_c, " \u{b0}C"@),
        detail_parts(s)[3] == temp_lines("RP1 die"@, s.rp1_temp_c, " \u{b0}C"@),
        detail_parts(s)[4] == zone_lines("zone: "@, s.extra_zones_c@, " \u{b0}C"@),
        detail_parts(s)[5] == share_lines("CPU utilization"@, s.utilization_pct, 1, " %"@),
        detail_parts(s)[6] == core_lines(s.cores@, 1, " %"@),
        detail_parts(s)[7] == memory_lines(s.memory),
        detail_parts(s)[8] == disk_lines(s.disk_io),
        detail_parts(s)[9] == net_lines(s.net_io),
        detail_parts(s)[10] == number_lines("Core voltage"@, s.core_volts, 4, " V"@),
        detail_parts(s)[11] == number_lines(
            "SDRAM controller (sdram_c)"@,
            s.sdram_volatile_volts,
            4,
            " V"@,
        ),
        detail_parts(s)[12] == number_lines("SDRAM PHY (sdram_p)"@, s.sdram_phy_volts, 4, " V"@),
        detail_parts(s)[13] == input_lines(s.rp1_adc_mv@, 256),
        detail_parts(s)[14] == table_lines("regulator: "@, s.regulators_v@, 2, " V"@),
        detail_parts(s)[15] == alarm_lines(s.undervolt_alarm),
        detail_parts(s)[16] == table_lines("clock: "@, s.all_clocks_mhz@, 0, " MHz"@),
        detail_parts(s)[17] == number_lines("Load (1 min)"@, s.load_1m, 2, ""@),
        detail_parts(s)[18] == number_lines("Load (5 min)"@, s.load_5m, 2, ""@),
        detail_parts(s)[19] == number_lines("Load (15 min)"@, s.load_15m, 2, ""@),
        detail_parts(s)[20] == uptime_lines(s.uptime_secs),
        detail_parts(s)[21] == number_lines("Wi-Fi signal"@, s.rssi_dbm, 0, " dBm"@),
{
    reveal(detail_parts);
    reveal_with_fuel(joined, 23);
    let parts = detail_parts(s);
    assert(Seq::<Line>::empty() + parts[0] =~= parts[0]);
}

/// One row for a condition that holds.
pub open spec fn flag(condition: bool) -> int {
    if condition {
        1
    } else {
        0
    }
}

/// The rows of a memory: two, and one more for swap.
pub open spec fn memory_rows(memory: Option<MemoryInfo<Single>>) -> int {
    match memory {
        Some(m) => 2 + one(m.swap_used_pct),
        None => 0,
    }
}

/// Where each part of the details table begins, and where the table ends.
pub struct Places {
    pub soc: int,
    pub pmic: int,
    pub nvme: int,
    pub rp1: int,
    pub zones: int,
    pub cpu: int,
    pub cores: int,
    pub memory: int,
    pub disk: int,
    pub net: int,
    pub core: int,
    pub sdram_c: int,
    pub sdram_p: int,
    pub inputs: int,
    pub rails: int,
    pub alarm: int,
    pub clocks: int,
    pub load_1m: int,
    pub load_5m: int,
    pub load_15m: int,
    pub uptime: int,
    pub wifi: int,
    pub end: int,
}

/// The parts of the details table stand one behind the other: each begins where
/// the one before it ends.
pub open spec fn places(s: Snapshot) -> Places {
    let soc: int = 0;
    let pmic: int = soc + one(s.soc_temp_c);
    let nvme: int = pmic + one(s.pmic_temp_c);
    let rp1: int = nvme + one(s.nvme_temp_c);
    let zones: int = rp1 + one(s.rp1_temp_c);
    let cpu: int = zones + s.extra_zones_c@.len();
    let cores: int = cpu + one(s.utilization_pct);
    let memory: int = cores + s.cores@.len();
    let disk: int = memory + memory_rows(s.memory);
    let net: int = disk + 2 * one(s.disk_io);
    let core: int = net + 2 * one(s.net_io);
    let sdram_c: int = core + one(s.core_volts);
    let sdram_p: int = sdram_c + one(s.sdram_volatile_volts);
    let inputs: int = sdram_p + one(s.sdram_phy_volts);
    let rails: int = inputs + inputs_below(s.rp1_adc_mv@, 256).len();
    let alarm: int = rails + s.regulators_v@.len();
    let clocks: int = alarm + flag(s.undervolt_alarm);
    let load_1m: int = clocks + s.all_clocks_mhz@.len();
    let load_5m: int = load_1m + one(s.load_1m);
    let load_15m: int = load_5m + one(s.load_5m);
    let uptime: int = load_15m + one(s.load_15m);
    let wifi: int = uptime + one(s.uptime_secs);
    let end: int = wifi + one(s.rssi_dbm);
    Places {
        soc,
        pmic,
        nvme,
        rp1,
        zones,
        cpu,
        cores,
        memory,
        disk,
        net,
        core,
        sdram_c,
        sdram_p,
        inputs,
        rails,
        alarm,
        clocks,
        load_1m,
        load_5m,
        load_15m,
        uptime,
        wifi,
        end,
    }
}

proof fn lemma_part_lengths(s: Snapshot)
    ensures
        detail_parts(s)[0].len() == one(s.soc_temp_c),
        detail_parts(s)[1].len() == one(s.pmic_temp_c),
        detail_parts(s)[2].len() == one(s.nvme_temp_c),
        detail_parts(s)[3].len() == one(s.rp1_temp_c),
        detail_parts(s)[4].len() == s.extra_zones_c@.len(),
        detail_parts(s)[5].len() == one(s.utilization_pct),
        detail_parts(s)[6].len() == s.cores@.len(),
        detail_parts(s)[7].len() == memory_rows(s.memory),
        detail_parts(s)[8].len() == 2 * one(s.disk_io),
        detail_parts(s)[9].len() == 2 * one(s.net_io),
        detail_parts(s)[10].len() == one(s.core_volts),
        detail_parts(s)[11].len() == one(s.sdram_volatile_volts),
        detail_parts(s)[12].len() == one(s.sdram_phy_volts),
        detail_parts(s)[13].len() == inputs_below(s.rp1_adc_mv@, 256).len(),
        detail_parts(s)[14].len() == s.regulators_v@.len(),
        detail_parts(s)[15].len() == flag(s.undervolt_alarm),
        detail_parts(s)[16].len() == s.all_clocks_mhz@.len(),
        detail_parts(s)[17].len() == one(s.load_1m),
        detail_parts(s)[18].len() == one(s.load_5m),
        detail_parts(s)[19].len() == one(s.load_15m),
        detail_parts(s)[20].len() == one(s.uptime_secs),
        detail_parts(s)[21].len() == one(s.rssi_dbm),
{
    lemma_detail_parts(s);
    lemma_inputs(s.rp1_adc_mv@, 256);
}

proof fn lemma_places(s: Snapshot)
    ensures
        begin(detail_parts(s), 0) == places(s).soc,
        begin(detail_parts(s), 1) == places(s).pmic,
        begin(detail_parts(s), 2) == places(s).nvme,
        begin(detail_parts(s), 3) == places(s).rp1,
        begin(detail_parts(s), 4) == places(s).zones,
        begin(detail_parts(s), 5) == places(s).cpu,
        begin(detail_parts(s), 6) == places(s).cores,
        begin(detail_parts(s), 7) == places(s).memory,
        begin(detail_parts(s), 8) == places(s).disk,
        begin(detail_parts(s), 9) == places(s).net,
        begin(detail_parts(s), 10) == places(s).core,
        begin(detail_parts(s), 11) == places(s).sdram_c,
        begin(detail_parts(s), 12) == places(s).sdram_p,
        begin(detail_parts(s), 13) == places(s).inputs,
        begin(detail_parts(s), 14) == places(s).rails,
        begin(detail_parts(s), 15) == places(s).alarm,
        begin(detail_parts(s), 16) == places(s).clocks,
        begin(detail_parts(s), 17) == places(s).load_1m,
        begin(detail_parts(s), 18) == places(s).load_5m,
        begin(detail_parts(s), 19) == places(s).load_15m,
        begin(detail_parts(s), 20) == places(s).uptime,
        begin(detail_parts(s), 21) == places(s).wifi,
        begin(detail_parts(s), 22) == places(s).end,
{
    let parts = detail_parts(s);
    lemma_part_lengths(s);
    assert(begin(parts, 1) == begin(parts, 0) + parts[0].len());
    assert(begin(parts, 2) == begin(parts, 1) + parts[1].len());
    assert(begin(parts, 3) == begin(parts, 2) + parts[2].len());
    assert(begin(parts, 4) == begin(parts, 3) + parts[3].len());
    assert(begin(parts, 5) == begin(parts, 4) + parts[4].len());
    assert(begin(parts, 6) == begin(parts, 5) + parts[5].len());
    assert(begin(parts, 7) == begin(parts, 6) + parts[6].len());
    assert(begin(parts, 8) == begin(parts, 7) + parts[7].len());
    assert(begin(parts, 9) == begin(parts, 8) + parts[8].len());
    assert(begin(parts, 10) == begin(parts, 9) + parts[9].len());
    assert(begin(parts, 11) == begin(parts, 10) + parts[10].len());
    assert(begin(parts, 12) == begin(parts, 11) + parts[11].len());
    assert(begin(parts, 13) == begin(parts, 12) + parts[12].len());
    assert(begin(parts, 14) == begin(parts, 13) + parts[13].len());
    assert(begin(parts, 15) == begin(parts, 14) + parts[14].len());
    assert(begin(parts, 16) == begin(parts, 15) + parts[15].len());
    assert(begin(parts, 17) == begin(parts, 16) + parts[16].len());
    assert(begin(parts, 18) == begin(parts, 17) + parts[17].len());
    assert(begin(parts, 19) == begin(parts, 18) + parts[18].len());
    assert(begin(parts, 20) == begin(parts, 19) + parts[19].len());
    assert(begin(parts, 21) == begin(parts, 20) + parts[20].len());
    assert(begin(parts, 22) == begin(parts, 21) + parts[21].len());
}

proof fn lemma_details_lie(s: &Snapshot, r: Vec<Row>)
    requires
        call_ensures(details_rows, (Some(s),), r),
    ensures
        r@.len() == places(*s).end,
        lies(r@, places(*s).soc, temp_lines("SoC (cpu-thermal)"@, s.soc_temp_c, " \u{b0}C"@)),
        lies(r@, places(*s).pmic, temp_lines("PMIC"@, s.pmic_temp_c, " \u{b0}C"@)),
        lies(r@, places(*s).nvme, temp_lines("NVMe composite"@, s.nvme_temp_c, " \u{b0}C"@)),
        lies(r@, places(*s).rp1, temp_lines("RP1 die"@, s.rp1_temp_c, " \u{b0}C"@)),
        lies(r@, places(*s).zones, zone_lines("zone: "@, s.extra_zones_c@, " \u{b0}C"@)),
        lies(r@, places(*s).cpu, share_lines("CPU utilization"@, s.utilization_pct, 1, " %"@)),
        lies(r@, places(*s).cores, core_lines(s.cores@, 1, " %"@)),
        lies(r@, places(*s).memory, memory_lines(s.memory)),
        lies(r@, places(*s).disk, disk_lines(s.disk_io)),
        lies(r@, places(*s).net, net_lines(s.net_io)),
        lies(r@, places(*s).core, number_lines("Core voltage"@, s.core_volts, 4, " V"@)),
        lies(
            r@,
            places(*s).sdram_c,
            number_lines("SDRAM controller (sdram_c)"@, s.sdram_volatile_volts, 4, " V"@),
        ),
        lies(
            r@,
            places(*s).sdram_p,
            number_lines("SDRAM PHY (sdram_p)"@, s.sdram_phy_volts, 4, " V"@),
        ),
        lies(r@, places(*s).inputs, input_lines(s.rp1_adc_mv@, 256)),
        lies(r@, places(*s).rails, table_lines("regulator: "@, s.regulators_v@, 2, " V"@)),
        lies(r@, places(*s).alarm, alarm_lines(s.undervolt_alarm)),
        lies(r@, places(*s).clocks, table_lines("clock: "@, s.all_clocks_mhz@, 0, " MHz"@)),
        lies(r@, places(*s).load_1m, number_lines("Load (1 min)"@, s.load_1m, 2, ""@)),
        lies(r@, places(*s).load_5m, number_lines("Load (5 min)"@, s.load_5m, 2, ""@)),
        lies(r@, places(*s).load_15m, number_lines("Load (15 min)"@, s.load_15m, 2, ""@)),
        lies(r@, places(*s).uptime, uptime_lines(s.uptime_secs)),
        lies(r@, places(*s).wifi, number_lines("Wi-Fi signal"@, s.rssi_dbm, 0, " dBm"@)),
{
    let parts = detail_parts(*s);
    lemma_detail_parts(*s);
    lemma_places(*s);
    lemma_lies(r@, joined(parts, 22));
    lemma_parts(r@, parts, 22);
    assert(lies(r@, begin(parts, 0), parts[0]));
    assert(lies(r@, begin(parts, 1), parts[1]));
    assert(lies(r@, begin(parts, 2), parts[2]));
    assert(lies(r@, begin(parts, 3), parts[3]));
    assert(lies(r@, begin(parts, 4), parts[4]));
    assert(lies(r@, begin(parts, 5), parts[5]));
    assert(lies(r@, begin(parts, 6), parts[6]));
    assert(lies(r@, begin(parts, 7), parts[7]));
    assert(lies(r@, begin(parts, 8), parts[8]));
    assert(lies(r@, begin(parts, 9), parts[9]));
    assert(lies(r@, begin(parts, 10), parts[10]));
    assert(lies(r@, begin(parts, 11), parts[11]));
    assert(lies(r@, begin(parts, 12), parts[12]));
    assert(lies(r@, begin(parts, 13), parts[13]));
    assert(lies(r@, begin(parts, 14), parts[14]));
    assert(lies(r@, begin(parts, 15), parts[15]));
    assert(lies(r@, begin(parts, 16), parts[16]));
    assert(lies(r@, begin(parts, 17), parts[17]));
    assert(lies(r@, begin(parts, 18), parts[18]));
    assert(lies(r@, begin(parts, 19), parts[19]));
    assert(lies(r@, begin(parts, 20), parts[20]));
    assert(lies(r@, begin(parts, 21), parts[21]));
}

/// The details table begins with the temperatures that are known: SoC, PMIC, NVMe,
/// RP1 and the further zones.
pub proof fn law_details_of_temperatures(s: &Snapshot, r: Vec<Row>)
    requires
        call_ensures(details_rows, (Some(s),), r),
    ensures
        s.soc_temp_c matches Some(t) ==> row(
            r@,
            0,
            "SoC (cpu-thermal)"@,
            Shown::Number(t, 1, " \u{b0}C"@),
            Tint::Temperature(t),
        ),
        s.pmic_temp_c matches Some(t) ==> row(
            r@,
            places(*s).pmic,
            "PMIC"@,
            Shown::Number(t, 1, " \u{b0}C"@),
            Tint::Temperature(t),
        ),
        s.nvme_temp_c matches Some(t) ==> row(
            r@,
            places(*s).nvme,
            "NVMe composite"@,
            Shown::Number(t, 1, " \u{b0}C"@),
            Tint::Temperature(t),
        ),
        s.rp1_temp_c matches Some(t) ==> row(
            r@,
            places(*s).rp1,
            "RP1 die"@,
            Shown::Number(t, 1, " \u{b0}C"@),
            Tint::Temperature(t),
        ),
        forall|k: int|
            0 <= k < s.extra_zones_c@.len() ==> row(
                r@,
                places(*s).zones + k,
                "zone: "@ + (#[trigger] s.extra_zones_c@[k]).0,
                Shown::Number(s.extra_zones_c@[k].1, 1, " \u{b0}C"@),
                Tint::Temperature(s.extra_zones_c@[k].1),
            ),
{
    let c = " \u{b0}C"@;
    lemma_details_lie(s, r);
    let at = places(*s);
    lemma_temp_row(r@, at.soc, "SoC (cpu-thermal)"@, s.soc_temp_c, c);
    lemma_temp_row(r@, at.pmic, "PMIC"@, s.pmic_temp_c, c);
    lemma_temp_row(r@, at.nvme, "NVMe composite"@, s.nvme_temp_c, c);
    lemma_temp_row(r@, at.rp1, "RP1 die"@, s.rp1_temp_c, c);
    lemma_zone_rows(r@, at.zones, "zone: "@, s.extra_zones_c@, c);
}

/// The utilization, the cores and the memory follow.
pub proof fn law_details_of_processor_and_memory(s: &Snapshot, r: Vec<Row>)
    requires
        call_ensures(details_rows, (Some(s),), r),
    ensures
        s.utilization_pct matches Some(v) ==> row(
            r@,
            places(*s).cpu,
            "CPU utilization"@,
            Shown::Percent(v, 1, " %"@),
            Tint::Utilization(v),
        ),
        forall|k: int|
            0 <= k < s.cores@.len() ==> row(
                r@,
                places(*s).cores + k,
                "cpu"@ + decimal(k as nat),
                Shown::Percent((#[trigger] s.cores@[k]).utilization, 1, " %"@),
                Tint::Utilization(s.cores@[k].utilization),
            ),
        s.memory matches Some(m) ==> row(
            r@,
            places(*s).memory,
            "Memory"@,
            Shown::Memory(m.used_mib, m.total_mib, m.used_pct),
            Tint::Percent(m.used_pct),
        ) && row(
            r@,
            places(*s).memory + 1,
            "Buff/cache"@,
            Shown::Number(m.buff_cache_pct, 1, " %"@),
            Tint::Plain,
        ) && (m.swap_used_pct matches Some(swap) ==> row(
            r@,
            places(*s).memory + 2,
            "Swap"@,
            Shown::Number(swap, 1, " %"@),
            Tint::Plain,
        )),
{
    lemma_details_lie(s, r);
    let at = places(*s);
    lemma_share_row(r@, at.cpu, "CPU utilization"@, s.utilization_pct, 1, " %"@);
    lemma_core_rows(r@, at.cores, s.cores@);
    lemma_memory_rows(r@, at.memory, s.memory);
}

/// The traffic of disk and network and the three voltages follow.
pub proof fn law_details_of_traffic_and_voltages(s: &Snapshot, r: Vec<Row>)
    requires
        call_ensures(details_rows, (Some(s),), r),
    ensures
        s.disk_io matches Some(io) ==> row(
            r@,
            places(*s).disk,
            "NVMe read"@,
            Shown::Number(io.read_mib_s, 2, " MiB/s"@),
            Tint::Plain,
        ) && row(
            r@,
            places(*s).disk + 1,
            "NVMe write"@,
            Shown::Number(io.write_mib_s, 2, " MiB/s"@),
            Tint::Plain,
        ),
        s.net_io matches Some(io) ==> row(
            r@,
            places(*s).net,
            "Wi-Fi rx"@,
            Shown::Number(io.rx_kib_s, 1, " KiB/s"@),
            Tint::Plain,
        ) && row(
            r@,
            places(*s).net + 1,
            "Wi-Fi tx"@,
            Shown::Number(io.tx_kib_s, 1, " KiB/s"@),
            Tint::Plain,
        ),
        s.core_volts matches Some(v) ==> row(
            r@,
            places(*s).core,
            "Core voltage"@,
            Shown::Number(v, 4, " V"@),
            Tint::Plain,
        ),
        s.sdram_volatile_volts matches Some(v) ==> row(
            r@,
            places(*s).sdram_c,
            "SDRAM controller (sdram_c)"@,
            Shown::Number(v, 4, " V"@),
            Tint::Plain,
        ),
        s.sdram_phy_volts matches Some(v) ==> row(
            r@,
            places(*s).sdram_p,
            "SDRAM PHY (sdram_p)"@,
            Shown::Number(v, 4, " V"@),
            Tint::Plain,
        ),
{
    lemma_details_lie(s, r);
    let at = places(*s);
    lemma_traffic_rows(r@, at.disk, s.disk_io, at.net, s.net_io);
    lemma_number_row(r@, at.core, "Core voltage"@, s.core_volts, 4, " V"@);
    lemma_number_row(
        r@,
        at.sdram_c,
        "SDRAM controller (sdram_c)"@,
        s.sdram_volatile_volts,
        4,
        " V"@,
    );
    lemma_number_row(r@, at.sdram_p, "SDRAM PHY (sdram_p)"@, s.sdram_phy_volts, 4, " V"@);
}

/// The ADC inputs, the regulators and an alarm follow.
pub proof fn law_details_of_inputs_and_rails(s: &Snapshot, r: Vec<Row>)
    requires
        call_ensures(details_rows, (Some(s),), r),
    ensures
        forall|k: u8|
            s.rp1_adc_mv@.contains_key(k) ==> row(
                r@,
                places(*s).inputs + (#[trigger] inputs_below(s.rp1_adc_mv@, k as int)).len(),
                "RP1 ADC in"@ + decimal(k as nat),
                Shown::Number(s.rp1_adc_mv@[k], 0, " mV"@),
                Tint::Plain,
            ),
        forall|k: int|
            0 <= k < s.regulators_v@.len() ==> row(
                r@,
                places(*s).rails + k,
                "regulator: "@ + (#[trigger] s.regulators_v@[k]).0,
                Shown::Number(s.regulators_v@[k].1, 2, " V"@),
                Tint::Plain,
            ),
        s.undervolt_alarm ==> row(
            r@,
            places(*s).alarm,
            "Undervoltage alarm (hwmon)"@,
            Shown::Text("ACTIVE"@),
            Tint::Fixed(Tone::Red),
        ),
{
    lemma_details_lie(s, r);
    let at = places(*s);
    lemma_input_rows(r@, at.inputs, s.rp1_adc_mv@);
    lemma_table_rows(r@, at.rails, "regulator: "@, s.regulators_v@, 2, " V"@);
    lemma_alarm_row(r@, at.alarm, s.undervolt_alarm);
}

/// The clocks, the loads, the uptime and the Wi-Fi level follow, and nothing else.
pub proof fn law_details_of_clocks_and_loads(s: &Snapshot, r: Vec<Row>)
    requires
        call_ensures(details_rows, (Some(s),), r),
    ensures
        r@.len() == places(*s).end,
        forall|k: int|
            0 <= k < s.all_clocks_mhz@.len() ==> row(
                r@,
                places(*s).clocks + k,
                "clock: "@ + (#[trigger] s.all_clocks_mhz@[k]).0,
                Shown::Number(s.all_clocks_mhz@[k].1, 0, " MHz"@),
                Tint::Plain,
            ),
        s.load_1m matches Some(v) ==> row(
            r@,
            places(*s).load_1m,
            "Load (1 min)"@,
            Shown::Number(v, 2, ""@),
            Tint::Plain,
        ),
        s.load_5m matches Some(v) ==> row(
            r@,
            places(*s).load_5m,
            "Load (5 min)"@,
            Shown::Number(v, 2, ""@),
            Tint::Plain,
        ),
        s.load_15m matches Some(v) ==> row(
            r@,
            places(*s).load_15m,
            "Load (15 min)"@,
            Shown::Number(v, 2, ""@),
            Tint::Plain,
        ),
        s.uptime_secs matches Some(secs) ==> row(
            r@,
            places(*s).uptime,
            "Uptime"@,
            Shown::Text(uptime_text(secs)),
            Tint::Plain,
        ),
        s.rssi_dbm matches Some(v) ==> row(
            r@,
            places(*s).wifi,
            "Wi-Fi signal"@,
            Shown::Number(v, 0, " dBm"@),
            Tint::Plain,
        ),
{
    lemma_details_lie(s, r);
    let at = places(*s);
    lemma_table_rows(r@, at.clocks, "clock: "@, s.all_clocks_mhz@, 0, " MHz"@);
    lemma_number_row(r@, at.load_1m, "Load (1 min)"@, s.load_1m, 2, ""@);
    lemma_number_row(r@, at.load_5m, "Load (5 min)"@, s.load_5m, 2, ""@);
    lemma_number_row(r@, at.load_15m, "Load (15 min)"@, s.load_15m, 2, ""@);
    lemma_uptime_row(r@, at.uptime, s.uptime_secs);
    lemma_number_row(r@, at.wifi, "Wi-Fi signal"@, s.rssi_dbm, 0, " dBm"@);
}

/// Without a snapshot the details table has one row, which says so.
pub proof fn law_details_before_the_first_sweep(r: Vec<Row>)
    requires
        call_ensures(details_rows, (None,), r),
    ensures
        r@.len() == 1,
        row(r@, 0, "sensors"@, Shown::Text("waiting for first sweep\u{2026}"@), Tint::Plain),
{
    reveal(row);
    assert(lines_of(r@).len() == r@.len());
    assert(lines_of(r@)[0] == r@[0]@);
}

} // verus!
