//! What one sweep promises: which reading comes from which text, and which
//! figure of a snapshot from which reading.

use std::time::Instant;

use vstd::prelude::*;

use crate::formula::{numbers, terms, Formula, Term};
use crate::laws_of_text::law_strip_prefix;
use crate::probe::{
    ask_file, ask_glob, ask_tool, clock_answered, hwmon_answered, hwmon_dirs, input_file,
    join_path, may_glob, may_read, may_run, measure_temp, path_in, regulator_answered,
    regulator_dirs, zone_answered, zone_dirs, ClockTexts, FirmwareTexts, HwmonTexts, Probe,
    ProcTexts, RegulatorTexts, ZoneTexts,
};
use crate::sensors::{below_zero_in, parse_wireless_level};
use crate::single::Single;
use crate::snapshot::{
    clock_pairs, inputs_map, known, last_known, law_error_when_cold, settled, utilizations, Draft,
    Evaluated, Megahertz, MemoryInfo, Snapshot,
};
use crate::sweep::{
    clock_cells, clock_mhz, clock_texts, collect_snapshot, drafted, firmware_cells, hertz_text,
    hwmon_cells, hwmon_terms, input_terms, ms_between, named_terms, named_texts, nanoseconds,
    numbered_terms, parse_memory_info, proc_cells, rail, rail_terms, regulator_cells,
    span_between, sweep_answered, thermal_cells, zone_terms, Clock, FirmwareReads, HwmonReads,
    Pass, Pending, ProcReads, SweepTexts, Sweeper, CLOCK_DOMAINS,
};
use crate::table::pairs_of;
use crate::text::{
    after_last, decimal, strip_prefix, text_of, texts_of, trim, u64_of, views, words,
};
use crate::throttle::ThrottleState;

verus! {

/// `which` are the numbers below `n` that have a property, in their order.
pub open spec fn picks(which: Seq<int>, n: int, p: spec_fn(int) -> bool) -> bool {
    &&& forall|i: int, j: int| 0 <= i < j < which.len() ==> which[i] < which[j]
    &&& forall|i: int| 0 <= i < which.len() ==> 0 <= #[trigger] which[i] < n && p(which[i])
    &&& forall|k: int| 0 <= k < n && #[trigger] p(k) ==> which.contains(k)
}

/// A zone beyond the first, with a temperature.
pub open spec fn further(zones: Seq<ZoneTexts>) -> spec_fn(int) -> bool {
    |i: int| i >= 1 && zones[i].temp is Some
}

/// There is a value in this place.
pub open spec fn valued<T>(list: Seq<Option<T>>) -> spec_fn(int) -> bool {
    |i: int| list[i] is Some
}

/// The rail in this place is on.
pub open spec fn running(rails: Seq<RegulatorTexts>) -> spec_fn(int) -> bool {
    |i: int| is_on(rails[i])
}

/// The clock domain in this place answered.
pub open spec fn answering(clocks: Seq<ClockTexts>) -> spec_fn(int) -> bool {
    |i: int| clocks[i].answer is Some
}

pub proof fn lemma_pick(front: Seq<int>, n: int, p: spec_fn(int) -> bool) -> (which: Seq<int>)
    requires
        picks(front, n, p),
        n >= 0,
    ensures
        picks(which, n + 1, p),
        which == if p(n) {
            front.push(n)
        } else {
            front
        },
{
    let which = if p(n) {
        front.push(n)
    } else {
        front
    };
    assert forall|k: int| 0 <= k < n + 1 && #[trigger] p(k) implies which.contains(k) by {
        if k < n {
            assert(front.contains(k));
            let i = choose|i: int| 0 <= i < front.len() && front[i] == k;
            assert(which[i] == k);
        } else {
            assert(which[which.len() - 1] == k);
        }
    }
    which
}

pub proof fn lemma_pick_same(
    which: Seq<int>,
    n: int,
    p: spec_fn(int) -> bool,
    q: spec_fn(int) -> bool,
)
    requires
        picks(which, n, p),
        forall|k: int| 0 <= k < n ==> #[trigger] p(k) == q(k),
    ensures
        picks(which, n, q),
{
    assert forall|k: int| 0 <= k < n && #[trigger] q(k) implies which.contains(k) by {
        assert(p(k));
    }
}

// ------------------------------------------------------------- thermal zones

/// The first zone is the SoC.
pub proof fn law_first_zone_is_the_soc(
    zones: &Vec<ZoneTexts>,
    r: (Option<Formula>, Vec<(String, Formula)>),
)
    requires
        call_ensures(thermal_cells, (zones,), r),
    ensures
        r.0 is Some <==> zones@.len() > 0 && zones@[0].temp is Some,
        r.0 matches Some(f) ==> f@ == Term::Thousandth(trim((zones@[0].temp->0)@)),
{
}

/// The label of a further zone: its type, or its number where it has none.
pub open spec fn labels(label: Seq<char>, zone: ZoneTexts, ix: int) -> bool {
    match zone.label {
        Some(text) => label == trim(text@),
        None => label == "zone"@ + decimal(ix as nat),
    }
}

/// The further zones are those beyond the first that have a temperature, each
/// with its own, under their labels and in their order.
pub proof fn law_further_zones(
    zones: &Vec<ZoneTexts>,
    r: (Option<Formula>, Vec<(String, Formula)>),
)
    requires
        call_ensures(thermal_cells, (zones,), r),
    ensures
        exists|which: Seq<int>|
            {
                &&& #[trigger] picks(which, zones@.len() as int, further(zones@))
                &&& r.1@.len() == which.len()
                &&& forall|k: int|
                    0 <= k < which.len() ==> {
                        &&& labels((#[trigger] r.1@[k]).0@, zones@[which[k]], which[k])
                        &&& r.1@[k].1@ == Term::Thousandth(trim((zones@[which[k]].temp->0)@))
                    }
            },
{
    let which = lemma_zones(zones@);
    assert(named_terms(r.1@).len() == zone_terms(zones@).len());
    assert forall|k: int| 0 <= k < which.len() implies {
        &&& labels((#[trigger] r.1@[k]).0@, zones@[which[k]], which[k])
        &&& r.1@[k].1@ == Term::Thousandth(trim((zones@[which[k]].temp->0)@))
    } by {
        assert(named_terms(r.1@)[k] == zone_terms(zones@)[k]);
    }
}

proof fn lemma_zones(zones: Seq<ZoneTexts>) -> (which: Seq<int>)
    ensures
        picks(which, zones.len() as int, further(zones)),
        zone_terms(zones).len() == which.len(),
        forall|k: int|
            0 <= k < which.len() ==> {
                &&& labels((#[trigger] zone_terms(zones)[k]).0, zones[which[k]], which[k])
                &&& zone_terms(zones)[k].1 == Term::Thousandth(
                    trim((zones[which[k]].temp->0)@),
                )
            },
    decreases zones.len(),
{
    let p = further(zones);
    if zones.len() <= 1 {
        let none: Seq<int> = seq![];
        assert(picks(none, zones.len() as int, p));
        none
    } else {
        let rest = zones.drop_last();
        let n = zones.len() - 1;
        let front = lemma_zones(rest);
        let q = further(rest);
        lemma_pick_same(front, n, q, p);
        let which = lemma_pick(front, n, p);
        assert forall|k: int| 0 <= k < which.len() implies {
            &&& labels((#[trigger] zone_terms(zones)[k]).0, zones[which[k]], which[k])
            &&& zone_terms(zones)[k].1 == Term::Thousandth(trim((zones[which[k]].temp->0)@))
        } by {
            if k < front.len() {
                assert(which[k] == front[k]);
                assert(zone_terms(zones)[k] == zone_terms(rest)[k]);
                assert(zones[which[k]] == rest[which[k]]);
            }
        }
        which
    }
}

// -------------------------------------------------------------------- hwmons

/// The device has this name, but for white space around it.
pub open spec fn is_called(h: HwmonTexts, name: Seq<char>) -> bool {
    h.name matches Some(text) && trim(text@) == name
}

/// `i` is the last device of this name.
pub open spec fn last_called(hwmons: Seq<HwmonTexts>, i: int, name: Seq<char>) -> bool {
    &&& 0 <= i < hwmons.len()
    &&& is_called(hwmons[i], name)
    &&& forall|j: int| i < j < hwmons.len() ==> !is_called(#[trigger] hwmons[j], name)
}

/// No device has this name.
pub open spec fn none_called(hwmons: Seq<HwmonTexts>, name: Seq<char>) -> bool {
    forall|j: int| 0 <= j < hwmons.len() ==> !is_called(#[trigger] hwmons[j], name)
}

/// A temperature file's text as a reading.
pub open spec fn millidegrees(cell: Option<Formula>, text: Option<String>) -> bool {
    match text {
        Some(raw) => cell matches Some(f) && f@ == Term::Thousandth(trim(raw@)),
        None => cell is None,
    }
}

/// The NVMe temperature is that of the last NVMe device, the RP1 one that of the
/// last RP1 ADC, and the alarm that of the last undervoltage monitor.
pub proof fn law_devices_by_name(hwmons: &Vec<HwmonTexts>, r: HwmonReads, i: int)
    requires
        call_ensures(hwmon_cells, (hwmons,), r),
    ensures
        last_called(hwmons@, i, "nvme"@) ==> millidegrees(r.nvme, hwmons@[i].temp),
        none_called(hwmons@, "nvme"@) ==> r.nvme is None,
        last_called(hwmons@, i, "rp1_adc"@) ==> millidegrees(r.rp1, hwmons@[i].temp),
        none_called(hwmons@, "rp1_adc"@) ==> r.rp1 is None && r.adc@.len() == 0,
        last_called(hwmons@, i, "rpi_volt"@) ==> (r.alarm <==> (hwmons@[i].alarm matches Some(raw)
            && trim(raw@) == "1"@)),
        none_called(hwmons@, "rpi_volt"@) ==> !r.alarm,
{
    lemma_names_differ();
    lemma_devices(hwmons@, i);
    if none_called(hwmons@, "rp1_adc"@) {
        assert(numbered_terms(r.adc@).len() == 0);
    }
}

proof fn lemma_names_differ()
    ensures
        "nvme"@ != "rp1_adc"@,
        "nvme"@ != "rpi_volt"@,
        "rp1_adc"@ != "rpi_volt"@,
{
    reveal_strlit("nvme");
    reveal_strlit("rp1_adc");
    reveal_strlit("rpi_volt");
    assert("nvme"@[0] != "rp1_adc"@[0]);
    assert("rp1_adc"@[2] != "rpi_volt"@[2]);
    assert("nvme"@[0] != "rpi_volt"@[0]);
}

/// What a temperature text says.
pub open spec fn said(text: Option<String>) -> Option<Term> {
    match text {
        Some(raw) => Some(Term::Thousandth(trim(raw@))),
        None => None,
    }
}

proof fn lemma_devices(hwmons: Seq<HwmonTexts>, i: int)
    ensures
        last_called(hwmons, i, "nvme"@) ==> hwmon_terms(hwmons).nvme == said(hwmons[i].temp),
        none_called(hwmons, "nvme"@) ==> hwmon_terms(hwmons).nvme is None,
        last_called(hwmons, i, "rp1_adc"@) ==> hwmon_terms(hwmons).rp1 == said(hwmons[i].temp),
        none_called(hwmons, "rp1_adc"@) ==> hwmon_terms(hwmons).rp1 is None && hwmon_terms(
            hwmons,
        ).adc.len() == 0,
        last_called(hwmons, i, "rpi_volt"@) ==> (hwmon_terms(hwmons).alarm <==> (
        hwmons[i].alarm matches Some(raw) && trim(raw@) == "1"@)),
        none_called(hwmons, "rpi_volt"@) ==> !hwmon_terms(hwmons).alarm,
    decreases hwmons.len(),
{
    lemma_names_differ();
    if hwmons.len() > 0 {
        let rest = hwmons.drop_last();
        lemma_devices(rest, i);
        lemma_called_rest(hwmons, i, "nvme"@);
        lemma_called_rest(hwmons, i, "rp1_adc"@);
        lemma_called_rest(hwmons, i, "rpi_volt"@);
    }
}

proof fn lemma_called_rest(hwmons: Seq<HwmonTexts>, i: int, name: Seq<char>)
    requires
        hwmons.len() > 0,
    ensures
        last_called(hwmons, i, name) && !is_called(hwmons.last(), name) ==> last_called(
            hwmons.drop_last(),
            i,
            name,
        ) && hwmons.drop_last()[i] == hwmons[i],
        last_called(hwmons, i, name) && is_called(hwmons.last(), name) ==> i == hwmons.len() - 1,
        none_called(hwmons, name) ==> none_called(hwmons.drop_last(), name) && !is_called(
            hwmons.last(),
            name,
        ),
{
    let rest = hwmons.drop_last();
    assert(hwmons.last() == hwmons[hwmons.len() - 1]);
    if last_called(hwmons, i, name) && !is_called(hwmons.last(), name) {
        assert(rest[i] == hwmons[i]);
        assert forall|j: int| i < j < rest.len() implies !is_called(#[trigger] rest[j], name) by {
            assert(rest[j] == hwmons[j]);
        }
    }
    if none_called(hwmons, name) {
        assert forall|j: int| 0 <= j < rest.len() implies !is_called(#[trigger] rest[j], name) by {
            assert(rest[j] == hwmons[j]);
        }
    }
}

/// The ADC inputs of two lists of devices are those of the first and then those
/// of the second; a device that is no RP1 ADC has none.
pub proof fn law_inputs_of_devices(a: Seq<HwmonTexts>, h: HwmonTexts)
    ensures
        is_called(h, "rp1_adc"@) ==> hwmon_terms(a.push(h)).adc == hwmon_terms(a).adc
            + input_terms(h.inputs@),
        !is_called(h, "rp1_adc"@) ==> hwmon_terms(a.push(h)).adc == hwmon_terms(a).adc,
{
    lemma_names_differ();
    assert(a.push(h).drop_last() =~= a);
}

/// The inputs of a device are those that have a text, under their numbers from
/// one on and in their order.
pub proof fn law_inputs_of_a_device(inputs: Seq<Option<String>>)
    requires
        inputs.len() <= 255,
    ensures
        exists|which: Seq<int>|
            {
                &&& #[trigger] picks(which, inputs.len() as int, valued(inputs))
                &&& input_terms(inputs).len() == which.len()
                &&& forall|k: int|
                    0 <= k < which.len() ==> {
                        &&& (#[trigger] input_terms(inputs)[k]).0 == which[k] + 1
                        &&& input_terms(inputs)[k].1 == Term::Number(
                            trim((inputs[which[k]]->0)@),
                        )
                    }
            },
{
    let which = lemma_inputs(inputs);
}

proof fn lemma_inputs(inputs: Seq<Option<String>>) -> (which: Seq<int>)
    requires
        inputs.len() <= 255,
    ensures
        picks(which, inputs.len() as int, valued(inputs)),
        input_terms(inputs).len() == which.len(),
        forall|k: int|
            0 <= k < which.len() ==> {
                &&& (#[trigger] input_terms(inputs)[k]).0 == which[k] + 1
                &&& input_terms(inputs)[k].1 == Term::Number(trim((inputs[which[k]]->0)@))
            },
    decreases inputs.len(),
{
    let p = valued(inputs);
    if inputs.len() == 0 {
        let none: Seq<int> = seq![];
        assert(picks(none, 0, p));
        none
    } else {
        let rest = inputs.drop_last();
        let n = inputs.len() - 1;
        let front = lemma_inputs(rest);
        lemma_pick_same(front, n, valued(rest), p);
        let which = lemma_pick(front, n, p);
        assert forall|k: int| 0 <= k < which.len() implies {
            &&& (#[trigger] input_terms(inputs)[k]).0 == which[k] + 1
            &&& input_terms(inputs)[k].1 == Term::Number(trim((inputs[which[k]]->0)@))
        } by {
            if k < front.len() {
                assert(which[k] == front[k]);
                assert(input_terms(inputs)[k] == input_terms(rest)[k]);
                assert(inputs[which[k]] == rest[which[k]]);
            }
        }
        which
    }
}

// ------------------------------------------------------------------ firmware

/// A firmware cell is the number between the prefix and the unit of the answer.
pub open spec fn holds_number(
    cell: Option<Formula>,
    answer: Option<String>,
    prefix: Seq<char>,
    number: Seq<char>,
    unit: Seq<char>,
) -> bool {
    answer matches Some(text) && text@ == prefix + number + unit ==> (cell matches Some(f) && f@
        == Term::Number(number))
}

/// An answer without its prefix gives no reading.
pub open spec fn lacks_prefix(
    cell: Option<Formula>,
    answer: Option<String>,
    prefix: Seq<char>,
) -> bool {
    answer matches Some(text) && !prefix.is_prefix_of(trim(text@)) ==> cell is None
}

proof fn lemma_lacks(answer: Option<String>, prefix: Seq<char>)
    ensures
        answer matches Some(text) && !prefix.is_prefix_of(trim(text@)) ==> strip_prefix(
            trim((answer->0)@),
            prefix,
        ) is None,
{
    if let Some(text) = answer {
        law_strip_prefix(trim(text@), prefix, seq![]);
    }
}

/// Each firmware reading comes from its own answer.
pub proof fn law_firmware_readings(
    texts: &FirmwareTexts,
    r: FirmwareReads,
    number: Seq<char>,
    unit: Seq<char>,
)
    requires
        call_ensures(firmware_cells, (texts,), r),
        number.len() > 0,
        '0' <= number.last() <= '9' || number.last() == '.',
        forall|i: int| 0 <= i < number.len() ==> (#[trigger] number[i]) as int <= 0x7f,
        forall|i: int|
            0 <= i < unit.len() ==> !('0' <= #[trigger] unit[i] <= '9') && unit[i] != '.'
                && unit[i] as int <= 0x7f,
        unit.len() > 0 ==> !crate::text::is_white(unit.last()),
    ensures
        holds_number(r.soc, texts.soc, "temp="@, number, unit),
        holds_number(r.pmic, texts.pmic, "temp="@, number, unit),
        holds_number(r.core_volts, texts.core, "volt="@, number, unit),
        holds_number(r.sdram_volatile_volts, texts.sdram_c, "volt="@, number, unit),
        holds_number(r.sdram_phy_volts, texts.sdram_p, "volt="@, number, unit),
        lacks_prefix(r.soc, texts.soc, "temp="@),
        lacks_prefix(r.pmic, texts.pmic, "temp="@),
        lacks_prefix(r.core_volts, texts.core, "volt="@),
        lacks_prefix(r.sdram_volatile_volts, texts.sdram_c, "volt="@),
        lacks_prefix(r.sdram_phy_volts, texts.sdram_p, "volt="@),
        texts.soc is None ==> r.soc is None,
        texts.pmic is None ==> r.pmic is None,
        texts.core is None ==> r.core_volts is None,
        texts.sdram_c is None ==> r.sdram_volatile_volts is None,
        texts.sdram_p is None ==> r.sdram_phy_volts is None,
{
    reveal_strlit("volt=");
    let last = if unit.len() > 0 {
        unit.last()
    } else {
        number.last()
    };
    assert(("temp="@ + number + unit).last() == last);
    assert(("volt="@ + number + unit).last() == last);
    crate::laws_of_text::law_temperature_number(number, number, unit);
    crate::laws_of_text::law_answer_number("volt="@, number, unit);
    lemma_lacks(texts.soc, "temp="@);
    lemma_lacks(texts.pmic, "temp="@);
    lemma_lacks(texts.core, "volt="@);
    lemma_lacks(texts.sdram_c, "volt="@);
    lemma_lacks(texts.sdram_p, "volt="@);
}

/// The firmware's health is what its answer says; without an answer, or with one
/// that cannot be read, nothing has happened.
pub proof fn law_firmware_health(
    texts: &FirmwareTexts,
    r: FirmwareReads,
    answer: &str,
    state: Option<ThrottleState>,
)
    requires
        call_ensures(firmware_cells, (texts,), r),
        call_ensures(ThrottleState::from_hex, (answer,), state),
        texts.throttled matches Some(text) ==> text@ == answer@,
    ensures
        texts.throttled is Some && state is Some ==> r.throttle == state->0,
        texts.throttled is None || state is None ==> nothing_happened(r.throttle),
{
}

/// No condition holds, nor has one held.
pub open spec fn nothing_happened(t: ThrottleState) -> bool {
    &&& !t.undervolted_now && !t.freq_capped_now && !t.throttled_now && !t.soft_temp_limit_now
    &&& !t.undervolted_past && !t.freq_capped_past && !t.throttled_past && !t.soft_temp_limit_past
        && !t.other_past
}

/// A snapshot or a health word to begin with says nothing.
pub proof fn law_blank_beginnings(s: Snapshot, t: ThrottleState)
    requires
        call_ensures(<Snapshot as Default>::default, (), s),
        call_ensures(<ThrottleState as Default>::default, (), t),
    ensures
        nothing_happened(t) && nothing_happened(s.throttle) && !s.undervolt_alarm,
        s.elapsed_ms == 0 && s.uptime_secs is None && s.error is None,
        s.soc_temp_c is None && s.nvme_temp_c is None && s.rp1_temp_c is None && s.pmic_temp_c
            is None,
        s.core_volts is None && s.sdram_volatile_volts is None && s.sdram_phy_volts is None,
        s.arm_clock_mhz is None && s.v3d_clock_mhz is None && s.core_clock_mhz is None,
        s.load_1m is None && s.load_5m is None && s.load_15m is None && s.rssi_dbm is None,
        s.utilization_pct is None && s.memory is None && s.disk_io is None && s.net_io is None,
        s.cores@.len() == 0 && s.all_clocks_mhz@.len() == 0 && s.regulators_v@.len() == 0
            && s.extra_zones_c@.len() == 0,
        forall|n: u8| !#[trigger] s.rp1_adc_mv@.contains_key(n),
{
}

// --------------------------------------------------------- rails and clocks

/// The rail is enabled, has a name, and says a voltage above zero.
pub open spec fn is_on(texts: RegulatorTexts) -> bool {
    &&& texts.state matches Some(state) && trim(state@) == "enabled"@
    &&& texts.name matches Some(name) && trim(name@).len() > 0
    &&& texts.microvolts matches Some(raw) && (u64_of(trim(raw@)) matches Some(uv) && uv > 0)
}

/// The regulators are the rails that are on, each under its own name and with
/// its own voltage, in their order.
pub proof fn law_rails(rails: &Vec<RegulatorTexts>, r: Vec<(String, Formula)>)
    requires
        call_ensures(regulator_cells, (rails,), r),
    ensures
        exists|which: Seq<int>|
            {
                &&& #[trigger] picks(which, rails@.len() as int, running(rails@))
                &&& r@.len() == which.len()
                &&& forall|k: int|
                    0 <= k < which.len() ==> {
                        let texts = rails@[which[k]];
                        &&& (#[trigger] r@[k]).0@ == trim((texts.name->0)@)
                        &&& r@[k].1@ == Term::Millionth(u64_of(trim((texts.microvolts->0)@))->0)
                    }
            },
{
    let which = lemma_rails(rails@);
    assert(named_terms(r@).len() == rail_terms(rails@).len());
    assert forall|k: int| 0 <= k < which.len() implies {
        let texts = rails@[which[k]];
        &&& (#[trigger] r@[k]).0@ == trim((texts.name->0)@)
        &&& r@[k].1@ == Term::Millionth(u64_of(trim((texts.microvolts->0)@))->0)
    } by {
        assert(named_terms(r@)[k] == rail_terms(rails@)[k]);
    }
}

proof fn lemma_is_on(texts: RegulatorTexts)
    ensures
        rail(texts) is Some <==> is_on(texts),
        rail(texts) matches Some(found) ==> found.0 == trim((texts.name->0)@) && Some(found.1)
            == u64_of(trim((texts.microvolts->0)@)),
{
    if let Some(name) = texts.name {
        if trim(name@).len() == 0 {
            assert(trim(name@) =~= seq![]);
        }
    }
}

proof fn lemma_rails(rails: Seq<RegulatorTexts>) -> (which: Seq<int>)
    ensures
        picks(which, rails.len() as int, running(rails)),
        rail_terms(rails).len() == which.len(),
        forall|k: int|
            0 <= k < which.len() ==> {
                let texts = rails[which[k]];
                &&& (#[trigger] rail_terms(rails)[k]).0 == trim((texts.name->0)@)
                &&& rail_terms(rails)[k].1 == Term::Millionth(
                    u64_of(trim((texts.microvolts->0)@))->0,
                )
            },
    decreases rails.len(),
{
    let p = running(rails);
    if rails.len() == 0 {
        let none: Seq<int> = seq![];
        assert(picks(none, 0, p));
        none
    } else {
        let rest = rails.drop_last();
        let n = rails.len() - 1;
        let front = lemma_rails(rest);
        lemma_pick_same(front, n, running(rest), p);
        let which = lemma_pick(front, n, p);
        lemma_is_on(rails[n]);
        assert forall|k: int| 0 <= k < which.len() implies {
            let texts = rails[which[k]];
            &&& (#[trigger] rail_terms(rails)[k]).0 == trim((texts.name->0)@)
            &&& rail_terms(rails)[k].1 == Term::Millionth(u64_of(trim((texts.microvolts->0)@))->0)
        } by {
            if k < front.len() {
                assert(which[k] == front[k]);
                assert(rail_terms(rails)[k] == rail_terms(rest)[k]);
                assert(rails[which[k]] == rest[which[k]]);
            }
        }
        which
    }
}

/// The clocks are the domains that answered, in their order, each with what
/// stands after the last equals sign of its answer.
pub proof fn law_clocks(clocks: &Vec<ClockTexts>, r: Vec<(String, String)>)
    requires
        call_ensures(clock_cells, (clocks,), r),
    ensures
        exists|which: Seq<int>|
            {
                &&& #[trigger] picks(which, clocks@.len() as int, answering(clocks@))
                &&& r@.len() == which.len()
                &&& forall|k: int|
                    0 <= k < which.len() ==> {
                        let texts = clocks@[which[k]];
                        &&& (#[trigger] r@[k]).0@ == texts.domain@
                        &&& r@[k].1@ == trim(after_last((texts.answer->0)@, '='))
                    }
            },
{
    let which = lemma_clocks(clocks@);
    assert(named_texts(r@).len() == clock_texts(clocks@).len());
    assert forall|k: int| 0 <= k < which.len() implies {
        let texts = clocks@[which[k]];
        &&& (#[trigger] r@[k]).0@ == texts.domain@
        &&& r@[k].1@ == trim(after_last((texts.answer->0)@, '='))
    } by {
        assert(named_texts(r@)[k] == clock_texts(clocks@)[k]);
    }
}

proof fn lemma_clocks(clocks: Seq<ClockTexts>) -> (which: Seq<int>)
    ensures
        picks(which, clocks.len() as int, answering(clocks)),
        clock_texts(clocks).len() == which.len(),
        forall|k: int|
            0 <= k < which.len() ==> {
                let texts = clocks[which[k]];
                &&& (#[trigger] clock_texts(clocks)[k]).0 == texts.domain@
                &&& clock_texts(clocks)[k].1 == trim(after_last((texts.answer->0)@, '='))
            },
    decreases clocks.len(),
{
    let p = answering(clocks);
    if clocks.len() == 0 {
        let none: Seq<int> = seq![];
        assert(picks(none, 0, p));
        none
    } else {
        let rest = clocks.drop_last();
        let n = clocks.len() - 1;
        let front = lemma_clocks(rest);
        lemma_pick_same(front, n, answering(rest), p);
        let which = lemma_pick(front, n, p);
        assert forall|k: int| 0 <= k < which.len() implies {
            let texts = clocks[which[k]];
            &&& (#[trigger] clock_texts(clocks)[k]).0 == texts.domain@
            &&& clock_texts(clocks)[k].1 == trim(after_last((texts.answer->0)@, '='))
        } by {
            if k < front.len() {
                assert(which[k] == front[k]);
                assert(clock_texts(clocks)[k] == clock_texts(rest)[k]);
                assert(clocks[which[k]] == rest[which[k]]);
            }
        }
        which
    }
}

// ------------------------------------------------------------ kernel counters

/// The loads are the words of their text, the uptime is the first word of its
/// own; without a text there is nothing.
pub proof fn law_kernel_readings(texts: &ProcTexts, r: ProcReads)
    requires
        call_ensures(proc_cells, (texts,), r),
    ensures
        texts.loadavg matches Some(raw) ==> r.loads@.len() == words(raw@).len() && forall|k: int|
            0 <= k < r.loads@.len() ==> (#[trigger] r.loads@[k])@ == Term::Number(words(raw@)[k]),
        texts.loadavg is None ==> r.loads@.len() == 0,
        texts.uptime matches Some(raw) ==> (words(raw@).len() > 0 ==> r.uptime is Some && (
        r.uptime->0)@ == words(raw@)[0]),
        texts.uptime matches Some(raw) ==> (words(raw@).len() == 0 ==> r.uptime is None),
        texts.uptime is None ==> r.uptime is None,
        texts.wireless is None ==> r.rssi@.len() == 0,
        texts.meminfo is None ==> r.memory is None,
{
    if let Some(raw) = texts.loadavg {
        assert(terms(r.loads@).len() == numbers(words(raw@)).len());
        assert forall|k: int| 0 <= k < r.loads@.len() implies (#[trigger] r.loads@[k])@
            == Term::Number(words(raw@)[k]) by {
            assert(terms(r.loads@)[k] == numbers(words(raw@))[k]);
        }
    } else {
        assert(terms(r.loads@).len() == 0);
    }
    if texts.wireless is None {
        assert(terms(r.rssi@).len() == 0);
    }
}

/// The candidates for the Wi-Fi level and the memory are what is read out of
/// their own texts.
pub proof fn law_kernel_blocks(
    texts: &ProcTexts,
    r: ProcReads,
    wireless: &str,
    level: Vec<Formula>,
    meminfo: &str,
    memory: Option<MemoryInfo<Formula>>,
)
    requires
        call_ensures(proc_cells, (texts,), r),
        texts.wireless is Some && (texts.wireless->0)@ == wireless@,
        texts.meminfo is Some && (texts.meminfo->0)@ == meminfo@,
        call_ensures(parse_wireless_level, (wireless,), level),
        call_ensures(parse_memory_info, (meminfo,), memory),
    ensures
        same_terms(r.rssi@, level@),
        r.memory is Some <==> memory is Some,
        r.memory matches Some(m) ==> (memory matches Some(n) && m.used_pct@ == n.used_pct@
            && m.buff_cache_pct@ == n.buff_cache_pct@ && m.total_mib@ == n.total_mib@
            && m.used_mib@ == n.used_mib@ && same_term(m.swap_used_pct, n.swap_used_pct)),
{
    lemma_same_terms(r.rssi@, level@);
}

// ------------------------------------------------------------------ settling

/// Each figure of a snapshot comes from its own cell of the evaluated draft. The
/// kernel's SoC temperature wins over the firmware's, and what the firmware says
/// has to be finite.
pub proof fn law_figures_from_their_cells(d: &Evaluated, answers: bool, s: Snapshot)
    requires
        call_ensures(
            Draft::<Option<Single>, Option<Megahertz>, Option<i64>>::settle_with,
            (d, answers),
            s,
        ),
    ensures
        s.elapsed_ms == d.elapsed_ms,
        s.throttle == d.throttle,
        s.undervolt_alarm == d.undervolt_alarm,
        forall|v: Single| d.soc == Some(Some(v)) ==> s.soc_temp_c == Some(v),
        !(d.soc matches Some(Some(_))) ==> forall|v: Single|
            s.soc_temp_c == Some(v) <==> d.soc_firmware == Some(Some(v)) && #[trigger] v.finite(),
        forall|v: Single| s.nvme_temp_c == Some(v) <==> d.nvme == Some(Some(v)),
        forall|v: Single| s.rp1_temp_c == Some(v) <==> d.rp1 == Some(Some(v)),
        forall|v: Single|
            s.pmic_temp_c == Some(v) <==> d.pmic == Some(Some(v)) && #[trigger] v.finite(),
        forall|v: Single|
            s.core_volts == Some(v) <==> d.core_volts == Some(Some(v)) && #[trigger] v.finite(),
        forall|v: Single|
            s.sdram_volatile_volts == Some(v) <==> d.sdram_volatile_volts == Some(Some(v))
                && #[trigger] v.finite(),
        forall|v: Single|
            s.sdram_phy_volts == Some(v) <==> d.sdram_phy_volts == Some(Some(v))
                && #[trigger] v.finite(),
        forall|v: Single| s.utilization_pct == Some(v) <==> d.utilization == Some(Some(v)),
        s.uptime_secs is Some <==> (d.uptime matches Some(Some(secs)) && secs >= 0),
        s.uptime_secs matches Some(secs) ==> (d.uptime matches Some(Some(floor)) && floor as int
            == secs as int),
        s.error is Some <==> s.soc_temp_c is None && s.pmic_temp_c is None
            && s.extra_zones_c@.len() == 0,
{
}

/// A block of figures has each of them in its own place, and is there only where
/// all of them have a value.
pub proof fn law_blocks_from_their_cells(d: &Evaluated, answers: bool, s: Snapshot)
    requires
        call_ensures(
            Draft::<Option<Single>, Option<Megahertz>, Option<i64>>::settle_with,
            (d, answers),
            s,
        ),
    ensures
        s.memory is Some <==> (d.memory matches Some(m) && m.used_pct is Some && m.buff_cache_pct
            is Some && m.total_mib is Some && m.used_mib is Some),
        s.memory matches Some(n) ==> (d.memory matches Some(m) && m.used_pct == Some(n.used_pct)
            && m.buff_cache_pct == Some(n.buff_cache_pct) && m.total_mib == Some(n.total_mib)
            && m.used_mib == Some(n.used_mib) && (n.swap_used_pct is Some <==> (
        m.swap_used_pct matches Some(Some(_)))) && (n.swap_used_pct is Some ==> m.swap_used_pct
            == Some(n.swap_used_pct))),
        s.disk_io is Some <==> (d.disk_io matches Some(io) && io.read_mib_s is Some
            && io.write_mib_s is Some),
        s.disk_io matches Some(n) ==> (d.disk_io matches Some(io) && io.read_mib_s == Some(
            n.read_mib_s,
        ) && io.write_mib_s == Some(n.write_mib_s)),
        s.net_io is Some <==> (d.net_io matches Some(io) && io.rx_kib_s is Some && io.tx_kib_s
            is Some),
        s.net_io matches Some(n) ==> (d.net_io matches Some(io) && io.rx_kib_s == Some(n.rx_kib_s)
            && io.tx_kib_s == Some(n.tx_kib_s)),
{
}

/// The three loads are the first three words that are numbers.
pub proof fn law_loads_are_the_first_three(d: &Evaluated, answers: bool, s: Snapshot)
    requires
        call_ensures(
            Draft::<Option<Single>, Option<Megahertz>, Option<i64>>::settle_with,
            (d, answers),
            s,
        ),
    ensures
        exists|which: Seq<int>|
            {
                &&& #[trigger] picks(which, d.loads@.len() as int, valued(d.loads@))
                &&& s.load_1m == if which.len() > 0 {
                    d.loads@[which[0]]
                } else {
                    None
                }
                &&& s.load_5m == if which.len() > 1 {
                    d.loads@[which[1]]
                } else {
                    None
                }
                &&& s.load_15m == if which.len() > 2 {
                    d.loads@[which[2]]
                } else {
                    None
                }
            },
{
    let which = lemma_known(d.loads@);
}

/// The cores of a snapshot are the shares that have a value, in their order.
pub proof fn law_cores_from_their_cells(d: &Evaluated, answers: bool, s: Snapshot)
    requires
        call_ensures(
            Draft::<Option<Single>, Option<Megahertz>, Option<i64>>::settle_with,
            (d, answers),
            s,
        ),
    ensures
        exists|which: Seq<int>|
            {
                &&& #[trigger] picks(which, d.cores@.len() as int, valued(d.cores@))
                &&& s.cores@.len() == which.len()
                &&& forall|k: int|
                    0 <= k < which.len() ==> Some((#[trigger] s.cores@[k]).utilization)
                        == d.cores@[which[k]]
            },
{
    let which = lemma_known(d.cores@);
    assert(utilizations(s.cores@).len() == s.cores@.len());
    assert forall|k: int| 0 <= k < which.len() implies Some((#[trigger] s.cores@[k]).utilization)
        == d.cores@[which[k]] by {
        assert(utilizations(s.cores@)[k] == s.cores@[k].utilization);
    }
}

pub proof fn lemma_known(values: Seq<Option<Single>>) -> (which: Seq<int>)
    ensures
        picks(which, values.len() as int, valued(values)),
        known(values).len() == which.len(),
        forall|k: int|
            0 <= k < which.len() ==> Some(#[trigger] known(values)[k]) == values[which[k]],
    decreases values.len(),
{
    let p = valued(values);
    if values.len() == 0 {
        let none: Seq<int> = seq![];
        assert(picks(none, 0, p));
        none
    } else {
        let rest = values.drop_last();
        let n = values.len() - 1;
        let front = lemma_known(rest);
        lemma_pick_same(front, n, valued(rest), p);
        let which = lemma_pick(front, n, p);
        assert forall|k: int| 0 <= k < which.len() implies Some(#[trigger] known(values)[k])
            == values[which[k]] by {
            if k < front.len() {
                assert(which[k] == front[k]);
                assert(known(values)[k] == known(rest)[k]);
                assert(values[which[k]] == rest[which[k]]);
            }
        }
        which
    }
}

/// `i` is the last cell under a name that has a value.
pub open spec fn last_valued(list: Seq<(String, Option<Single>)>, i: int, name: Seq<char>) -> bool {
    &&& 0 <= i < list.len()
    &&& list[i].0@ == name
    &&& list[i].1 is Some
    &&& forall|j: int|
        i < j < list.len() ==> !((#[trigger] list[j]).0@ == name && list[j].1 is Some)
}

/// A table of a snapshot has under each name the last value that its cells give
/// to it, and no other names.
pub proof fn law_tables_from_their_cells(
    d: &Evaluated,
    answers: bool,
    s: Snapshot,
    name: Seq<char>,
    i: int,
)
    requires
        call_ensures(
            Draft::<Option<Single>, Option<Megahertz>, Option<i64>>::settle_with,
            (d, answers),
            s,
        ),
    ensures
        last_valued(d.regulators@, i, name) ==> s.regulators_v.lookup(name)
            == d.regulators@[i].1,
        last_valued(d.zones@, i, name) ==> s.extra_zones_c.lookup(name) == d.zones@[i].1,
        (forall|j: int|
            0 <= j < d.regulators@.len() ==> !((#[trigger] d.regulators@[j]).0@ == name
                && d.regulators@[j].1 is Some)) ==> s.regulators_v.lookup(name) is None,
        (forall|j: int|
            0 <= j < d.zones@.len() ==> !((#[trigger] d.zones@[j]).0@ == name && d.zones@[j].1
                is Some)) ==> s.extra_zones_c.lookup(name) is None,
        s.arm_clock_mhz == s.all_clocks_mhz.lookup("arm"@),
        s.v3d_clock_mhz == s.all_clocks_mhz.lookup("v3d"@),
        s.core_clock_mhz == s.all_clocks_mhz.lookup("core"@),
{
    lemma_last_valued(d.regulators@, i, name);
    lemma_last_valued(d.zones@, i, name);
    assert(s.regulators_v.lookup(name) == last_known(pairs_of(d.regulators@), name));
    assert(s.extra_zones_c.lookup(name) == last_known(pairs_of(d.zones@), name));
}

proof fn lemma_last_valued(list: Seq<(String, Option<Single>)>, i: int, name: Seq<char>)
    ensures
        last_valued(list, i, name) ==> last_known(pairs_of(list), name) == list[i].1,
        (forall|j: int|
            0 <= j < list.len() ==> !((#[trigger] list[j]).0@ == name && list[j].1 is Some))
            ==> last_known(pairs_of(list), name) is None,
    decreases list.len(),
{
    let pairs = pairs_of(list);
    if list.len() > 0 {
        let rest = list.drop_last();
        lemma_last_valued(rest, i, name);
        assert(pairs.drop_last() =~= pairs_of(rest));
        assert(pairs.last() == (list.last().0@, list.last().1));
        assert(list.last() == list[list.len() - 1]);
        if last_valued(list, i, name) && i < rest.len() {
            assert(rest[i] == list[i]);
            assert forall|j: int| i < j < rest.len() implies !((#[trigger] rest[j]).0@ == name
                && rest[j].1 is Some) by {
                assert(rest[j] == list[j]);
            }
        }
        if forall|j: int|
            0 <= j < list.len() ==> !((#[trigger] list[j]).0@ == name && list[j].1 is Some) {
            assert forall|j: int| 0 <= j < rest.len() implies !((#[trigger] rest[j]).0@ == name
                && rest[j].1 is Some) by {
                assert(rest[j] == list[j]);
            }
        }
    }
}

/// The clock in a place is one of a domain, and a finite frequency from zero on.
pub open spec fn sound_clock(
    clocks: Seq<(String, Option<Megahertz>)>,
    i: int,
    name: Seq<char>,
) -> bool {
    clocks[i].0@ == name && (clocks[i].1 matches Some(mhz) && mhz.wide.finite()
        && mhz.wide.ge_zero())
}

/// Under each domain stands the last clock of it that makes sense, and nothing
/// where none does.
pub proof fn law_clocks_from_their_cells(
    d: &Evaluated,
    answers: bool,
    s: Snapshot,
    name: Seq<char>,
    i: int,
)
    requires
        call_ensures(
            Draft::<Option<Single>, Option<Megahertz>, Option<i64>>::settle_with,
            (d, answers),
            s,
        ),
    ensures
        0 <= i < d.clocks@.len() && sound_clock(d.clocks@, i, name) && (forall|j: int|
            i < j < d.clocks@.len() ==> !#[trigger] sound_clock(d.clocks@, j, name))
            ==> s.all_clocks_mhz.lookup(name) == Some((d.clocks@[i].1->0).narrow),
        (forall|j: int| 0 <= j < d.clocks@.len() ==> !#[trigger] sound_clock(d.clocks@, j, name))
            ==> s.all_clocks_mhz.lookup(name) is None,
{
    lemma_last_clock(d.clocks@, name, i);
    assert(s.all_clocks_mhz.lookup(name) == last_known(clock_pairs(d.clocks@), name));
}

proof fn lemma_last_clock(clocks: Seq<(String, Option<Megahertz>)>, name: Seq<char>, i: int)
    ensures
        0 <= i < clocks.len() && sound_clock(clocks, i, name) && (forall|j: int|
            i < j < clocks.len() ==> !#[trigger] sound_clock(clocks, j, name)) ==> last_known(
            clock_pairs(clocks),
            name,
        ) == Some((clocks[i].1->0).narrow),
        (forall|j: int| 0 <= j < clocks.len() ==> !#[trigger] sound_clock(clocks, j, name))
            ==> last_known(clock_pairs(clocks), name) is None,
    decreases clocks.len(),
{
    let pairs = clock_pairs(clocks);
    if clocks.len() > 0 {
        let rest = clocks.drop_last();
        let n = clocks.len() - 1;
        lemma_last_clock(rest, name, i);
        assert(pairs.drop_last() =~= clock_pairs(rest));
        assert(pairs.last() == pairs[n]);
        assert(sound_clock(clocks, n, name) <==> pairs.last().0 == name && pairs.last().1 is Some);
        assert forall|j: int| 0 <= j < n implies #[trigger] sound_clock(rest, j, name)
            == sound_clock(clocks, j, name) by {
            assert(rest[j] == clocks[j]);
        }
    }
}

/// The cell in a place is one of an input, and has a value.
pub open spec fn sound_input(adc: Seq<(u8, Option<Single>)>, i: int, n: u8) -> bool {
    adc[i].0 == n && adc[i].1 is Some
}

/// Under each input stands its last value, and nothing where it has none.
pub proof fn law_inputs_from_their_cells(
    d: &Evaluated,
    answers: bool,
    s: Snapshot,
    n: u8,
    i: int,
)
    requires
        call_ensures(
            Draft::<Option<Single>, Option<Megahertz>, Option<i64>>::settle_with,
            (d, answers),
            s,
        ),
    ensures
        0 <= i < d.adc@.len() && sound_input(d.adc@, i, n) && (forall|j: int|
            i < j < d.adc@.len() ==> !#[trigger] sound_input(d.adc@, j, n))
            ==> s.rp1_adc_mv@.contains_key(n) && Some(s.rp1_adc_mv@[n]) == d.adc@[i].1,
        (forall|j: int| 0 <= j < d.adc@.len() ==> !#[trigger] sound_input(d.adc@, j, n))
            ==> !s.rp1_adc_mv@.contains_key(n),
{
    lemma_inputs_map(d.adc@, n, i);
}

proof fn lemma_inputs_map(adc: Seq<(u8, Option<Single>)>, n: u8, i: int)
    ensures
        0 <= i < adc.len() && sound_input(adc, i, n) && (forall|j: int|
            i < j < adc.len() ==> !#[trigger] sound_input(adc, j, n)) ==> inputs_map(
            adc,
        ).contains_key(n) && Some(inputs_map(adc)[n]) == adc[i].1,
        (forall|j: int| 0 <= j < adc.len() ==> !#[trigger] sound_input(adc, j, n))
            ==> !inputs_map(adc).contains_key(n),
    decreases adc.len(),
{
    if adc.len() > 0 {
        let rest = adc.drop_last();
        let last = adc.len() - 1;
        lemma_inputs_map(rest, n, i);
        assert(adc.last() == adc[last]);
        assert(sound_input(adc, last, n) <==> adc.last().0 == n && adc.last().1 is Some);
        assert forall|j: int| 0 <= j < last implies #[trigger] sound_input(rest, j, n)
            == sound_input(adc, j, n) by {
            assert(rest[j] == adc[j]);
        }
    }
}

/// The value in a place is below zero.
pub open spec fn dips(values: Seq<Option<Single>>, j: int) -> bool {
    values[j] matches Some(v) && v.below_zero()
}

/// The Wi-Fi level of a snapshot is the first candidate below zero.
pub proof fn law_level_from_its_cells(d: &Evaluated, answers: bool, s: Snapshot, i: int)
    requires
        call_ensures(
            Draft::<Option<Single>, Option<Megahertz>, Option<i64>>::settle_with,
            (d, answers),
            s,
        ),
    ensures
        0 <= i < d.rssi@.len() && dips(d.rssi@, i) && (forall|j: int|
            0 <= j < i ==> !#[trigger] dips(d.rssi@, j)) ==> s.rssi_dbm == d.rssi@[i],
        (forall|j: int| 0 <= j < d.rssi@.len() ==> !#[trigger] dips(d.rssi@, j))
            ==> s.rssi_dbm is None,
{
    lemma_level(d.rssi@, i);
}

proof fn lemma_level(values: Seq<Option<Single>>, i: int)
    ensures
        0 <= i < values.len() && dips(values, i) && (forall|j: int|
            0 <= j < i ==> !#[trigger] dips(values, j)) ==> below_zero_in(values) == values[i],
        (forall|j: int| 0 <= j < values.len() ==> !#[trigger] dips(values, j))
            ==> below_zero_in(values) is None,
    decreases values.len(),
{
    if values.len() > 0 {
        let rest = values.drop_first();
        lemma_level(rest, i - 1);
        if forall|j: int| 0 <= j < values.len() ==> !#[trigger] dips(values, j) {
            assert(!dips(values, 0));
            assert forall|j: int| 0 <= j < rest.len() implies !#[trigger] dips(rest, j) by {
                assert(!dips(values, j + 1));
            }
        }
        if 0 < i < values.len() && dips(values, i) && (forall|j: int|
            0 <= j < i ==> !#[trigger] dips(values, j)) {
            assert(!dips(values, 0));
            assert(dips(rest, i - 1));
            assert forall|j: int| 0 <= j < i - 1 implies !#[trigger] dips(rest, j) by {
                assert(!dips(values, j + 1));
            }
        }
    }
}

/// A sweep without any board temperature says so, and how depends on whether the
/// firmware tool answers once more. Of a sweep with one the tool is not asked.
pub proof fn law_settling_asks_the_tool<P: Probe>(d: &Evaluated, probe: &P, s: Snapshot)
    requires
        call_ensures(
            Draft::<Option<Single>, Option<Megahertz>, Option<i64>>::settle::<P>,
            (d, probe),
            s,
        ),
    ensures
        exists|answers: bool| #[trigger] settled(*d, answers, s),
        s.soc_temp_c is Some || s.pmic_temp_c is Some || s.extra_zones_c@.len() > 0
            ==> s.error is None,
        s.soc_temp_c is None && s.pmic_temp_c is None && s.extra_zones_c@.len() == 0
            ==> s.error is Some && exists|answer: Option<Seq<char>>|
            {
                &&& #[trigger] may_run(probe, seq!["measure_temp"@], answer)
                &&& (s.error->0)@ == if answer is Some {
                    "no thermal zones or firmware sensors found"@
                } else {
                    "vcgencmd not found at "@ + "/usr/bin/vcgencmd"@
                }
            },
{
    if d.cold() {
        let answer = choose|answer: Option<Seq<char>>|
            #[trigger] may_run(probe, measure_temp(), answer) && settled(*d, answer is Some, s);
        assert(settled(*d, answer is Some, s));
        law_error_when_cold(*d, answer is Some, s);
        assert(may_run(probe, seq!["measure_temp"@], answer));
    } else {
        assert(settled(*d, true, s));
        law_error_when_cold(*d, true, s);
    }
}

// ---------------------------------------------------------------- evaluation

/// `b` is there exactly when `a` is, and then came out of it.
pub open spec fn came_out<A, B, F: Fn(&A) -> B>(f: F, a: Option<A>, b: Option<B>) -> bool {
    (a is Some <==> b is Some) && (a is Some ==> call_ensures(f, (&a->0,), b->0))
}

/// Evaluating a draft evaluates each cell in its own place and leaves the rest as
/// it is.
pub proof fn law_evaluation<
    N,
    H,
    S,
    M,
    I,
    T,
    F: Fn(&N) -> M,
    G: Fn(&H) -> I,
    K: Fn(&S) -> T,
>(d: &Draft<N, H, S>, number: F, frequency: G, seconds: K, r: Draft<M, I, T>)
    requires
        call_ensures(
            Draft::<N, H, S>::evaluate::<M, I, T, F, G, K>,
            (d, number, frequency, seconds),
            r,
        ),
    ensures
        r.elapsed_ms == d.elapsed_ms && r.throttle == d.throttle && r.undervolt_alarm
            == d.undervolt_alarm,
        came_out(number, d.soc, r.soc) && came_out(number, d.nvme, r.nvme),
        came_out(number, d.rp1, r.rp1) && came_out(number, d.soc_firmware, r.soc_firmware),
        came_out(number, d.pmic, r.pmic) && came_out(number, d.core_volts, r.core_volts),
        came_out(number, d.sdram_volatile_volts, r.sdram_volatile_volts),
        came_out(number, d.sdram_phy_volts, r.sdram_phy_volts),
        came_out(number, d.utilization, r.utilization) && came_out(seconds, d.uptime, r.uptime),
        r.loads@.len() == d.loads@.len() && r.rssi@.len() == d.rssi@.len() && r.cores@.len()
            == d.cores@.len(),
        forall|i: int|
            0 <= i < r.loads@.len() ==> call_ensures(
                number,
                (&d.loads@[i],),
                #[trigger] r.loads@[i],
            ),
        forall|i: int|
            0 <= i < r.rssi@.len() ==> call_ensures(number, (&d.rssi@[i],), #[trigger] r.rssi@[i]),
        forall|i: int|
            0 <= i < r.cores@.len() ==> call_ensures(
                number,
                (&d.cores@[i],),
                #[trigger] r.cores@[i],
            ),
        r.zones@.len() == d.zones@.len() && r.regulators@.len() == d.regulators@.len()
            && r.clocks@.len() == d.clocks@.len() && r.adc@.len() == d.adc@.len(),
        forall|i: int|
            0 <= i < r.zones@.len() ==> (#[trigger] r.zones@[i]).0@ == d.zones@[i].0@
                && call_ensures(number, (&d.zones@[i].1,), r.zones@[i].1),
        forall|i: int|
            0 <= i < r.regulators@.len() ==> (#[trigger] r.regulators@[i]).0@
                == d.regulators@[i].0@ && call_ensures(
                number,
                (&d.regulators@[i].1,),
                r.regulators@[i].1,
            ),
        forall|i: int|
            0 <= i < r.clocks@.len() ==> (#[trigger] r.clocks@[i]).0@ == d.clocks@[i].0@
                && call_ensures(frequency, (&d.clocks@[i].1,), r.clocks@[i].1),
        forall|i: int|
            0 <= i < r.adc@.len() ==> (#[trigger] r.adc@[i]).0 == d.adc@[i].0 && call_ensures(
                number,
                (&d.adc@[i].1,),
                r.adc@[i].1,
            ),
        (d.memory is Some <==> r.memory is Some) && (d.disk_io is Some <==> r.disk_io is Some)
            && (d.net_io is Some <==> r.net_io is Some),
        d.memory matches Some(m) ==> (r.memory matches Some(n) && call_ensures(
            number,
            (&m.used_pct,),
            n.used_pct,
        ) && call_ensures(number, (&m.buff_cache_pct,), n.buff_cache_pct) && call_ensures(
            number,
            (&m.total_mib,),
            n.total_mib,
        ) && call_ensures(number, (&m.used_mib,), n.used_mib) && came_out(
            number,
            m.swap_used_pct,
            n.swap_used_pct,
        )),
        d.disk_io matches Some(m) ==> (r.disk_io matches Some(n) && call_ensures(
            number,
            (&m.read_mib_s,),
            n.read_mib_s,
        ) && call_ensures(number, (&m.write_mib_s,), n.write_mib_s)),
        d.net_io matches Some(m) ==> (r.net_io matches Some(n) && call_ensures(
            number,
            (&m.rx_kib_s,),
            n.rx_kib_s,
        ) && call_ensures(number, (&m.tx_kib_s,), n.tx_kib_s)),
{
}

/// A formula means what its fields say, each in its place.
pub proof fn law_formulas_mean_their_fields(
    text: String,
    shares: Vec<(u64, u64)>,
    a: u64,
    b: u64,
    nanos: u128,
)
    ensures
        (Formula::Number { text })@ == Term::Number(text@),
        (Formula::Thousandth { text })@ == Term::Thousandth(text@),
        (Formula::Millionth { count: a })@ == Term::Millionth(a),
        (Formula::Share { part: a, whole: b })@ == Term::Share(a, b),
        (Formula::MeanShare { shares })@ == Term::MeanShare(shares@),
        (Formula::Percent { part: a, whole: b })@ == Term::Percent(a, b),
        (Formula::Mebibytes { kibibytes: a })@ == Term::Mebibytes(a),
        (Formula::SectorRate { sectors: a, nanos })@ == Term::SectorRate(a, nanos),
        (Formula::ByteRate { bytes: a, nanos })@ == Term::ByteRate(a, nanos),
{
}

// ------------------------------------------------------------------ one pass

/// The cells of a sweep are those that its texts give, each in its place.
pub proof fn law_sweep_gathers_the_cells<P: Probe>(
    probe: &P,
    before: Sweeper,
    after: Sweeper,
    pass: Pass,
    d: Pending,
    zones: &Vec<ZoneTexts>,
    hwmons: &Vec<HwmonTexts>,
    rails: &Vec<RegulatorTexts>,
    clocks: &Vec<ClockTexts>,
    z: (Option<Formula>, Vec<(String, Formula)>),
    h: HwmonReads,
    f: FirmwareReads,
    p: ProcReads,
    v: Vec<(String, Formula)>,
    c: Vec<(String, String)>,
)
    requires
        Sweeper::sweeps(before, after, probe, pass, d),
        zones@ == pass.texts.zones && hwmons@ == pass.texts.hwmons && rails@ == pass.texts.rails
            && clocks@ == pass.texts.clocks,
        call_ensures(thermal_cells, (zones,), z),
        call_ensures(hwmon_cells, (hwmons,), h),
        call_ensures(firmware_cells, (&pass.texts.firmware,), f),
        call_ensures(proc_cells, (&pass.texts.proc,), p),
        call_ensures(regulator_cells, (rails,), v),
        call_ensures(clock_cells, (clocks,), c),
    ensures
        same_term(d.soc, z.0) && same_names(d.zones@, z.1@),
        same_term(d.nvme, h.nvme) && same_term(d.rp1, h.rp1) && d.undervolt_alarm == h.alarm,
        d.adc@.len() == h.adc@.len(),
        forall|i: int|
            0 <= i < h.adc@.len() ==> (#[trigger] d.adc@[i]).0 == h.adc@[i].0 && d.adc@[i].1@
                == h.adc@[i].1@,
        same_term(d.soc_firmware, f.soc) && same_term(d.pmic, f.pmic) && d.throttle == f.throttle,
        same_term(d.core_volts, f.core_volts) && same_term(
            d.sdram_volatile_volts,
            f.sdram_volatile_volts,
        ) && same_term(d.sdram_phy_volts, f.sdram_phy_volts),
        same_terms(d.loads@, p.loads@) && same_terms(d.rssi@, p.rssi@),
        (d.uptime is Some <==> p.uptime is Some) && (d.uptime is Some ==> (d.uptime->0)@ == (
        p.uptime->0)@),
        same_names(d.regulators@, v@),
        d.clocks@.len() == c@.len(),
        forall|i: int|
            0 <= i < c@.len() ==> (#[trigger] d.clocks@[i]).0@ == c@[i].0@ && d.clocks@[i].1@
                == c@[i].1@,
        (d.memory is Some <==> p.memory is Some) && (d.memory matches Some(m) ==> (
        p.memory matches Some(n) && m.used_pct@ == n.used_pct@ && m.buff_cache_pct@
            == n.buff_cache_pct@ && m.total_mib@ == n.total_mib@ && m.used_mib@ == n.used_mib@
            && same_term(m.swap_used_pct, n.swap_used_pct))),
{
    lemma_same_names(d.zones@, z.1@);
    lemma_same_names(d.regulators@, v@);
    lemma_same_terms(d.loads@, p.loads@);
    lemma_same_terms(d.rssi@, p.rssi@);
    assert(numbered_terms(d.adc@) == numbered_terms(h.adc@));
    assert(numbered_terms(d.adc@).len() == d.adc@.len());
    assert(numbered_terms(h.adc@).len() == h.adc@.len());
    assert forall|i: int| 0 <= i < h.adc@.len() implies (#[trigger] d.adc@[i]).0 == h.adc@[i].0
        && d.adc@[i].1@ == h.adc@[i].1@ by {
        assert(numbered_terms(d.adc@)[i] == numbered_terms(h.adc@)[i]);
    }
    assert(named_texts(d.clocks@) == named_texts(c@));
    assert(named_texts(d.clocks@).len() == d.clocks@.len());
    assert(named_texts(c@).len() == c@.len());
    assert forall|i: int| 0 <= i < c@.len() implies (#[trigger] d.clocks@[i]).0@ == c@[i].0@
        && d.clocks@[i].1@ == c@[i].1@ by {
        assert(named_texts(d.clocks@)[i] == named_texts(c@)[i]);
    }
}

/// Two cells are both missing or stand for the same.
pub open spec fn same_term(a: Option<Formula>, b: Option<Formula>) -> bool {
    (a is Some <==> b is Some) && (a is Some ==> (a->0)@ == (b->0)@)
}

/// Two lists of cells stand for the same, one for one.
pub open spec fn same_terms(a: Seq<Formula>, b: Seq<Formula>) -> bool {
    a.len() == b.len() && forall|i: int| 0 <= i < b.len() ==> (#[trigger] a[i])@ == b[i]@
}

/// Two lists have the same names, and beside them cells that stand for the same.
pub open spec fn same_names(a: Seq<(String, Formula)>, b: Seq<(String, Formula)>) -> bool {
    a.len() == b.len() && forall|i: int|
        0 <= i < b.len() ==> (#[trigger] a[i]).0@ == b[i].0@ && a[i].1@ == b[i].1@
}

proof fn lemma_same_terms(a: Seq<Formula>, b: Seq<Formula>)
    requires
        terms(a) == terms(b),
    ensures
        same_terms(a, b),
{
    assert(terms(a).len() == a.len() && terms(b).len() == b.len());
    assert forall|i: int| 0 <= i < b.len() implies (#[trigger] a[i])@ == b[i]@ by {
        assert(terms(a)[i] == terms(b)[i]);
        assert(terms(b)[i] == b[i]@);
    }
}

proof fn lemma_same_names(a: Seq<(String, Formula)>, b: Seq<(String, Formula)>)
    requires
        named_terms(a) == named_terms(b),
    ensures
        same_names(a, b),
{
    assert(named_terms(a).len() == a.len() && named_terms(b).len() == b.len());
    assert forall|i: int| 0 <= i < b.len() implies (#[trigger] a[i]).0@ == b[i].0@ && a[i].1@
        == b[i].1@ by {
        assert(named_terms(a)[i] == named_terms(b)[i]);
    }
}

/// Each text of a sweep is the answer to its own question.
pub proof fn law_sweep_asks_its_questions<P: Probe>(
    probe: &P,
    before: Sweeper,
    after: Sweeper,
    pass: Pass,
    d: Pending,
)
    requires
        Sweeper::sweeps(before, after, probe, pass, d),
    ensures
        may_run(probe, seq!["measure_temp"@], text_of(pass.texts.firmware.soc)),
        may_run(probe, seq!["measure_temp"@, "pmic"@], text_of(pass.texts.firmware.pmic)),
        may_run(probe, seq!["measure_volts"@, "core"@], text_of(pass.texts.firmware.core)),
        may_run(probe, seq!["measure_volts"@, "sdram_c"@], text_of(pass.texts.firmware.sdram_c)),
        may_run(probe, seq!["measure_volts"@, "sdram_p"@], text_of(pass.texts.firmware.sdram_p)),
        may_run(probe, seq!["get_throttled"@], text_of(pass.texts.firmware.throttled)),
        may_read(probe, "/proc/loadavg"@, text_of(pass.texts.proc.loadavg)),
        may_read(probe, "/proc/meminfo"@, text_of(pass.texts.proc.meminfo)),
        may_read(probe, "/proc/uptime"@, text_of(pass.texts.proc.uptime)),
        may_read(probe, "/proc/net/wireless"@, text_of(pass.texts.proc.wireless)),
        may_read(probe, "/proc/stat"@, text_of(pass.counters.stat)),
        may_read(probe, "/proc/diskstats"@, text_of(pass.counters.diskstats)),
        may_read(probe, "/proc/net/dev"@, text_of(pass.counters.net_dev)),
{
}

/// The files of a sweep are asked in the directories that the patterns stand for,
/// the further ones only where an earlier answer calls for them.
pub proof fn law_sweep_asks_its_directories<P: Probe>(
    probe: &P,
    before: Sweeper,
    after: Sweeper,
    pass: Pass,
    d: Pending,
    i: int,
)
    requires
        Sweeper::sweeps(before, after, probe, pass, d),
    ensures
        may_glob(
            probe,
            "/sys/class/thermal/thermal_zone*"@,
            Seq::new(pass.texts.zones.len(), |j: int| pass.texts.zones[j].dir@),
        ),
        may_glob(
            probe,
            "/sys/class/hwmon/hwmon*"@,
            Seq::new(pass.texts.hwmons.len(), |j: int| pass.texts.hwmons[j].dir@),
        ),
        may_glob(
            probe,
            "/sys/class/regulator/regulator*"@,
            Seq::new(pass.texts.rails.len(), |j: int| pass.texts.rails[j].dir@),
        ),
        0 <= i < pass.texts.zones.len() ==> ({
            let zone = pass.texts.zones[i];
            &&& may_read(probe, path_in(zone.dir@, "temp"@), text_of(zone.temp))
            &&& i > 0 && zone.temp is Some ==> may_read(
                probe,
                path_in(zone.dir@, "type"@),
                text_of(zone.label),
            )
        }),
        0 <= i < pass.texts.hwmons.len() ==> ({
            let h = pass.texts.hwmons[i];
            &&& may_read(probe, path_in(h.dir@, "name"@), text_of(h.name))
            &&& is_called(h, "nvme"@) || is_called(h, "rp1_adc"@) ==> may_read(
                probe,
                path_in(h.dir@, "temp1_input"@),
                text_of(h.temp),
            )
            &&& is_called(h, "rp1_adc"@) ==> h.inputs@.len() == 4 && forall|n: int|
                1 <= n <= 4 ==> may_read(
                    probe,
                    path_in(h.dir@, "in"@ + #[trigger] decimal(n as nat) + "_input"@),
                    text_of(h.inputs@[n - 1]),
                )
            &&& is_called(h, "rpi_volt"@) ==> may_read(
                probe,
                path_in(h.dir@, "in0_lcrit_alarm"@),
                text_of(h.alarm),
            )
        }),
        0 <= i < pass.texts.rails.len() ==> ({
            let rail = pass.texts.rails[i];
            &&& may_read(probe, path_in(rail.dir@, "state"@), text_of(rail.state))
            &&& (rail.state matches Some(state) && trim(state@) == "enabled"@) ==> may_read(
                probe,
                path_in(rail.dir@, "name"@),
                text_of(rail.name),
            )
            &&& (rail.name matches Some(name) && trim(name@).len() > 0) ==> may_read(
                probe,
                path_in(rail.dir@, "microvolts"@),
                text_of(rail.microvolts),
            )
        }),
        0 <= i < pass.texts.clocks.len() ==> may_run(
            probe,
            seq!["measure_clock"@, pass.texts.clocks[i].domain@],
            text_of(pass.texts.clocks[i].answer),
        ),
        pass.texts.clocks.len() == 12,
        0 <= i < 12 ==> pass.texts.clocks[i].domain@ == seq![
            "arm"@,
            "core"@,
            "h264"@,
            "isp"@,
            "v3d"@,
            "uart"@,
            "pwm"@,
            "emmc"@,
            "pixel"@,
            "vec"@,
            "hdmi"@,
            "dpi"@,
        ][i],
{
    let zones = pass.texts.zones;
    let hwmons = pass.texts.hwmons;
    let rails = pass.texts.rails;
    let clocks = pass.texts.clocks;
    assert(zone_dirs(zones) =~= Seq::new(zones.len(), |j: int| zones[j].dir@));
    assert(hwmon_dirs(hwmons) =~= Seq::new(hwmons.len(), |j: int| hwmons[j].dir@));
    assert(regulator_dirs(rails) =~= Seq::new(rails.len(), |j: int| rails[j].dir@));
    if 0 <= i < zones.len() {
        assert(zone_answered(probe, zones[i], i));
    }
    if 0 <= i < hwmons.len() {
        let h = hwmons[i];
        assert(hwmon_answered(probe, h));
        if is_called(h, "rp1_adc"@) {
            assert forall|n: int| 1 <= n <= 4 implies may_read(
                probe,
                path_in(h.dir@, "in"@ + #[trigger] decimal(n as nat) + "_input"@),
                text_of(h.inputs@[n - 1]),
            ) by {
                let k = n - 1;
                assert(may_read(
                    probe,
                    path_in(h.dir@, input_file((k + 1) as nat)),
                    text_of(h.inputs@[k]),
                ));
            }
        }
    }
    if 0 <= i < rails.len() {
        assert(regulator_answered(probe, rails[i]));
        if let Some(name) = rails[i].name {
            if trim(name@).len() > 0 {
                assert(trim(name@) != Seq::<char>::empty());
            }
        }
    }
    if 0 <= i < clocks.len() {
        assert(clock_answered(probe, views(CLOCK_DOMAINS@)[i], clocks[i]));
    }
}

/// The path of a file in a directory is the directory, one slash and the file.
pub proof fn law_path_in(dir: &str, file: &str, r: String)
    requires
        call_ensures(join_path, (dir, file), r),
    ensures
        dir@.len() > 0 && dir@.last() != '/' ==> r@ == dir@ + seq!['/'] + file@,
        dir@.len() > 0 && dir@.last() == '/' ==> r@ == dir@ + file@,
        dir@.len() == 0 ==> r@ == file@,
{
    assert(dir@.push('/') =~= dir@ + seq!['/']);
    if dir@.len() == 0 {
        assert(dir@ + file@ =~= file@);
    }
}

/// The answer to a question is the probe's own: what the file, the pattern or the
/// command was answered with is what is handed on.
pub proof fn law_answers_are_handed_on<P: Probe>(
    probe: &P,
    path: &str,
    text: Option<String>,
    paths: Vec<String>,
    args: &[&str],
    output: Option<String>,
)
    requires
        call_ensures(ask_file::<P>, (probe, path), text),
        call_ensures(ask_glob::<P>, (probe, path), paths),
        call_ensures(ask_tool::<P>, (probe, args), output),
    ensures
        exists|p: &str, a: Option<String>|
            {
                &&& #[trigger] call_ensures(P::read_file, (probe, p), a)
                &&& p@ == path@
                &&& a is Some <==> text is Some
                &&& a is Some ==> (a->0)@ == (text->0)@
            },
        exists|p: &str, a: Vec<String>|
            {
                &&& #[trigger] call_ensures(P::glob, (probe, p), a)
                &&& p@ == path@
                &&& a@.len() == paths@.len()
                &&& forall|i: int| 0 <= i < a@.len() ==> (#[trigger] a@[i])@ == paths@[i]@
            },
        exists|p: &[&str], a: Option<String>|
            {
                &&& #[trigger] call_ensures(P::vcgencmd, (probe, p), a)
                &&& p@.len() == args@.len()
                &&& forall|i: int| 0 <= i < p@.len() ==> (#[trigger] p@[i])@ == args@[i]@
                &&& a is Some <==> output is Some
                &&& a is Some ==> (a->0)@ == (output->0)@
            },
{
    let (p, a) = choose|p: &str, a: Option<String>| #[trigger]
        call_ensures(P::read_file, (probe, p), a) && p@ == path@ && text_of(a) == text_of(text);
    assert(call_ensures(P::read_file, (probe, p), a));
    let (q, b) = choose|p: &str, r: Vec<String>| #[trigger]
        call_ensures(P::glob, (probe, p), r) && p@ == path@ && texts_of(r@) == texts_of(paths@);
    assert(call_ensures(P::glob, (probe, q), b));
    assert(texts_of(b@).len() == b@.len() && texts_of(paths@).len() == paths@.len());
    assert forall|i: int| 0 <= i < b@.len() implies (#[trigger] b@[i])@ == paths@[i]@ by {
        assert(texts_of(b@)[i] == texts_of(paths@)[i]);
    }
    let (c, o) = choose|a: &[&str], r: Option<String>| #[trigger]
        call_ensures(P::vcgencmd, (probe, a), r) && views(a@) == views(args@) && text_of(r)
            == text_of(output);
    assert(call_ensures(P::vcgencmd, (probe, c), o));
    assert(views(c@).len() == c@.len() && views(args@).len() == args@.len());
    assert forall|i: int| 0 <= i < c@.len() implies (#[trigger] c@[i])@ == args@[i]@ by {
        assert(views(c@)[i] == views(args@)[i]);
    }
}

/// A clock's text is what stands after the last equals sign of the answer to
/// `measure_clock` for its domain, without the white space around it.
pub proof fn law_one_clock<P: Probe>(
    probe: &P,
    domain: &str,
    command: Seq<Seq<char>>,
    r: Option<String>,
)
    requires
        call_ensures(clock_mhz::<P>, (probe, domain), r),
        command == seq!["measure_clock"@, domain@],
    ensures
        exists|answer: Option<Seq<char>>|
            {
                &&& #[trigger] may_run(probe, command, answer)
                &&& r is Some <==> answer is Some
                &&& r is Some ==> (r->0)@ == trim(after_last(answer->0, '='))
            },
{
    let clock = choose|clock: ClockTexts|
        {
            &&& #[trigger] clock_answered(probe, domain@, clock)
            &&& text_of(r) == match clock.answer {
                Some(text) => Some(hertz_text(text@)),
                None => None,
            }
        };
    assert(may_run(probe, command, text_of(clock.answer)));
}

/// A pass on its own has no rates yet, and is stamped with the whole milliseconds
/// since the clock's start, as long as these fit.
pub proof fn law_pass_on_its_own<P: Probe>(probe: &P, clock: &Clock, d: Pending)
    requires
        call_ensures(collect_snapshot::<P>, (probe, clock), d),
    ensures
        d.cores@.len() == 0 && d.utilization is None && d.disk_io is None && d.net_io is None,
        exists|now: Instant|
            {
                let nanos = nanoseconds(span_between(now, clock.0));
                &&& #[trigger] call_ensures(Instant::now, (), now)
                &&& nanos < 1_000_000 * (u64::MAX + 1) ==> d.elapsed_ms * 1_000_000 <= nanos
                    < (d.elapsed_ms + 1) * 1_000_000
            },
        exists|t: SweepTexts| #[trigger] sweep_answered(probe, t) && drafted(d, t),
{
    let now = choose|now: Instant|
        call_ensures(Instant::now, (), now) && d.elapsed_ms == #[trigger] ms_between(now, clock.0);
    assert(call_ensures(Instant::now, (), now));
}

/// The clock's reading is the whole milliseconds since its start, as long as
/// these fit.
pub proof fn law_reading_the_clock(clock: &Clock, ms: u64)
    requires
        call_ensures(Clock::elapsed_ms, (clock,), ms),
    ensures
        exists|now: Instant|
            {
                let nanos = nanoseconds(span_between(now, clock.0));
                &&& #[trigger] call_ensures(Instant::now, (), now)
                &&& nanos < 1_000_000 * (u64::MAX + 1) ==> ms * 1_000_000 <= nanos < (ms + 1)
                    * 1_000_000
            },
{
    let now = choose|now: Instant|
        call_ensures(Instant::now, (), now) && ms == #[trigger] ms_between(now, clock.0);
    assert(call_ensures(Instant::now, (), now));
}

} // verus!
