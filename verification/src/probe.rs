//! Where the sensor texts come from.

use vstd::prelude::*;
use vstd::string::StringExecFns;

use crate::sensors::{
    HWMON_GLOB, LOADAVG, MEMINFO, REGULATOR_GLOB, THERMAL_GLOB, UPTIME, WIRELESS,
};
use crate::text::{
    decimal, has_text, holds_text, push_decimal, same, text_of, texts_of, trim, trimmed, views,
};

verus! {

/// Abstract sensor source. A real system reads the kernel's files and runs the
/// firmware tool; a test gives canned answers.
///
/// A source may answer the same question differently each time; nothing is
/// presumed of its answers.
pub trait Probe {
    /// Read a whole file as lossy UTF-8.
    fn read_file(&self, path: &str) -> Option<String>;

    /// Expand a glob pattern and return matching paths.
    fn glob(&self, pattern: &str) -> Vec<String>;

    /// Run vcgencmd with the given arguments, returning trimmed output.
    fn vcgencmd(&self, args: &[&str]) -> Option<String>;
}

/// The probe may have answered so when asked for a file; `None` is a file that
/// cannot be read.
pub open spec fn may_read<P: Probe>(
    probe: &P,
    path: Seq<char>,
    answer: Option<Seq<char>>,
) -> bool {
    exists|p: &str, r: Option<String>| #[trigger]
        call_ensures(P::read_file, (probe, p), r) && p@ == path && text_of(r) == answer
}

/// The probe may have expanded the pattern to the paths.
pub open spec fn may_glob<P: Probe>(
    probe: &P,
    pattern: Seq<char>,
    answer: Seq<Seq<char>>,
) -> bool {
    exists|p: &str, r: Vec<String>| #[trigger]
        call_ensures(P::glob, (probe, p), r) && p@ == pattern && texts_of(r@) == answer
}

/// The firmware tool may have answered so; `None` is a tool that is missing or
/// fails.
pub open spec fn may_run<P: Probe>(
    probe: &P,
    args: Seq<Seq<char>>,
    answer: Option<Seq<char>>,
) -> bool {
    exists|a: &[&str], r: Option<String>| #[trigger]
        call_ensures(P::vcgencmd, (probe, a), r) && views(a@) == args && text_of(r) == answer
}

/// Asks for a file.
pub fn ask_file<P: Probe>(probe: &P, path: &str) -> (r: Option<String>)
    ensures
        may_read(probe, path@, text_of(r)),
{
    let r = probe.read_file(path);
    assert(call_ensures(P::read_file, (probe, path), r));
    r
}

/// Asks for the paths that a pattern stands for.
pub fn ask_glob<P: Probe>(probe: &P, pattern: &str) -> (r: Vec<String>)
    ensures
        may_glob(probe, pattern@, texts_of(r@)),
{
    let r = probe.glob(pattern);
    assert(call_ensures(P::glob, (probe, pattern), r));
    r
}

/// Asks the firmware tool.
pub fn ask_tool<P: Probe>(probe: &P, args: &[&str]) -> (r: Option<String>)
    ensures
        may_run(probe, views(args@), text_of(r)),
{
    let r = probe.vcgencmd(args);
    assert(call_ensures(P::vcgencmd, (probe, args), r));
    r
}

/// The path of a file in a directory.
pub open spec fn path_in(dir: Seq<char>, file: Seq<char>) -> Seq<char> {
    if dir.len() == 0 || dir.last() == '/' {
        dir + file
    } else {
        dir.push('/') + file
    }
}

/// The path of a file in a directory.
pub fn join_path(dir: &str, file: &str) -> (r: String)
    ensures
        r@ == path_in(dir@, file@),
{
    let cs = crate::text::chars(dir);
    let mut out = dir.to_owned();
    if cs.len() > 0 && cs[cs.len() - 1] != '/' {
        out.append("/");
        proof {
            reveal_strlit("/");
            assert(out@ == dir@.push('/'));
        }
    }
    out.append(file);
    out
}

fn read_in<P: Probe>(probe: &P, dir: &str, file: &str) -> (r: Option<String>)
    ensures
        may_read(probe, path_in(dir@, file@), text_of(r)),
{
    ask_file(probe, join_path(dir, file).as_str())
}

/// Whether a text, if there is one, is a word with white space around it.
pub open spec fn reads(text: Option<Seq<char>>, word: Seq<char>) -> bool {
    match text {
        Some(t) => trim(t) == word,
        None => false,
    }
}

/// Tells whether a text, if there is one, is a word with white space around it.
pub fn reads_as(text: &Option<String>, word: &str) -> (r: bool)
    ensures
        r == reads(text_of(*text), word@),
{
    match text {
        Some(t) => same(trimmed(t.as_str()), word),
        None => false,
    }
}

/// Whether a device-tree model text names a Raspberry Pi.
pub open spec fn model_supported(model: Option<Seq<char>>) -> bool {
    match model {
        Some(text) => holds_text(text, "Raspberry Pi"@),
        None => false,
    }
}

/// Tells whether a device-tree model text names a Raspberry Pi.
pub fn names_raspberry_pi(model: &Option<String>) -> (r: bool)
    ensures
        r == model_supported(text_of(*model)),
{
    match model {
        Some(text) => has_text(text.as_str(), "Raspberry Pi"),
        None => false,
    }
}

/// The texts of one `/sys/class/thermal` zone.
#[derive(Debug)]
pub struct ZoneTexts {
    pub dir: String,
    pub temp: Option<String>,
    /// The zone type, asked only of a zone beyond the first that has a
    /// temperature.
    pub label: Option<String>,
}

/// The texts of one `/sys/class/hwmon` device. Which files are asked depends on
/// the device's name.
#[derive(Debug)]
pub struct HwmonTexts {
    pub dir: String,
    pub name: Option<String>,
    pub temp: Option<String>,
    pub inputs: Vec<Option<String>>,
    pub alarm: Option<String>,
}

/// The texts of one `/sys/class/regulator` rail.
#[derive(Debug)]
pub struct RegulatorTexts {
    pub dir: String,
    pub state: Option<String>,
    pub name: Option<String>,
    pub microvolts: Option<String>,
}

/// What the firmware tool answered.
#[derive(Debug)]
pub struct FirmwareTexts {
    pub soc: Option<String>,
    pub pmic: Option<String>,
    pub core: Option<String>,
    pub sdram_c: Option<String>,
    pub sdram_p: Option<String>,
    pub throttled: Option<String>,
}

/// What the kernel's counters said.
#[derive(Debug)]
pub struct ProcTexts {
    pub loadavg: Option<String>,
    pub meminfo: Option<String>,
    pub uptime: Option<String>,
    pub wireless: Option<String>,
}

/// What the firmware tool answered for one clock domain.
#[derive(Debug)]
pub struct ClockTexts {
    pub domain: String,
    pub answer: Option<String>,
}

/// The directories of the zones.
pub open spec fn zone_dirs(zones: Seq<ZoneTexts>) -> Seq<Seq<char>> {
    Seq::new(zones.len(), |i: int| zones[i].dir@)
}

pub open spec fn zone_answered<P: Probe>(probe: &P, zone: ZoneTexts, ix: int) -> bool {
    &&& may_read(probe, path_in(zone.dir@, "temp"@), text_of(zone.temp))
    &&& if ix > 0 && zone.temp is Some {
        may_read(probe, path_in(zone.dir@, "type"@), text_of(zone.label))
    } else {
        zone.label is None
    }
}

/// The texts are answers of the probe about its thermal zones.
pub open spec fn zones_answered<P: Probe>(probe: &P, zones: Seq<ZoneTexts>) -> bool {
    &&& may_glob(probe, THERMAL_GLOB@, zone_dirs(zones))
    &&& forall|i: int| 0 <= i < zones.len() ==> zone_answered(probe, #[trigger] zones[i], i)
}

/// Asks for the texts of the thermal zones.
pub fn read_zone_texts<P: Probe>(probe: &P) -> (r: Vec<ZoneTexts>)
    ensures
        zones_answered(probe, r@),
{
    let dirs = ask_glob(probe, THERMAL_GLOB);
    let mut out: Vec<ZoneTexts> = Vec::new();
    let mut i: usize = 0;
    while i < dirs.len()
        invariant
            i <= dirs@.len(),
            out@.len() == i,
            forall|k: int|
                0 <= k < i ==> zone_answered(probe, #[trigger] out@[k], k) && out@[k].dir@
                    == dirs@[k]@,
        decreases dirs@.len() - i,
    {
        let dir = dirs[i].clone();
        let temp = read_in(probe, dir.as_str(), "temp");
        let label = if i > 0 && temp.is_some() {
            read_in(probe, dir.as_str(), "type")
        } else {
            None
        };
        out.push(ZoneTexts { dir, temp, label });
        i = i + 1;
    }
    assert(zone_dirs(out@) == texts_of(dirs@));
    out
}

/// The file of an RP1 ADC input.
pub open spec fn input_file(n: nat) -> Seq<char> {
    "in"@ + decimal(n) + "_input"@
}

fn input_path(n: u64) -> (r: String)
    ensures
        r@ == input_file(n as nat),
{
    let mut out = "in".to_owned();
    push_decimal(&mut out, n);
    out.append("_input");
    out
}

pub open spec fn hwmon_dirs(hwmons: Seq<HwmonTexts>) -> Seq<Seq<char>> {
    Seq::new(hwmons.len(), |i: int| hwmons[i].dir@)
}

pub open spec fn hwmon_answered<P: Probe>(probe: &P, h: HwmonTexts) -> bool {
    let name = text_of(h.name);
    let dir = h.dir@;
    &&& may_read(probe, path_in(dir, "name"@), name)
    &&& if reads(name, "nvme"@) || reads(name, "rp1_adc"@) {
        may_read(probe, path_in(dir, "temp1_input"@), text_of(h.temp))
    } else {
        h.temp is None
    }
    &&& if reads(name, "rp1_adc"@) {
        &&& h.inputs@.len() == 4
        &&& forall|i: int|
            0 <= i < 4 ==> may_read(probe, path_in(dir, input_file((i + 1) as nat)),
                text_of(#[trigger] h.inputs@[i]),
            )
    } else {
        h.inputs@.len() == 0
    }
    &&& if reads(name, "rpi_volt"@) {
        may_read(probe, path_in(dir, "in0_lcrit_alarm"@), text_of(h.alarm))
    } else {
        h.alarm is None
    }
}

/// The texts are answers of the probe about its hwmon devices.
pub open spec fn hwmons_answered<P: Probe>(probe: &P, hwmons: Seq<HwmonTexts>) -> bool {
    &&& may_glob(probe, HWMON_GLOB@, hwmon_dirs(hwmons))
    &&& forall|i: int| 0 <= i < hwmons.len() ==> hwmon_answered(probe, #[trigger] hwmons[i])
}

fn read_hwmon_text<P: Probe>(probe: &P, dir: String) -> (r: HwmonTexts)
    ensures
        hwmon_answered(probe, r),
        r.dir@ == dir@,
{
    let name = read_in(probe, dir.as_str(), "name");
    let is_nvme = reads_as(&name, "nvme");
    let is_adc = reads_as(&name, "rp1_adc");
    let is_volt = reads_as(&name, "rpi_volt");
    let temp = if is_nvme || is_adc {
        read_in(probe, dir.as_str(), "temp1_input")
    } else {
        None
    };
    let mut inputs: Vec<Option<String>> = Vec::new();
    if is_adc {
        let mut n: u64 = 0;
        while n < 4
            invariant
                n <= 4,
                inputs@.len() == n,
                forall|i: int|
                    0 <= i < n ==> may_read(probe, path_in(dir@, input_file((i + 1) as nat)),
                        text_of(#[trigger] inputs@[i]),
                    ),
            decreases 4 - n,
        {
            n = n + 1;
            inputs.push(read_in(probe, dir.as_str(), input_path(n).as_str()));
        }
    }
    let alarm = if is_volt {
        read_in(probe, dir.as_str(), "in0_lcrit_alarm")
    } else {
        None
    };
    HwmonTexts { dir, name, temp, inputs, alarm }
}

/// Asks for the texts of the hwmon devices.
pub fn read_hwmon_texts<P: Probe>(probe: &P) -> (r: Vec<HwmonTexts>)
    ensures
        hwmons_answered(probe, r@),
{
    let dirs = ask_glob(probe, HWMON_GLOB);
    let mut out: Vec<HwmonTexts> = Vec::new();
    let mut i: usize = 0;
    while i < dirs.len()
        invariant
            i <= dirs@.len(),
            out@.len() == i,
            forall|k: int|
                0 <= k < i ==> hwmon_answered(probe, #[trigger] out@[k]) && out@[k].dir@
                    == dirs@[k]@,
        decreases dirs@.len() - i,
    {
        out.push(read_hwmon_text(probe, dirs[i].clone()));
        i = i + 1;
    }
    assert(hwmon_dirs(out@) == texts_of(dirs@));
    out
}

pub open spec fn regulator_dirs(rails: Seq<RegulatorTexts>) -> Seq<Seq<char>> {
    Seq::new(rails.len(), |i: int| rails[i].dir@)
}

/// A name that has something left without the white space around it.
pub open spec fn named(name: Option<Seq<char>>) -> bool {
    name is Some && !reads(name, seq![])
}

pub open spec fn regulator_answered<P: Probe>(probe: &P, rail: RegulatorTexts) -> bool {
    let dir = rail.dir@;
    &&& may_read(probe, path_in(dir, "state"@), text_of(rail.state))
    &&& if reads(text_of(rail.state), "enabled"@) {
        may_read(probe, path_in(dir, "name"@), text_of(rail.name))
    } else {
        rail.name is None
    }
    &&& if named(text_of(rail.name)) {
        may_read(probe, path_in(dir, "microvolts"@), text_of(rail.microvolts))
    } else {
        rail.microvolts is None
    }
}

/// The texts are answers of the probe about its regulators.
pub open spec fn regulators_answered<P: Probe>(probe: &P, rails: Seq<RegulatorTexts>) -> bool {
    &&& may_glob(probe, REGULATOR_GLOB@, regulator_dirs(rails))
    &&& forall|i: int| 0 <= i < rails.len() ==> regulator_answered(probe, #[trigger] rails[i])
}

fn read_regulator_text<P: Probe>(probe: &P, dir: String) -> (r: RegulatorTexts)
    ensures
        regulator_answered(probe, r),
        r.dir@ == dir@,
{
    let state = read_in(probe, dir.as_str(), "state");
    let name = if reads_as(&state, "enabled") {
        read_in(probe, dir.as_str(), "name")
    } else {
        None
    };
    proof {
        reveal_strlit("");
        assert(""@ =~= Seq::<char>::empty());
    }
    let microvolts = if name.is_some() && !reads_as(&name, "") {
        read_in(probe, dir.as_str(), "microvolts")
    } else {
        None
    };
    RegulatorTexts { dir, state, name, microvolts }
}

/// Asks for the texts of the regulators.
pub fn read_regulator_texts<P: Probe>(probe: &P) -> (r: Vec<RegulatorTexts>)
    ensures
        regulators_answered(probe, r@),
{
    let dirs = ask_glob(probe, REGULATOR_GLOB);
    let mut out: Vec<RegulatorTexts> = Vec::new();
    let mut i: usize = 0;
    while i < dirs.len()
        invariant
            i <= dirs@.len(),
            out@.len() == i,
            forall|k: int|
                0 <= k < i ==> regulator_answered(probe, #[trigger] out@[k]) && out@[k].dir@
                    == dirs@[k]@,
        decreases dirs@.len() - i,
    {
        out.push(read_regulator_text(probe, dirs[i].clone()));
        i = i + 1;
    }
    assert(regulator_dirs(out@) == texts_of(dirs@));
    out
}

/// The texts are answers of the firmware tool to its six commands.
pub open spec fn firmware_answered<P: Probe>(probe: &P, t: FirmwareTexts) -> bool {
    &&& may_run(probe, seq!["measure_temp"@], text_of(t.soc))
    &&& may_run(probe, seq!["measure_temp"@, "pmic"@], text_of(t.pmic))
    &&& may_run(probe, seq!["measure_volts"@, "core"@], text_of(t.core))
    &&& may_run(probe, seq!["measure_volts"@, "sdram_c"@], text_of(t.sdram_c))
    &&& may_run(probe, seq!["measure_volts"@, "sdram_p"@], text_of(t.sdram_p))
    &&& may_run(probe, seq!["get_throttled"@], text_of(t.throttled))
}

fn run_one<P: Probe>(probe: &P, command: &str) -> (r: Option<String>)
    ensures
        may_run(probe, seq![command@], text_of(r)),
{
    let args = [command];
    assert(views(args@) == seq![command@]);
    ask_tool(probe, &args)
}

fn run_two<P: Probe>(probe: &P, command: &str, subject: &str) -> (r: Option<String>)
    ensures
        may_run(probe, seq![command@, subject@], text_of(r)),
{
    let args = [command, subject];
    assert(views(args@) == seq![command@, subject@]);
    ask_tool(probe, &args)
}

/// Asks the firmware tool its six commands.
pub fn read_firmware_texts<P: Probe>(probe: &P) -> (r: FirmwareTexts)
    ensures
        firmware_answered(probe, r),
{
    let soc = run_one(probe, "measure_temp");
    let pmic = run_two(probe, "measure_temp", "pmic");
    let throttled = run_one(probe, "get_throttled");
    let core = run_two(probe, "measure_volts", "core");
    let sdram_c = run_two(probe, "measure_volts", "sdram_c");
    let sdram_p = run_two(probe, "measure_volts", "sdram_p");
    FirmwareTexts { soc, pmic, core, sdram_c, sdram_p, throttled }
}

/// The command for the SoC temperature.
pub open spec fn measure_temp() -> Seq<Seq<char>> {
    seq!["measure_temp"@]
}

/// Asks the firmware tool for the SoC temperature.
pub fn ask_temp<P: Probe>(probe: &P) -> (r: Option<String>)
    ensures
        may_run(probe, measure_temp(), text_of(r)),
{
    run_one(probe, "measure_temp")
}

/// The texts are answers of the probe about the kernel's counters.
pub open spec fn proc_answered<P: Probe>(probe: &P, t: ProcTexts) -> bool {
    &&& may_read(probe, LOADAVG@, text_of(t.loadavg))
    &&& may_read(probe, MEMINFO@, text_of(t.meminfo))
    &&& may_read(probe, UPTIME@, text_of(t.uptime))
    &&& may_read(probe, WIRELESS@, text_of(t.wireless))
}

/// Asks for the kernel's counters.
pub fn read_proc_texts<P: Probe>(probe: &P) -> (r: ProcTexts)
    ensures
        proc_answered(probe, r),
{
    let loadavg = ask_file(probe, LOADAVG);
    let meminfo = ask_file(probe, MEMINFO);
    let uptime = ask_file(probe, UPTIME);
    let wireless = ask_file(probe, WIRELESS);
    ProcTexts { loadavg, meminfo, uptime, wireless }
}

/// The text is an answer of the firmware tool about the domain.
pub open spec fn clock_answered<P: Probe>(
    probe: &P,
    domain: Seq<char>,
    clock: ClockTexts,
) -> bool {
    clock.domain@ == domain && may_run(probe, seq!["measure_clock"@, domain],
        text_of(clock.answer),
    )
}

/// The texts are answers of the firmware tool about the domains, one for each.
pub open spec fn clocks_answered<P: Probe>(
    probe: &P,
    domains: Seq<Seq<char>>,
    clocks: Seq<ClockTexts>,
) -> bool {
    &&& clocks.len() == domains.len()
    &&& forall|i: int|
        0 <= i < clocks.len() ==> clock_answered(probe, domains[i], #[trigger] clocks[i])
}

/// Asks the firmware tool for one clock domain.
pub fn read_clock_text<P: Probe>(probe: &P, domain: &str) -> (r: ClockTexts)
    ensures
        clock_answered(probe, domain@, r),
{
    let answer = run_two(probe, "measure_clock", domain);
    ClockTexts { domain: domain.to_owned(), answer }
}

/// Asks the firmware tool for each clock domain.
pub fn read_clock_texts<P: Probe>(probe: &P, domains: &[&str]) -> (r: Vec<ClockTexts>)
    ensures
        clocks_answered(probe, views(domains@), r@),
{
    let mut out: Vec<ClockTexts> = Vec::new();
    let mut i: usize = 0;
    while i < domains.len()
        invariant
            i <= domains@.len(),
            out@.len() == i,
            forall|k: int|
                0 <= k < i ==> clock_answered(probe, domains@[k]@, #[trigger] out@[k]),
        decreases domains@.len() - i,
    {
        out.push(read_clock_text(probe, domains[i]));
        i = i + 1;
    }
    out
}

} // verus!
