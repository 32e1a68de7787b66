//! btop-style widgets: segmented gauges, threshold colors, formatted times.

use vstd::prelude::*;
use vstd::string::{StrSliceExecFns, StringExecFns};

use crate::single::{Single, NINE_TENTHS, SIX_TENTHS};
use crate::text::{
    decimal, hex_u32_of, parse_hex, push_decimal, strip_repeated, stripped_repeatedly, trim,
    trimmed,
};

verus! {

/// Temperature bands, degrees Celsius, tuned for the Pi 5 family (firmware soft
/// limit is 85 C on this board family).
pub const TEMP_WARN_C: u32 = 60;

pub const TEMP_HOT_C: u32 = 75;

pub const TEMP_CRIT_C: u32 = 85;

/// A semantic color; the theme says what it looks like.
#[derive(Debug, Clone, Copy, PartialEq, Eq, Structural)]
pub enum Tone {
    Red,
    Yellow,
    Warning,
    Green,
    Blue,
    Accent,
    Muted,
    Foreground,
}

/// The color of a temperature.
pub open spec fn temp_tone(temp: Single) -> Tone {
    if temp.reaches(TEMP_CRIT_C as int) {
        Tone::Red
    } else if temp.reaches(TEMP_HOT_C as int) {
        Tone::Yellow
    } else if temp.reaches(TEMP_WARN_C as int) {
        Tone::Warning
    } else {
        Tone::Green
    }
}

/// Pick the semantic color for a temperature reading.
pub fn temp_color(temp: Single) -> (r: Tone)
    ensures
        r == temp_tone(temp),
{
    if temp.reaches_whole(TEMP_CRIT_C) {
        Tone::Red
    } else if temp.reaches_whole(TEMP_HOT_C) {
        Tone::Yellow
    } else if temp.reaches_whole(TEMP_WARN_C) {
        Tone::Warning
    } else {
        Tone::Green
    }
}

/// The color of a utilization: red from nine tenths on, yellow from six.
pub open spec fn utilization_tone(frac: Single) -> Tone {
    if frac.ge(Single { bits: NINE_TENTHS }) {
        Tone::Red
    } else if frac.ge(Single { bits: SIX_TENTHS }) {
        Tone::Yellow
    } else {
        Tone::Green
    }
}

/// Pick the semantic color for a utilization between zero and one.
pub fn utilization_color(frac: Single) -> (r: Tone)
    ensures
        r == utilization_tone(frac),
{
    if frac.at_least(&Single { bits: NINE_TENTHS }) {
        Tone::Red
    } else if frac.at_least(&Single { bits: SIX_TENTHS }) {
        Tone::Yellow
    } else {
        Tone::Green
    }
}

/// The color of an ARM clock.
pub open spec fn clock_tone(mhz: Single) -> Tone {
    if mhz.reaches(2300) {
        Tone::Green
    } else if mhz.reaches(1800) {
        Tone::Warning
    } else {
        Tone::Muted
    }
}

/// Frequency bands relative to the board's 2.4 GHz top speed.
pub fn clock_color(mhz: Single) -> (r: Tone)
    ensures
        r == clock_tone(mhz),
{
    if mhz.reaches_whole(2300) {
        Tone::Green
    } else if mhz.reaches_whole(1800) {
        Tone::Warning
    } else {
        Tone::Muted
    }
}

/// The color of a swap usage in percent.
pub open spec fn swap_tone(percent: Single) -> Tone {
    if percent.reaches(50) {
        Tone::Yellow
    } else {
        Tone::Muted
    }
}

/// Pick the semantic color for a swap usage in percent.
pub fn swap_color(percent: Single) -> (r: Tone)
    ensures
        r == swap_tone(percent),
{
    if percent.reaches_whole(50) {
        Tone::Yellow
    } else {
        Tone::Muted
    }
}

/// How alarming a color is, among those of temperatures and utilizations.
pub open spec fn severity(tone: Tone) -> int {
    match tone {
        Tone::Red => 3,
        Tone::Yellow => 2,
        Tone::Warning => 1,
        _ => 0,
    }
}

/// A higher temperature never has a milder color, and neither has a higher
/// utilization.
pub proof fn law_bands_rise(a: Single, b: Single)
    requires
        b.ge(a),
    ensures
        severity(temp_tone(a)) <= severity(temp_tone(b)),
        severity(utilization_tone(a)) <= severity(utilization_tone(b)),
{
}

/// A value brought into the range from zero to one. What is not a number stays
/// so.
pub open spec fn clamped(frac: Single) -> Single {
    if frac.below_zero() {
        Single { bits: 0 }
    } else if frac.reaches(1) {
        Single { bits: 0x3f80_0000 }
    } else {
        frac
    }
}

fn clamp(frac: Single) -> (r: Single)
    ensures
        r == clamped(frac),
{
    if frac.is_below_zero() {
        Single { bits: 0 }
    } else if frac.reaches_whole(1) {
        Single { bits: 0x3f80_0000 }
    } else {
        frac
    }
}

/// A btop-style segmented gauge: N discrete cells, filled proportionally, with a
/// label on the left and a value on the right.
#[derive(Debug)]
pub struct Gauge {
    pub label: String,
    pub value_text: String,
    /// Fill fraction between zero and one.
    pub frac: Single,
    pub color: Tone,
    pub cells: usize,
}

impl Gauge {
    pub fn new(label: &str, frac: Single, color: Tone) -> (r: Gauge)
        ensures
            r.label@ == label@,
            r.value_text@.len() == 0,
            r.frac == clamped(frac),
            r.color == color,
            r.cells == 20,
    {
        Gauge {
            label: label.to_owned(),
            value_text: String::new(),
            frac: clamp(frac),
            color,
            cells: 20,
        }
    }

    /// The gauge with a value text.
    pub fn value_text(self, text: &str) -> (r: Gauge)
        ensures
            r.value_text@ == text@,
            r.label == self.label && r.frac == self.frac && r.color == self.color && r.cells
                == self.cells,
    {
        Gauge {
            label: self.label,
            value_text: text.to_owned(),
            frac: self.frac,
            color: self.color,
            cells: self.cells,
        }
    }

    /// The gauge with a number of cells, at least four.
    pub fn cells(self, cells: usize) -> (r: Gauge)
        ensures
            r.cells == if cells >= 4 {
                cells
            } else {
                4
            },
            r.label == self.label && r.value_text == self.value_text && r.frac == self.frac
                && r.color == self.color,
    {
        Gauge {
            label: self.label,
            value_text: self.value_text,
            frac: self.frac,
            color: self.color,
            cells: if cells >= 4 {
                cells
            } else {
                4
            },
        }
    }

    /// How many of the cells are lit, given the fraction of the cells rounded to
    /// a whole number. Never exceeds `cells`, so a fraction above one lights the
    /// bar without overflow.
    pub fn filled(&self, rounded: usize) -> (r: usize)
        ensures
            r == if rounded <= self.cells {
                rounded
            } else {
                self.cells
            },
    {
        if rounded <= self.cells {
            rounded
        } else {
            self.cells
        }
    }

    /// Whether a cell is lit.
    pub fn lit(&self, cell: usize, rounded: usize) -> (r: bool)
        ensures
            r == (cell < rounded && cell < self.cells),
    {
        cell < self.filled(rounded)
    }
}

/// The days, hours and minutes of a time in seconds.
pub open spec fn clock_parts(secs: u64) -> (nat, nat, nat) {
    (
        secs as nat / 86_400,
        (secs as nat % 86_400) / 3600,
        (secs as nat % 3600) / 60,
    )
}

/// A time as `1d 3h 27m`, without the parts that lead with zero.
pub open spec fn uptime_text(secs: u64) -> Seq<char> {
    let (days, hours, mins) = clock_parts(secs);
    if days > 0 {
        decimal(days) + "d "@ + decimal(hours) + "h "@ + decimal(mins) + "m"@
    } else if hours > 0 {
        decimal(hours) + "h "@ + decimal(mins) + "m"@
    } else {
        decimal(mins) + "m"@
    }
}

/// Format a seconds count as `1d 3h 27m`.
pub fn fmt_uptime(secs: u64) -> (r: String)
    ensures
        r@ == uptime_text(secs),
{
    let days = secs / 86_400;
    let hours = (secs % 86_400) / 3600;
    let mins = (secs % 3600) / 60;
    let mut out = String::new();
    if days > 0 {
        push_decimal(&mut out, days);
        out.append("d ");
    }
    if days > 0 || hours > 0 {
        push_decimal(&mut out, hours);
        out.append("h ");
    }
    push_decimal(&mut out, mins);
    out.append("m");
    assert(out@ =~= uptime_text(secs));
    out
}

/// The parts of a formatted time are in their ranges and make up the time but
/// for its seconds.
pub proof fn law_uptime_parts(secs: u64)
    ensures
        ({
            let (days, hours, mins) = clock_parts(secs);
            &&& hours < 24
            &&& mins < 60
            &&& days * 86_400 + hours * 3600 + mins * 60 <= secs
            &&& secs < days * 86_400 + hours * 3600 + mins * 60 + 60
        }),
{
    let s = secs as int;
    let days = s / 86_400;
    let rest = s % 86_400;
    let hours = rest / 3600;
    let left = rest % 3600;
    assert(s == 3600 * (24 * days + hours) + left);
    vstd::arithmetic::div_mod::lemma_fundamental_div_mod_converse(
        s,
        3600,
        24 * days + hours,
        left,
    );
    assert(s % 3600 == left);
    assert(left == 60 * (left / 60) + left % 60);
}

/// Each character twice.
pub open spec fn doubled(s: Seq<char>) -> Seq<char> {
    Seq::new(2 * s.len(), |i: int| s[i / 2])
}

/// The digits of a color such as `#rrggbb`, those of a short `#rgb` doubled.
pub open spec fn color_digits(value: Seq<char>) -> Seq<char> {
    let hex = strip_repeated(trim(value), "#"@);
    if hex.len() == 3 {
        doubled(hex)
    } else {
        hex
    }
}

/// Reads a color such as `#rrggbb` or `#rgb`.
pub fn hex_to_rgb(value: &str) -> (r: Option<u32>)
    ensures
        r == hex_u32_of(color_digits(value@)),
{
    let hex = stripped_repeatedly(trimmed(value), "#");
    if hex.unicode_len() != 3 {
        return parse_hex(hex);
    }
    let mut expanded = String::new();
    let mut i: usize = 0;
    while i < 3
        invariant
            i <= 3,
            hex@.len() == 3,
            expanded@ == doubled(hex@.take(i as int)),
        decreases 3 - i,
    {
        let c = hex.substring_char(i, i + 1);
        expanded.append(c);
        expanded.append(c);
        i = i + 1;
        assert(expanded@ =~= doubled(hex@.take(i as int)));
    }
    assert(hex@.take(3) == hex@);
    parse_hex(expanded.as_str())
}

/// A short color is the long one with each digit twice. (A first digit `#` and
/// a last one of white space would not be read as digits.)
pub proof fn law_short_color(r: char, g: char, b: char)
    requires
        r != '#',
        !crate::text::is_white(b),
    ensures
        color_digits(seq!['#', r, g, b]) == color_digits(seq!['#', r, r, g, g, b, b]),
{
    let short = seq!['#', r, g, b];
    let long = seq!['#', r, r, g, g, b, b];
    assert(short =~= seq!['#'] + seq![r, g, b]);
    assert(long =~= seq!['#'] + seq![r, r, g, g, b, b]);
    lemma_color(short, seq![r, g, b]);
    lemma_color(long, seq![r, r, g, g, b, b]);
    assert(doubled(seq![r, g, b]) =~= seq![r, r, g, g, b, b]);
}

proof fn lemma_color(value: Seq<char>, hex: Seq<char>)
    requires
        hex.len() > 0,
        value == seq!['#'] + hex,
        hex[0] != '#',
        !crate::text::is_white(hex.last()),
    ensures
        strip_repeated(trim(value), "#"@) == hex,
{
    reveal_strlit("#");
    crate::text::lemma_span(value, crate::text::white(), 0);
    assert(crate::text::trim_start(value) =~= value);
    crate::text::lemma_rspan(value, crate::text::white(), 0);
    assert(trim(value) =~= value);
    assert("#"@ =~= seq!['#']);
    assert(value.take(1) =~= "#"@);
    assert(value.skip(1) =~= hex);
    assert(hex.take(1)[0] != '#');
    assert(!crate::text::starts_with(hex, "#"@));
    reveal_with_fuel(strip_repeated, 2);
}

} // verus!
