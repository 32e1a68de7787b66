//! What the small parts promise: bit patterns, gauges, times, colors, units, and
//! what is read out of single answers.

use vstd::arithmetic::power2::pow2;
use vstd::prelude::*;

use crate::formula::{numbers, terms, Formula, Term};
use crate::host::{
    glob_plan, law_glob_lists_the_entries, tool_answer, GlobPlan, SystemProbe,
};
use crate::laws_of_text::{
    blank, law_answer_number, law_parted, law_strip_prefix, law_temperature_number, law_trim,
};
use crate::palette::{color_line, color_under, quote, theme_colors, ThemeColors};
use crate::probe::{may_read, names_raspberry_pi, path_in, reads_as, Probe};
use crate::sensors::{
    finite_only, parse_gencmd_temp, parse_gencmd_value, parse_loadavg, parse_millidegrees,
    parse_rssi_dbm, parse_uptime_secs, word_numbers,
};
use crate::single::{magnitude_units, Double, Single};
use crate::text::{
    before_mark, decimal, hex_u32_of, holds_text, is_white, lemma_rspan, lemma_span, lines,
    sorts_before, starts_with, strip_repeated, texts_of, trim, words,
};
use crate::throttle::ThrottleState;
use crate::units::{SnapshotError, Unit};
use crate::widgets::{doubled, fmt_uptime, hex_to_rgb, Gauge, Tone};

verus! {

// --------------------------------------------------------------- bit patterns

/// A magnitude with an exponent and a fraction denotes one and the fraction,
/// doubled with each step of the exponent; without an exponent it denotes the
/// fraction alone.
pub proof fn law_magnitudes(exponent: nat, fraction: nat)
    requires
        fraction < 0x80_0000,
    ensures
        exponent > 0 ==> magnitude_units(exponent * 0x80_0000 + fraction) == (0x80_0000
            + fraction) * pow2((exponent - 1) as nat),
        magnitude_units(fraction) == fraction,
{
    let bits = exponent * 0x80_0000 + fraction;
    assert(bits / 0x80_0000 == exponent && bits % 0x80_0000 == fraction);
}

/// The sign of a value stands in its highest bit, and the others make up its
/// magnitude.
pub proof fn law_signs(m: u32)
    requires
        m < 0x8000_0000,
    ensures
        (Single { bits: m }).units() == magnitude_units(m as nat),
        (Single { bits: (m + 0x8000_0000) as u32 }).units() == -magnitude_units(m as nat),
        m <= 0x7f80_0000 ==> !(Single { bits: m }).nan(),
        m > 0x7f80_0000 ==> (Single { bits: m }).nan() && (Single {
            bits: (m + 0x8000_0000) as u32,
        }).nan(),
        (Single { bits: m }).finite() <==> m < 0x7f80_0000,
        (Single { bits: (m + 0x8000_0000) as u32 }).finite() <==> m < 0x7f80_0000,
{
}

/// What a value is told to be: not a number, finite, below zero, at least
/// another, at least a whole number.
pub proof fn law_judging(
    a: &Single,
    b: &Single,
    n: u32,
    nan: bool,
    finite: bool,
    below: bool,
    at_least: bool,
    reaches: bool,
    whole: Single,
)
    requires
        call_ensures(Single::is_nan, (a,), nan),
        call_ensures(Single::is_finite, (a,), finite),
        call_ensures(Single::is_below_zero, (a,), below),
        call_ensures(Single::at_least, (a, b), at_least),
        call_ensures(Single::reaches_whole, (a, n), reaches),
        call_ensures(Single::whole, (n,), whole),
    ensures
        nan <==> 0x7f80_0000 < a.bits < 0x8000_0000 || a.bits > 0xff80_0000,
        finite <==> a.bits < 0x7f80_0000 || 0x8000_0000 <= a.bits < 0xff80_0000,
        nan ==> !finite && !below && !at_least && !reaches,
        !nan ==> (below <==> a.units() < 0),
        b.nan() ==> !at_least,
        !nan && !b.nan() ==> (at_least <==> a.units() >= b.units()),
        !nan ==> (reaches <==> a.units() >= whole.units()),
        whole.units() == n * pow2(149) && whole.finite(),
{
}

/// A frequency is shown when its bits are those of a finite number without a
/// sign, or of a zero with one.
pub proof fn law_judging_frequencies(d: &Double, r: bool)
    requires
        call_ensures(Double::is_finite_from_zero, (d,), r),
    ensures
        r <==> d.bits < 0x7ff0_0000_0000_0000 || d.bits == 0x8000_0000_0000_0000,
        r <==> d.finite() && d.ge_zero(),
{
}

/// Of the firmware's values only the finite ones are kept, unchanged.
pub proof fn law_keeping_finite_values(value: Option<Single>, r: Option<Single>)
    requires
        call_ensures(finite_only, (value,), r),
    ensures
        forall|v: Single| r == Some(v) <==> value == Some(v) && #[trigger] v.finite(),
{
}

// -------------------------------------------------------------------- gauges

/// A new gauge has twenty cells and no text, and is filled between empty and
/// full.
pub proof fn law_new_gauge(label: &str, frac: Single, color: Tone, r: Gauge)
    requires
        call_ensures(Gauge::new, (label, frac, color), r),
    ensures
        r.label@ == label@ && r.value_text@ == Seq::<char>::empty() && r.color == color && r.cells
            == 20,
        frac.nan() ==> r.frac == frac,
        !frac.nan() && frac.units() < 0 ==> r.frac.bits == 0,
        !frac.nan() && 0 <= frac.units() < pow2(149) ==> r.frac == frac,
        !frac.nan() && frac.units() >= pow2(149) ==> r.frac.bits == 0x3f80_0000u32,
{
    assert(r.value_text@ =~= Seq::<char>::empty());
}

/// A text or a number of cells is put into a gauge without changing the rest; it
/// has at least four cells.
pub proof fn law_changing_a_gauge(g: Gauge, text: &str, cells: usize, a: Gauge, b: Gauge)
    requires
        call_ensures(Gauge::value_text, (g, text), a),
        call_ensures(Gauge::cells, (g, cells), b),
    ensures
        a.value_text@ == text@ && a.label == g.label && a.frac == g.frac && a.color == g.color
            && a.cells == g.cells,
        b.value_text == g.value_text && b.label == g.label && b.frac == g.frac && b.color
            == g.color,
        cells >= 4 ==> b.cells == cells,
        cells < 4 ==> b.cells == 4,
{
}

/// The lit cells are the first ones, as many as the rounded fraction says but no
/// more than there are.
pub proof fn law_lit_cells(g: &Gauge, cell: usize, rounded: usize, filled: usize, lit: bool)
    requires
        call_ensures(Gauge::filled, (g, rounded), filled),
        call_ensures(Gauge::lit, (g, cell, rounded), lit),
    ensures
        filled <= g.cells && filled <= rounded,
        filled == g.cells || filled == rounded,
        lit <==> cell < filled,
{
}

// --------------------------------------------------------------------- times

/// A time of so many days, hours, minutes and seconds is written as its days,
/// hours and minutes, without the parts that lead with zero.
pub proof fn law_uptime(days: int, hours: int, mins: int, rest: int, secs: u64, r: String)
    requires
        call_ensures(fmt_uptime, (secs,), r),
        0 <= days && 0 <= hours < 24 && 0 <= mins < 60 && 0 <= rest < 60,
        secs == days * 86_400 + hours * 3600 + mins * 60 + rest,
    ensures
        days > 0 ==> r@ == decimal(days as nat) + "d "@ + decimal(hours as nat) + "h "@ + decimal(
            mins as nat,
        ) + "m"@,
        days == 0 && hours > 0 ==> r@ == decimal(hours as nat) + "h "@ + decimal(mins as nat)
            + "m"@,
        days == 0 && hours == 0 ==> r@ == decimal(mins as nat) + "m"@,
{
    let s = secs as int;
    let within = hours * 3600 + mins * 60 + rest;
    vstd::arithmetic::div_mod::lemma_fundamental_div_mod_converse(s, 86_400, days, within);
    vstd::arithmetic::div_mod::lemma_fundamental_div_mod_converse(
        within,
        3600,
        hours,
        mins * 60 + rest,
    );
    vstd::arithmetic::div_mod::lemma_fundamental_div_mod_converse(
        s,
        3600,
        days * 24 + hours,
        mins * 60 + rest,
    );
    vstd::arithmetic::div_mod::lemma_fundamental_div_mod_converse(
        mins * 60 + rest,
        60,
        mins,
        rest,
    );
}

// -------------------------------------------------------------------- colors

/// All characters are number signs.
pub open spec fn number_signs(s: Seq<char>) -> bool {
    forall|i: int| 0 <= i < s.len() ==> #[trigger] s[i] == '#'
}

proof fn lemma_signs(signs: Seq<char>, hex: Seq<char>)
    requires
        number_signs(signs),
        hex.len() > 0 ==> hex[0] != '#',
    ensures
        strip_repeated(signs + hex, "#"@) == hex,
    decreases signs.len(),
{
    reveal_strlit("#");
    let mark = "#"@;
    assert(mark =~= seq!['#']);
    let s = signs + hex;
    if signs.len() == 0 {
        assert(s =~= hex);
        law_strip_prefix(hex, mark, hex);
        assert(!mark.is_prefix_of(hex)) by {
            if mark.is_prefix_of(hex) {
                assert(hex.subrange(0, 1)[0] == hex[0]);
            }
        }
    } else {
        let rest = signs.drop_first();
        assert forall|i: int| 0 <= i < rest.len() implies #[trigger] rest[i] == '#' by {
            assert(rest[i] == signs[i + 1]);
        }
        lemma_signs(rest, hex);
        assert(s =~= mark + (rest + hex));
        law_strip_prefix(s, mark, rest + hex);
    }
}

/// A color is the number of its digits, with or without number signs before and
/// white space around it; of three digits each counts twice, and without digits
/// there is no color.
pub proof fn law_color(
    a: Seq<char>,
    signs: Seq<char>,
    hex: Seq<char>,
    b: Seq<char>,
    value: &str,
    r: Option<u32>,
)
    requires
        call_ensures(hex_to_rgb, (value,), r),
        blank(a) && blank(b) && number_signs(signs),
        hex.len() > 0 ==> hex[0] != '#' && !is_white(hex.last()),
        hex.len() > 0 && signs.len() == 0 ==> !is_white(hex[0]),
        value@ == a + (signs + hex) + b,
    ensures
        hex.len() == 0 ==> r is None,
        hex.len() > 0 && hex.len() != 3 ==> r == hex_u32_of(hex),
        hex.len() == 3 ==> r == hex_u32_of(
            seq![hex[0], hex[0], hex[1], hex[1], hex[2], hex[2]],
        ),
{
    let inner = signs + hex;
    assert(!is_white('#'));
    if inner.len() > 0 {
        assert(inner[0] == if signs.len() > 0 {
            signs[0]
        } else {
            hex[0]
        });
        assert(inner.last() == if hex.len() > 0 {
            hex.last()
        } else {
            signs[signs.len() - 1]
        });
    }
    law_trim(a, inner, b);
    lemma_signs(signs, hex);
    if hex.len() == 3 {
        assert(doubled(hex) =~= seq![hex[0], hex[0], hex[1], hex[1], hex[2], hex[2]]);
    }
}

/// All characters are quotes.
pub open spec fn quotes(s: Seq<char>) -> bool {
    forall|i: int| 0 <= i < s.len() ==> #[trigger] s[i] == '"'
}

/// A line gives a color to a key: the key, an equals sign and the color, with
/// white space around both and quotes around the color. (All quotes around an
/// empty color are counted as those before it.)
pub open spec fn gives(
    line: Seq<char>,
    name: Seq<char>,
    a: Seq<char>,
    p: Seq<char>,
    color: Seq<char>,
    q: Seq<char>,
    b: Seq<char>,
) -> bool {
    &&& !name.contains('=')
    &&& blank(a) && blank(b) && quotes(p) && quotes(q)
    &&& color.len() > 0 ==> color[0] != '"' && color.last() != '"'
    &&& color.len() > 0 && p.len() == 0 ==> !is_white(color[0])
    &&& color.len() > 0 && q.len() == 0 ==> !is_white(color.last())
    &&& color.len() == 0 ==> q.len() == 0
    &&& line == name + seq!['='] + (a + (p + color + q) + b)
}

proof fn lemma_gives(
    line: Seq<char>,
    name: Seq<char>,
    a: Seq<char>,
    p: Seq<char>,
    color: Seq<char>,
    q: Seq<char>,
    b: Seq<char>,
)
    requires
        gives(line, name, a, p, color, q, b),
    ensures
        color_line(line, trim(name)) == Some(color),
        forall|key: Seq<char>| key != trim(name) ==> #[trigger] color_line(line, key) is None,
{
    let inner = p + color + q;
    law_parted(name, '=', a + inner + b);
    assert(!is_white('"'));
    if inner.len() > 0 {
        assert(inner[0] == if p.len() > 0 {
            p[0]
        } else {
            color[0]
        });
        assert(inner.last() == if q.len() > 0 {
            q[q.len() - 1]
        } else if color.len() > 0 {
            color.last()
        } else {
            p[p.len() - 1]
        });
    }
    law_trim(a, inner, b);
    assert forall|i: int| 0 <= i < p.len() implies quote()(#[trigger] inner[i]) by {
        assert(inner[i] == p[i]);
    }
    if color.len() > 0 {
        assert(inner[p.len() as int] == color[0]);
    }
    lemma_span(inner, quote(), p.len());
    let t = inner.skip(p.len() as int);
    assert(t =~= color + q);
    assert forall|i: int| t.len() - q.len() <= i < t.len() implies quote()(#[trigger] t[i]) by {
        assert(t[i] == q[i - color.len()]);
    }
    if color.len() > 0 {
        assert(t[t.len() - q.len() - 1] == color.last());
    }
    lemma_rspan(t, quote(), q.len());
    assert(t.take(t.len() - q.len()) =~= color);
}

/// The lines after a place give no color to a key.
pub open spec fn silent_after(ls: Seq<Seq<char>>, i: int, key: Seq<char>) -> bool {
    forall|j: int|
        i < j < ls.len() ==> !(#[trigger] ls[j]).contains('=') || trim(before_mark(ls[j], '='))
            != key
}

/// A theme's color is what the last line with its key gives to it; without such
/// a line it has none.
pub proof fn law_theme_colors(
    raw: &str,
    r: ThemeColors,
    i: int,
    name: Seq<char>,
    a: Seq<char>,
    p: Seq<char>,
    color: Seq<char>,
    q: Seq<char>,
    b: Seq<char>,
)
    requires
        call_ensures(theme_colors, (raw,), r),
        0 <= i < lines(raw@).len(),
        gives(lines(raw@)[i], name, a, p, color, q, b),
    ensures
        trim(name) == "background"@ && silent_after(lines(raw@), i, "background"@)
            ==> r.background is Some && (r.background->0)@ == color,
        trim(name) == "foreground"@ && silent_after(lines(raw@), i, "foreground"@)
            ==> r.foreground is Some && (r.foreground->0)@ == color,
        trim(name) == "accent"@ && silent_after(lines(raw@), i, "accent"@) ==> r.accent is Some
            && (r.accent->0)@ == color,
{
    let ls = lines(raw@);
    lemma_gives(ls[i], name, a, p, color, q, b);
    if silent_after(ls, i, trim(name)) {
        lemma_last_color(ls, i, trim(name), color);
    }
}

/// Without a line with its key a color is not set.
pub proof fn law_theme_without_a_color(raw: &str, r: ThemeColors)
    requires
        call_ensures(theme_colors, (raw,), r),
    ensures
        silent_after(lines(raw@), -1, "background"@) ==> r.background is None,
        silent_after(lines(raw@), -1, "foreground"@) ==> r.foreground is None,
        silent_after(lines(raw@), -1, "accent"@) ==> r.accent is None,
{
    let ls = lines(raw@);
    if silent_after(ls, -1, "background"@) {
        lemma_no_color(ls, "background"@);
    }
    if silent_after(ls, -1, "foreground"@) {
        lemma_no_color(ls, "foreground"@);
    }
    if silent_after(ls, -1, "accent"@) {
        lemma_no_color(ls, "accent"@);
    }
}

proof fn lemma_silent_line(line: Seq<char>, key: Seq<char>)
    requires
        !line.contains('=') || trim(before_mark(line, '=')) != key,
    ensures
        color_line(line, key) is None,
{
    if !line.contains('=') {
        law_parted(line, '=', seq![]);
    }
}

proof fn lemma_last_color(ls: Seq<Seq<char>>, i: int, key: Seq<char>, color: Seq<char>)
    requires
        0 <= i < ls.len(),
        silent_after(ls, i, key),
        color_line(ls[i], key) == Some(color),
    ensures
        color_under(ls, key) == Some(color),
    decreases ls.len(),
{
    let n = ls.len() - 1;
    if i < n {
        let rest = ls.drop_last();
        assert(ls.last() == ls[n]);
        lemma_silent_line(ls[n], key);
        assert forall|j: int| i < j < rest.len() implies !(#[trigger] rest[j]).contains('=')
            || trim(before_mark(rest[j], '=')) != key by {
            assert(rest[j] == ls[j]);
        }
        lemma_last_color(rest, i, key, color);
    }
}

proof fn lemma_no_color(ls: Seq<Seq<char>>, key: Seq<char>)
    requires
        silent_after(ls, -1, key),
    ensures
        color_under(ls, key) is None,
    decreases ls.len(),
{
    if ls.len() > 0 {
        let rest = ls.drop_last();
        let n = ls.len() - 1;
        assert(ls.last() == ls[n]);
        lemma_silent_line(ls[n], key);
        assert forall|j: int| -1 < j < rest.len() implies !(#[trigger] rest[j]).contains('=')
            || trim(before_mark(rest[j], '=')) != key by {
            assert(rest[j] == ls[j]);
        }
        lemma_no_color(rest, key);
    }
}

// --------------------------------------------------------------------- units

/// What follows a value in each unit.
pub proof fn law_unit_suffixes(unit: Unit, r: &'static str)
    requires
        call_ensures(Unit::suffix, (unit,), r),
    ensures
        unit == Unit::Celsius ==> r@ == "\u{b0}C"@,
        unit == Unit::Volts ==> r@ == "V"@,
        unit == Unit::Megahertz ==> r@ == "MHz"@,
        unit == Unit::Load ==> r@ == ""@,
        unit == Unit::MemoryPercent ==> r@ == "%"@,
        unit == Unit::Rssi ==> r@ == "dBm"@,
        unit == Unit::Millivolts ==> r@ == "mV"@,
{
}

/// The message of a missing tool names the path where it was looked for, that of
/// another failure is its own.
pub proof fn law_failure_messages(msg: String, missing: String, other: String)
    requires
        call_ensures(SnapshotError::message, (&SnapshotError::VcgencmdMissing,), missing),
        call_ensures(SnapshotError::message, (&SnapshotError::Other(msg),), other),
    ensures
        missing@ == "vcgencmd not found at "@ + "/usr/bin/vcgencmd"@,
        other@ == msg@,
{
}

// ------------------------------------------------------------------- machine

/// The answer of a tool that succeeded is its output without the white space
/// around it; one that failed has none.
pub proof fn law_tool_answer(
    a: Seq<char>,
    text: Seq<char>,
    b: Seq<char>,
    output: &str,
    good: Option<String>,
    bad: Option<String>,
)
    requires
        call_ensures(tool_answer, (true, output), good),
        call_ensures(tool_answer, (false, output), bad),
        blank(a) && blank(b),
        text.len() > 0 ==> !is_white(text[0]) && !is_white(text.last()),
        output@ == a + text + b,
    ensures
        good is Some && (good->0)@ == text,
        bad is None,
{
    law_trim(a, text, b);
}

/// A pattern stands for the entries that begin with what is before its star, or
/// for itself without a star; without a directory or a name it stands for
/// nothing.
pub proof fn law_glob_plan(prefix: Seq<char>, rest: Seq<char>, name: &str, r: GlobPlan, n: GlobPlan)
    requires
        call_ensures(glob_plan, (true, Some(name)), r),
        !prefix.contains('*'),
    ensures
        name@ == prefix + seq!['*'] + rest ==> (r matches GlobPlan::Entries { prefix: p } && p@
            == prefix),
        name@ == prefix ==> r is Itself,
        call_ensures(glob_plan, (false, Some(name)), n) ==> n is Nothing,
        call_ensures(glob_plan, (true, None), n) ==> n is Nothing,
{
    law_parted(prefix, '*', rest);
    if name@ == prefix + seq!['*'] + rest {
        assert(name@[prefix.len() as int] == '*');
    }
}

/// A pattern with a star is expanded to the paths of the entries that begin with
/// its prefix and to nothing else, sorted; one without a star to itself where that
/// exists.
pub proof fn law_expansion(
    system: &SystemProbe,
    plan: &GlobPlan,
    pattern: &str,
    there: bool,
    dir: &str,
    names: &Vec<String>,
    r: Vec<String>,
    path: Seq<char>,
)
    requires
        call_ensures(SystemProbe::glob, (system, plan, pattern, there, dir, names), r),
    ensures
        plan is Nothing ==> r@.len() == 0,
        plan is Itself && !there ==> r@.len() == 0,
        plan is Itself && there ==> r@.len() == 1 && r@[0]@ == pattern@,
        *plan matches GlobPlan::Entries { prefix } ==> (texts_of(r@).contains(path) <==> exists|
            i: int,
        |
            {
                &&& 0 <= i < names@.len()
                &&& prefix@.is_prefix_of((#[trigger] names@[i])@)
                &&& path == path_in(dir@, names@[i]@)
            }),
        forall|i: int, j: int|
            0 <= i < j < r@.len() ==> !sorts_before(#[trigger] r@[j]@, #[trigger] r@[i]@),
{
    broadcast use vstd::seq_lib::group_to_multiset_ensures;

    let paths = texts_of(r@);
    let all = texts_of(names@);
    assert(paths.len() == r@.len());
    assert(paths.to_multiset().len() == paths.len());
    assert forall|i: int, j: int| 0 <= i < j < r@.len() implies !sorts_before(
        #[trigger] r@[j]@,
        #[trigger] r@[i]@,
    ) by {
        assert(paths[i] == r@[i]@ && paths[j] == r@[j]@);
    }
    match *plan {
        GlobPlan::Nothing => {
            let none: Seq<Seq<char>> = seq![];
            assert(none.to_multiset().len() == none.len());
        },
        GlobPlan::Itself => {
            let itself = if there {
                seq![pattern@]
            } else {
                seq![]
            };
            assert(itself.to_multiset().len() == itself.len());
            if there {
                assert(itself.contains(itself[0]));
                assert(paths.to_multiset().count(pattern@) > 0);
                assert(paths.contains(pattern@));
                assert(paths[0] == r@[0]@);
            }
        },
        GlobPlan::Entries { prefix } => {
            law_glob_lists_the_entries(dir@, prefix@, all, paths, path);
            assert forall|i: int| 0 <= i < names@.len() implies #[trigger] all[i] == names@[i]@
                && (starts_with(all[i], prefix@) <==> prefix@.is_prefix_of(names@[i]@)) by {
                crate::laws::lemma_prefix(all[i], prefix@);
            }
            if exists|i: int|
                {
                    &&& 0 <= i < names@.len()
                    &&& prefix@.is_prefix_of((#[trigger] names@[i])@)
                    &&& path == path_in(dir@, names@[i]@)
                } {
                let i = choose|i: int|
                    {
                        &&& 0 <= i < names@.len()
                        &&& prefix@.is_prefix_of((#[trigger] names@[i])@)
                        &&& path == path_in(dir@, names@[i]@)
                    };
                assert(starts_with(all[i], prefix@) && path == path_in(dir@, all[i]));
            }
            if paths.contains(path) {
                let i = choose|i: int|
                    {
                        &&& 0 <= i < all.len()
                        &&& starts_with(#[trigger] all[i], prefix@)
                        &&& path == path_in(dir@, all[i])
                    };
                assert(prefix@.is_prefix_of(names@[i]@));
            }
        },
    }
}

/// A machine is supported when its model names a Raspberry Pi.
pub proof fn law_supported_machines<P: Probe>(
    probe: &P,
    system: &SystemProbe,
    supported: bool,
    model: &Option<String>,
    r: bool,
)
    requires
        call_ensures(SystemProbe::device_supported::<P>, (system, probe), supported),
        call_ensures(names_raspberry_pi, (model,), r),
    ensures
        exists|answer: Option<Seq<char>>|
            {
                &&& #[trigger] may_read(probe, "/proc/device-tree/model"@, answer)
                &&& supported <==> (answer matches Some(text) && holds_text(
                    text,
                    "Raspberry Pi"@,
                ))
            },
        r <==> (model matches Some(text) && holds_text(text@, "Raspberry Pi"@)),
{
}

/// The tool of a new probe is looked for in the place of the firmware's own.
pub proof fn law_new_probe(system: SystemProbe, path: &str)
    requires
        call_ensures(SystemProbe::new, (), system),
        call_ensures(SystemProbe::vcgencmd_path, (&system,), path),
    ensures
        path@ == "/usr/bin/vcgencmd"@,
{
}

/// A text reads as a word when it is the word with white space around it.
pub proof fn law_reading_a_word(
    a: Seq<char>,
    t: Seq<char>,
    b: Seq<char>,
    text: &Option<String>,
    word: &str,
    r: bool,
)
    requires
        call_ensures(reads_as, (text, word), r),
        blank(a) && blank(b),
        t.len() > 0 ==> !is_white(t[0]) && !is_white(t.last()),
    ensures
        text is None ==> !r,
        text is Some && (text->0)@ == a + t + b ==> (r <==> t == word@),
{
    law_trim(a, t, b);
}

// ------------------------------------------------------------------- answers

/// An answer such as `volt=0.8635V` says the number between its prefix and its
/// unit, whatever white space is around it; one without the prefix says nothing.
pub proof fn law_answer(
    a: Seq<char>,
    number: Seq<char>,
    unit: Seq<char>,
    b: Seq<char>,
    output: &str,
    prefix: &str,
    r: Option<Formula>,
)
    requires
        call_ensures(parse_gencmd_value, (output, prefix), r),
        blank(a) && blank(b),
        prefix@.len() > 0 && !is_white(prefix@[0]) && !is_white(
            (prefix@ + number + unit).last(),
        ),
        number.len() > 0 ==> '0' <= number.last() <= '9' || number.last() == '.',
        forall|i: int|
            0 <= i < unit.len() ==> !('0' <= #[trigger] unit[i] <= '9') && unit[i] != '.',
    ensures
        output@ == a + (prefix@ + number + unit) + b ==> r is Some && (r->0)@ == Term::Number(
            number,
        ),
        !prefix@.is_prefix_of(trim(output@)) ==> r is None,
{
    let s = prefix@ + number + unit;
    assert(s[0] == prefix@[0]);
    law_trim(a, s, b);
    law_trim(seq![], s, seq![]);
    assert(seq![] + s + seq![] =~= s);
    law_answer_number(prefix@, number, unit);
    law_strip_prefix(trim(output@), prefix@, number);
}

/// A temperature's answer says the number between `temp=` and its unit, in digits
/// of either width, whatever white space is around it.
pub proof fn law_temperature_answer(
    a: Seq<char>,
    wide: Seq<char>,
    number: Seq<char>,
    unit: Seq<char>,
    b: Seq<char>,
    output: &str,
    r: Option<Formula>,
)
    requires
        call_ensures(parse_gencmd_temp, (output,), r),
        blank(a) && blank(b),
        wide.len() == number.len(),
        !is_white(("temp="@ + wide + unit).last()),
        number.len() > 0 ==> '0' <= number.last() <= '9' || number.last() == '.',
        forall|i: int|
            0 <= i < number.len() ==> {
                ||| #[trigger] wide[i] == number[i] && !(0xff10 <= wide[i] as int <= 0xff19)
                ||| '0' <= number[i] <= '9' && wide[i] as int == number[i] as int - '0' as int
                    + 0xff10
            },
        forall|i: int|
            0 <= i < unit.len() ==> !('0' <= #[trigger] unit[i] <= '9') && unit[i] != '.' && !(
            0xff10 <= unit[i] as int <= 0xff19),
    ensures
        output@ == a + ("temp="@ + wide + unit) + b ==> r is Some && (r->0)@ == Term::Number(
            number,
        ),
        !"temp="@.is_prefix_of(trim(output@)) ==> r is None,
{
    reveal_strlit("temp=");
    let s = "temp="@ + wide + unit;
    assert(s[0] == "temp="@[0]);
    law_trim(a, s, b);
    law_trim(seq![], s, seq![]);
    assert(seq![] + s + seq![] =~= s);
    law_temperature_number(wide, number, unit);
    law_strip_prefix(trim(output@), "temp="@, number);
}

/// The firmware's health word is the hexadecimal number after `throttled=0x`, once
/// or again, or the whole answer without it, whatever white space is around the answer. What is
/// no such number is no health word.
pub proof fn law_health_word(
    a: Seq<char>,
    digits: Seq<char>,
    b: Seq<char>,
    text: &str,
    r: Option<ThrottleState>,
    bits: u32,
    state: ThrottleState,
)
    requires
        call_ensures(ThrottleState::from_hex, (text,), r),
        call_ensures(ThrottleState::from_bits, (bits,), state),
        blank(a) && blank(b),
        digits.len() > 0 && digits[0] != 't' && !is_white(digits.last()),
    ensures
        text@ == a + ("throttled=0x"@ + ("throttled=0x"@ + digits)) + b && hex_u32_of(digits)
            == Some(bits) ==> r == Some(state),
        text@ == a + ("throttled=0x"@ + digits) + b && hex_u32_of(digits) == Some(bits) ==> r
            == Some(state),
        text@ == a + ("throttled=0x"@ + digits) + b && hex_u32_of(digits) is None ==> r is None,
        !is_white(digits[0]) && text@ == a + digits + b && hex_u32_of(digits) == Some(bits) ==> r
            == Some(state),
        !is_white(digits[0]) && text@ == a + digits + b && hex_u32_of(digits) is None ==> r
            is None,
{
    reveal_strlit("throttled=0x");
    let prefix = "throttled=0x"@;
    let s = prefix + digits;
    assert(s[0] == prefix[0] && s.last() == digits.last());
    law_trim(a, s, b);
    if !is_white(digits[0]) {
        law_trim(a, digits, b);
    }
    let twice = prefix + s;
    assert(twice[0] == prefix[0] && twice.last() == digits.last());
    law_trim(a, twice, b);
    law_strip_prefix(digits, prefix, s);
    law_strip_prefix(digits, prefix, digits);
    assert(!prefix.is_prefix_of(digits)) by {
        if prefix.is_prefix_of(digits) {
            assert(digits.subrange(0, prefix.len() as int)[0] == digits[0]);
        }
    }
}

/// A text in millidegrees is read without the white space around it, the first
/// load and the seconds since boot are the first words of their texts, and a list
/// of numbers is all words in their order.
pub proof fn law_reading_words(
    raw: &str,
    degrees: Formula,
    load: Option<Formula>,
    seconds: Option<String>,
    all: Vec<Formula>,
    level: Vec<Formula>,
)
    requires
        call_ensures(parse_millidegrees, (raw,), degrees),
        call_ensures(parse_loadavg, (raw,), load),
        call_ensures(parse_uptime_secs, (raw,), seconds),
        call_ensures(word_numbers, (raw,), all),
        call_ensures(parse_rssi_dbm, (raw,), level),
    ensures
        degrees@ == Term::Thousandth(trim(raw@)),
        load is Some <==> words(raw@).len() > 0,
        load matches Some(f) ==> f@ == Term::Number(words(raw@)[0]),
        seconds is Some <==> words(raw@).len() > 0,
        seconds matches Some(text) ==> text@ == words(raw@)[0],
        all@.len() == words(raw@).len() && level@.len() == words(raw@).len(),
        forall|k: int|
            0 <= k < all@.len() ==> (#[trigger] all@[k])@ == Term::Number(words(raw@)[k]),
        forall|k: int|
            0 <= k < level@.len() ==> (#[trigger] level@[k])@ == Term::Number(words(raw@)[k]),
{
    assert(terms(all@).len() == all@.len() && terms(level@).len() == level@.len());
    assert(numbers(words(raw@)).len() == words(raw@).len());
    assert forall|k: int| 0 <= k < all@.len() implies (#[trigger] all@[k])@ == Term::Number(
        words(raw@)[k],
    ) by {
        assert(terms(all@)[k] == numbers(words(raw@))[k]);
    }
    assert forall|k: int| 0 <= k < level@.len() implies (#[trigger] level@[k])@ == Term::Number(
        words(raw@)[k],
    ) by {
        assert(terms(level@)[k] == numbers(words(raw@))[k]);
    }
}

} // verus!
