//! What the sensor readers promise, on the lines and words of what they read.

use vstd::prelude::*;

use crate::formula::{numbers, terms, Formula, Term};
use crate::laws::{busy_ticks, disk_at, names_a_disk, ticked};
use crate::laws_of_sweeps::{lemma_pick, lemma_pick_same, picks};
use crate::laws_of_text::{law_parted, law_strip_prefix};
use crate::sensors::{
    below_zero_in, core_line, core_times, counters, first_below_zero, lemma_first_line,
    lemma_found_line, level_line, meminfo_line, parse_diskstats_sectors, parse_meminfo_kb,
    parse_net_dev_bytes, parse_primary_disk, parse_primary_wireless, parse_wireless_level,
    primary_disk_line, total_of, whole_seconds, wireless_line, CpuTimes,
};
use crate::single::Single;
use crate::sweep::read_core_times;
use crate::text::{before_mark, digit, lemma_span, lines, span, trim, u64_of, words};

verus! {

// ------------------------------------------------------------------- meminfo

/// The count of a key is the first word after the colon of the first line that
/// has the key before its colon.
pub proof fn law_meminfo_line(
    raw: &str,
    key: &str,
    r: Option<u64>,
    i: int,
    name: Seq<char>,
    rest: Seq<char>,
)
    requires
        call_ensures(parse_meminfo_kb, (raw, key), r),
        0 <= i < lines(raw@).len(),
        lines(raw@)[i] == name + seq![':'] + rest,
        !name.contains(':'),
        trim(name) == key@,
        forall|j: int|
            0 <= j < i ==> !((#[trigger] lines(raw@)[j]).contains(':') && trim(
                before_mark(lines(raw@)[j], ':'),
            ) == key@),
    ensures
        words(rest).len() > 0 ==> r == u64_of(words(rest)[0]),
        words(rest).len() == 0 ==> r is None,
{
    let ls = lines(raw@);
    let pick = meminfo_line(key@);
    law_parted(name, ':', rest);
    assert forall|j: int| 0 <= j < i implies pick(#[trigger] ls[j]) is None by {
        lemma_marked(ls[j], ':');
    }
    lemma_first_line(ls, pick, i);
}

/// Without a line for a key there is no count.
pub proof fn law_meminfo_missing(raw: &str, key: &str, r: Option<u64>)
    requires
        call_ensures(parse_meminfo_kb, (raw, key), r),
        forall|j: int|
            0 <= j < lines(raw@).len() ==> !((#[trigger] lines(raw@)[j]).contains(':') && trim(
                before_mark(lines(raw@)[j], ':'),
            ) == key@),
    ensures
        r is None,
{
    let ls = lines(raw@);
    let pick = meminfo_line(key@);
    if r is Some {
        let i = lemma_found_line(ls, pick);
        lemma_marked(ls[i], ':');
    }
}

/// A text is parted at a mark exactly when it holds one.
proof fn lemma_marked(s: Seq<char>, mark: char)
    ensures
        crate::text::split_once(s, mark) is Some <==> s.contains(mark),
        crate::text::split_once(s, mark) matches Some(parts) ==> parts.0 == before_mark(s, mark),
{
    crate::text::lemma_span_holds(s, crate::text::other_than(mark));
    let n = span(s, crate::text::other_than(mark)) as int;
    if n >= s.len() {
        if s.contains(mark) {
            let i = choose|i: int| 0 <= i < s.len() && s[i] == mark;
            assert(crate::text::other_than(mark)(s[i]));
        }
    } else {
        assert(s[n] == mark);
    }
}

// --------------------------------------------------------------------- cores

/// The word in this place is a counter.
pub open spec fn countable(ws: Seq<Seq<char>>) -> spec_fn(int) -> bool {
    |i: int| u64_of(ws[i]) is Some
}

/// The numbers that the chosen words write down.
pub open spec fn chosen(ws: Seq<Seq<char>>, which: Seq<int>) -> Seq<u64> {
    Seq::new(which.len(), |k: int| u64_of(ws[which[k]])->0)
}

proof fn lemma_chosen(ws: Seq<Seq<char>>) -> (which: Seq<int>)
    ensures
        picks(which, ws.len() as int, countable(ws)),
        counters(ws) == chosen(ws, which),
    decreases ws.len(),
{
    let p = countable(ws);
    if ws.len() == 0 {
        let none: Seq<int> = seq![];
        assert(picks(none, 0, p));
        assert(counters(ws) =~= chosen(ws, none));
        none
    } else {
        let rest = ws.drop_last();
        let n = ws.len() - 1;
        let front = lemma_chosen(rest);
        lemma_pick_same(front, n, countable(rest), p);
        let which = lemma_pick(front, n, p);
        assert forall|k: int| 0 <= k < front.len() implies #[trigger] chosen(ws, which)[k]
            == chosen(rest, front)[k] by {
            assert(which[k] == front[k]);
            assert(ws[front[k]] == rest[front[k]]);
        }
        assert(counters(ws) =~= chosen(ws, which));
        which
    }
}

/// The counters of a core are the words that are numbers, in their order. Its
/// idle ticks are the fourth and the fifth of them together, and its total is the
/// sum of all, both as far as a 64-bit counter goes. With fewer than four there is
/// nothing to say.
pub proof fn law_core_counters(fields: &str, r: Option<CpuTimes>)
    requires
        call_ensures(CpuTimes::parse, (fields,), r),
    ensures
        exists|which: Seq<int>|
            {
                let x = chosen(words(fields@), which);
                &&& #[trigger] picks(
                    which,
                    words(fields@).len() as int,
                    countable(words(fields@)),
                )
                &&& x.len() < 4 <==> r is None
                &&& r matches Some(times) ==> {
                    let waiting: int = if x.len() > 4 {
                        x[4] as int
                    } else {
                        0
                    };
                    &&& times.idle as int == (x[3] + waiting) % 0x1_0000_0000_0000_0000
                    &&& times.total as int == x.fold_left(0int, |sum: int, n: u64| sum + n)
                        % 0x1_0000_0000_0000_0000
                }
            },
{
    let which = lemma_chosen(words(fields@));
    lemma_total(chosen(words(fields@), which));
}

proof fn lemma_total(x: Seq<u64>)
    ensures
        total_of(x) as int == x.fold_left(0int, |sum: int, n: u64| sum + n),
    decreases x.len(),
{
    reveal(Seq::fold_left);
    if x.len() > 0 {
        lemma_total(x.drop_last());
    }
}

/// Words that are no counters do not count.
pub proof fn law_other_words_do_not_count(a: Seq<Seq<char>>, w: Seq<char>, b: Seq<Seq<char>>)
    requires
        u64_of(w) is None,
    ensures
        counters(a + seq![w] + b) == counters(a + b),
    decreases b.len(),
{
    let s = a + seq![w] + b;
    if b.len() > 0 {
        let c = b.drop_last();
        law_other_words_do_not_count(a, w, c);
        assert(s.drop_last() =~= a + seq![w] + c);
        assert((a + b).drop_last() =~= a + c);
        assert(s.last() == b.last() && (a + b).last() == b.last());
    } else {
        assert(s.drop_last() =~= a + b);
        assert(s.last() == w);
    }
}

/// The busy share between two samples: the ticks that were not idle of all
/// ticks, where there were any and no counter went backwards.
pub proof fn law_busy_share(next: &CpuTimes, prev: &CpuTimes, r: Option<(u64, u64)>)
    requires
        call_ensures(CpuTimes::busy_share, (next, prev), r),
    ensures
        r is Some <==> ticked(*next, *prev),
        r matches Some(share) ==> share.0 == busy_ticks(*next, *prev) && share.1 == next.total
            - prev.total,
{
}

/// The utilization between two samples is the busy share.
pub proof fn law_utilization(next: &CpuTimes, prev: &CpuTimes, r: Option<Formula>)
    requires
        call_ensures(CpuTimes::utilization_since, (next, prev), r),
    ensures
        r is Some <==> ticked(*next, *prev),
        r matches Some(f) ==> (f@ matches Term::Share(part, whole) && part == busy_ticks(
            *next,
            *prev,
        ) && whole == next.total - prev.total),
{
}

/// The cores of a text are those of its lines one after the other.
pub proof fn law_core_lines(a: Seq<Seq<char>>, b: Seq<Seq<char>>)
    ensures
        core_times(a + b) == core_times(a) + core_times(b),
    decreases b.len(),
{
    if b.len() > 0 {
        law_core_lines(a, b.drop_last());
        assert((a + b).drop_last() =~= a + b.drop_last());
        assert((a + b).last() == b.last());
        assert(core_times(a + b) =~= core_times(a) + core_times(b));
    } else {
        assert(a + b =~= a);
        assert(core_times(a + b) =~= core_times(a) + core_times(b));
    }
}

/// A line is a core exactly when it starts with `cpu` and a digit and has at
/// least four counters after the digits; then these are the core's. The line of
/// all cores together, which has no digit there, is none.
pub proof fn law_core_line(index: Seq<char>, fields: &str, r: Option<CpuTimes>, line: Seq<char>)
    requires
        index.len() > 0,
        forall|i: int| 0 <= i < index.len() ==> '0' <= #[trigger] index[i] <= '9',
        fields@.len() > 0 ==> !('0' <= fields@[0] <= '9'),
        call_ensures(CpuTimes::parse, (fields,), r),
    ensures
        core_times(seq!["cpu"@ + index + fields@]) == match r {
            Some(times) => seq![times],
            None => seq![],
        },
        core_times(seq!["cpu"@ + fields@]) == Seq::<CpuTimes>::empty(),
        !"cpu"@.is_prefix_of(line) ==> core_times(seq![line]) == Seq::<CpuTimes>::empty(),
{
    reveal_strlit("cpu");
    law_strip_prefix("cpu"@ + fields@, "cpu"@, fields@);
    lemma_span(fields@, digit(), 0);
    lemma_one_line("cpu"@ + fields@);
    let l = "cpu"@ + index + fields@;
    let rest = index + fields@;
    assert(l =~= "cpu"@ + rest);
    law_strip_prefix(l, "cpu"@, rest);
    law_strip_prefix(line, "cpu"@, rest);
    assert forall|i: int| 0 <= i < index.len() implies digit()(#[trigger] rest[i]) by {
        assert(rest[i] == index[i]);
    }
    if fields@.len() > 0 {
        assert(rest[index.len() as int] == fields@[0]);
    }
    lemma_span(rest, digit(), index.len());
    assert(rest.skip(index.len() as int) =~= fields@);
    lemma_one_line(l);
    lemma_one_line(line);
}

proof fn lemma_one_line(l: Seq<char>)
    ensures
        core_times(seq![l]) == match core_line(l) {
            Some(times) => seq![times],
            None => seq![],
        },
{
    let ls = seq![l];
    assert(ls.drop_last() =~= seq![]);
    assert(core_times(ls.drop_last()) =~= seq![]);
    assert(ls.last() == l);
    assert(core_times(ls) =~= match core_line(l) {
        Some(times) => seq![times],
        None => seq![],
    });
}

/// The tick counters are those of the text's lines, and none without a text.
pub proof fn law_stat_text(stat: &Option<String>, r: Vec<CpuTimes>)
    requires
        call_ensures(read_core_times, (stat,), r),
    ensures
        *stat matches Some(raw) ==> r@ == core_times(lines(raw@)),
        *stat is None ==> r@.len() == 0,
{
}

// ------------------------------------------------------- disks and interfaces

/// The primary disk is what the third word of the first line with a whole
/// device names.
pub proof fn law_primary_disk(raw: &str, r: Option<String>)
    requires
        call_ensures(parse_primary_disk, (raw,), r),
    ensures
        forall|i: int| #[trigger]
            disk_at(lines(raw@), i) ==> r is Some && (r->0)@ == words(lines(raw@)[i])[2],
        r is None <==> forall|i: int|
            0 <= i < lines(raw@).len() ==> !names_a_disk(#[trigger] lines(raw@)[i]),
{
    let ls = lines(raw@);
    assert forall|k: int| 0 <= k < ls.len() implies (primary_disk_line()(#[trigger] ls[k]) is Some
        <==> names_a_disk(ls[k])) by {
        if words(ls[k]).len() > 2 {
            crate::laws::lemma_prefix(words(ls[k])[2], "nvme"@);
            crate::laws::lemma_prefix(words(ls[k])[2], "mmcblk"@);
        }
    }
    assert forall|i: int| #[trigger] disk_at(ls, i) implies r is Some && (r->0)@ == words(
        ls[i],
    )[2] by {
        lemma_first_line(ls, primary_disk_line(), i);
    }
    if r is Some {
        let i = lemma_found_line(ls, primary_disk_line());
        assert(names_a_disk(ls[i]));
    } else {
        lemma_none_found(ls, primary_disk_line());
    }
}

proof fn lemma_none_found<T>(ls: Seq<Seq<char>>, pick: spec_fn(Seq<char>) -> Option<T>)
    requires
        crate::sensors::find_line(ls, pick) is None,
    ensures
        forall|i: int| 0 <= i < ls.len() ==> pick(#[trigger] ls[i]) is None,
    decreases ls.len(),
{
    if ls.len() > 0 {
        lemma_none_found(ls.drop_first(), pick);
        assert forall|i: int| 0 <= i < ls.len() implies pick(#[trigger] ls[i]) is None by {
            if i > 0 {
                assert(ls.drop_first()[i - 1] == ls[i]);
            }
        }
    }
}

/// The sectors of a disk are the sixth and the tenth word of the first line that
/// has its name as the third; without both there are none.
pub proof fn law_disk_sectors(raw: &str, device: &str, r: Option<(u64, u64)>, i: int)
    requires
        call_ensures(parse_diskstats_sectors, (raw, device), r),
        0 <= i < lines(raw@).len(),
        words(lines(raw@)[i]).len() > 2,
        words(lines(raw@)[i])[2] == device@,
        forall|j: int|
            0 <= j < i ==> !(words(#[trigger] lines(raw@)[j]).len() > 2 && words(
                lines(raw@)[j],
            )[2] == device@),
    ensures
        ({
            let ws = words(lines(raw@)[i]);
            &&& r is Some <==> ws.len() > 9 && u64_of(ws[5]) is Some && u64_of(ws[9]) is Some
            &&& r matches Some(sectors) ==> u64_of(ws[5]) == Some(sectors.0) && u64_of(ws[9])
                == Some(sectors.1)
        }),
{
    lemma_first_line(lines(raw@), crate::sensors::diskstats_line(device@), i);
}

/// The name of a line, which stands before its first colon, starts with `wl`.
pub open spec fn names_wireless(line: Seq<char>) -> bool {
    "wl"@.is_prefix_of(trim(before_mark(line, ':')))
}

/// The primary wireless interface is the name of the first line whose name starts
/// with `wl`; without such a line there is none.
pub proof fn law_primary_wireless(raw: &str, r: Option<String>, i: int)
    requires
        call_ensures(parse_primary_wireless, (raw,), r),
    ensures
        0 <= i < lines(raw@).len() && names_wireless(lines(raw@)[i]) && (forall|j: int|
            0 <= j < i ==> !names_wireless(#[trigger] lines(raw@)[j])) ==> r is Some && (r->0)@
            == trim(before_mark(lines(raw@)[i], ':')),
        (forall|j: int|
            0 <= j < lines(raw@).len() ==> !names_wireless(#[trigger] lines(raw@)[j]))
            ==> r is None,
{
    let ls = lines(raw@);
    assert forall|k: int| 0 <= k < ls.len() implies (wireless_line()(#[trigger] ls[k]) is Some
        <==> names_wireless(ls[k])) by {
        crate::laws::lemma_prefix(trim(before_mark(ls[k], ':')), "wl"@);
    }
    if 0 <= i < ls.len() && names_wireless(ls[i]) && (forall|j: int|
        0 <= j < i ==> !names_wireless(#[trigger] ls[j])) {
        lemma_first_line(ls, wireless_line(), i);
    }
    if r is Some {
        let k = lemma_found_line(ls, wireless_line());
        assert(names_wireless(ls[k]));
    }
}

/// The line is that of an interface: it has a colon, and the name before it.
pub open spec fn is_line_of(line: Seq<char>, iface: Seq<char>) -> bool {
    line.contains(':') && trim(before_mark(line, ':')) == iface
}

/// The bytes received and sent are the first and the ninth of the numbers after
/// the colon of the interface's first line; without nine there are none.
pub proof fn law_interface_bytes(
    raw: &str,
    iface: &str,
    r: Option<(u64, u64)>,
    i: int,
    name: Seq<char>,
    rest: Seq<char>,
)
    requires
        call_ensures(parse_net_dev_bytes, (raw, iface), r),
        0 <= i < lines(raw@).len(),
        lines(raw@)[i] == name + seq![':'] + rest,
        !name.contains(':'),
        trim(name) == iface@,
        forall|j: int| 0 <= j < i ==> !is_line_of(#[trigger] lines(raw@)[j], iface@),
    ensures
        exists|which: Seq<int>|
            {
                let x = chosen(words(rest), which);
                &&& #[trigger] picks(which, words(rest).len() as int, countable(words(rest)))
                &&& r is Some <==> x.len() > 8
                &&& r matches Some(bytes) ==> bytes.0 == x[0] && bytes.1 == x[8]
            },
{
    let ls = lines(raw@);
    let pick = crate::sensors::net_dev_line(iface@);
    law_parted(name, ':', rest);
    assert forall|j: int| 0 <= j < i implies pick(#[trigger] ls[j]) is None by {
        lemma_marked(ls[j], ':');
    }
    let which = lemma_chosen(words(rest));
    lemma_first_line(ls, pick, i);
}

/// Of an interface or a disk without a line nothing is counted.
pub proof fn law_nothing_to_count(
    raw: &str,
    name: &str,
    bytes: Option<(u64, u64)>,
    sectors: Option<(u64, u64)>,
)
    requires
        call_ensures(parse_net_dev_bytes, (raw, name), bytes),
        call_ensures(parse_diskstats_sectors, (raw, name), sectors),
    ensures
        (forall|j: int|
            0 <= j < lines(raw@).len() ==> !is_line_of(#[trigger] lines(raw@)[j], name@))
            ==> bytes is None,
        (forall|j: int|
            0 <= j < lines(raw@).len() ==> !(words(#[trigger] lines(raw@)[j]).len() > 2 && words(
                lines(raw@)[j],
            )[2] == name@)) ==> sectors is None,
{
    let ls = lines(raw@);
    if bytes is Some {
        let i = lemma_found_line(ls, crate::sensors::net_dev_line(name@));
        lemma_marked(ls[i], ':');
        assert(is_line_of(ls[i], name@));
    }
    if sectors is Some {
        let i = lemma_found_line(ls, crate::sensors::diskstats_line(name@));
        assert(words(ls[i]).len() > 2 && words(ls[i])[2] == name@);
    }
}

/// The candidates for the Wi-Fi level are the words of the first line whose name
/// starts with `wl`, one after the other; without such a line there are none.
pub proof fn law_level_candidates(raw: &str, r: Vec<Formula>, i: int)
    requires
        call_ensures(parse_wireless_level, (raw,), r),
    ensures
        0 <= i < lines(raw@).len() && names_wireless(lines(raw@)[i]) && (forall|j: int|
            0 <= j < i ==> !names_wireless(#[trigger] lines(raw@)[j])) ==> {
            let ws = words(trim(lines(raw@)[i]));
            &&& r@.len() == ws.len()
            &&& forall|k: int|
                0 <= k < ws.len() ==> (#[trigger] r@[k])@ == Term::Number(ws[k])
        },
        (forall|j: int|
            0 <= j < lines(raw@).len() ==> !names_wireless(#[trigger] lines(raw@)[j]))
            ==> r@.len() == 0,
{
    let ls = lines(raw@);
    assert(terms(r@).len() == r@.len());
    assert forall|k: int| 0 <= k < ls.len() implies (level_line()(#[trigger] ls[k]) is Some
        <==> names_wireless(ls[k])) by {
        crate::laws::lemma_prefix(trim(before_mark(ls[k], ':')), "wl"@);
    }
    if 0 <= i < ls.len() && names_wireless(ls[i]) && (forall|j: int|
        0 <= j < i ==> !names_wireless(#[trigger] ls[j])) {
        lemma_first_line(ls, level_line(), i);
        let ws = words(trim(ls[i]));
        assert(terms(r@).len() == numbers(ws).len());
        assert forall|k: int| 0 <= k < ws.len() implies (#[trigger] r@[k])@ == Term::Number(
            ws[k],
        ) by {
            assert(terms(r@)[k] == numbers(ws)[k]);
        }
    }
    if crate::sensors::find_line(ls, level_line()) is Some {
        let k = lemma_found_line(ls, level_line());
        assert(names_wireless(ls[k]));
    }
}

/// The Wi-Fi level is the first candidate below zero.
pub proof fn law_level_is_the_first(values: &Vec<Option<Single>>, r: Option<Single>, i: int)
    requires
        call_ensures(first_below_zero, (values,), r),
        0 <= i < values@.len(),
        values@[i] matches Some(v) && v.below_zero(),
        forall|j: int|
            0 <= j < i ==> ((#[trigger] values@[j]) matches Some(v) ==> !v.below_zero()),
    ensures
        r == values@[i],
{
    lemma_first_below(values@, i);
}

proof fn lemma_first_below(values: Seq<Option<Single>>, i: int)
    requires
        0 <= i < values.len(),
        values[i] matches Some(v) && v.below_zero(),
        forall|j: int| 0 <= j < i ==> ((#[trigger] values[j]) matches Some(v) ==> !v.below_zero()),
    ensures
        below_zero_in(values) == values[i],
    decreases values.len(),
{
    if i > 0 {
        let rest = values.drop_first();
        assert(rest[i - 1] == values[i]);
        assert(!(values[0] matches Some(v) && v.below_zero()));
        assert forall|j: int| 0 <= j < i - 1 implies ((#[trigger] rest[j]) matches Some(v)
            ==> !v.below_zero()) by {
            assert(rest[j] == values[j + 1]);
        }
        lemma_first_below(rest, i - 1);
    }
}

/// Without a candidate below zero there is no Wi-Fi level.
pub proof fn law_no_level(values: &Vec<Option<Single>>, r: Option<Single>)
    requires
        call_ensures(first_below_zero, (values,), r),
        forall|j: int|
            0 <= j < values@.len() ==> ((#[trigger] values@[j]) matches Some(v)
                ==> !v.below_zero()),
    ensures
        r is None,
{
    lemma_none_below(values@);
}

proof fn lemma_none_below(values: Seq<Option<Single>>)
    requires
        forall|j: int|
            0 <= j < values.len() ==> ((#[trigger] values[j]) matches Some(v) ==> !v.below_zero()),
    ensures
        below_zero_in(values) is None,
    decreases values.len(),
{
    if values.len() > 0 {
        let rest = values.drop_first();
        assert(!(values[0] matches Some(v) && v.below_zero()));
        assert forall|j: int| 0 <= j < rest.len() implies ((#[trigger] rest[j]) matches Some(v)
            ==> !v.below_zero()) by {
            assert(rest[j] == values[j + 1]);
        }
        lemma_none_below(rest);
    }
}

/// The seconds since boot are the rounded-down ones, unless they are negative.
pub proof fn law_whole_seconds(floor: i64, r: Option<u64>)
    requires
        call_ensures(whole_seconds, (floor,), r),
    ensures
        floor >= 0 ==> (r matches Some(secs) && secs as int == floor as int),
        floor < 0 ==> r is None,
{
}

} // verus!
