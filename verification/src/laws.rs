//! What the operations promise, stated on their inputs and results.
//!
//! Each law speaks of what a function may return ([`call_ensures`]) or of one
//! sweep, and says in numbers, fields and texts what follows.

use std::time::Instant;

use vstd::prelude::*;

use crate::board::{health_at, Health};
use crate::formula::{Formula, Term};
use crate::laws_of_sweeps::{lemma_known, picks, valued};
use crate::probe::Probe;
use crate::sensors::{
    counters, diskstats_line, lemma_first_line, lemma_found_line, meminfo_kb, net_dev_line,
    primary_disk_line, whole_disk, wireless_line, CpuTimes,
};
use crate::single::Single;
use crate::snapshot::{
    highest, known, law_highest_bounds, law_highest_occurs, temperatures, MemoryInfo, Snapshot,
};
use crate::sweep::{
    disk_count, measured_shares, ms_between, nanoseconds, net_count, parse_memory_info,
    span_between, stat_times, Clock, Count, Pass, Pending, Sweeper,
};
use crate::text::{
    before_mark, join, lemma_span, lines, other_than, split_once, starts_with, text_of, trim,
    u64_of, words,
};
use crate::throttle::ThrottleState;

verus! {

// ---------------------------------------------------------------- throttling

/// Each condition of a health word stands for its own bit.
pub proof fn law_each_condition_has_its_bit(bits: u32, state: ThrottleState)
    requires
        call_ensures(ThrottleState::from_bits, (bits,), state),
    ensures
        state.undervolted_now <==> bits & 0x1 != 0,
        state.freq_capped_now <==> bits & 0x2 != 0,
        state.throttled_now <==> bits & 0x4 != 0,
        state.soft_temp_limit_now <==> bits & 0x8 != 0,
        state.undervolted_past <==> bits & 0x1_0000 != 0,
        state.freq_capped_past <==> bits & 0x2_0000 != 0,
        state.throttled_past <==> bits & 0x4_0000 != 0,
        state.soft_temp_limit_past <==> bits & 0x8_0000 != 0,
        state.other_past <==> bits & 0xf0_0000 != 0,
{
    assert(1u32 << 0u32 == 0x1) by (bit_vector);
    assert(1u32 << 1u32 == 0x2) by (bit_vector);
    assert(1u32 << 2u32 == 0x4) by (bit_vector);
    assert(1u32 << 3u32 == 0x8) by (bit_vector);
    assert(1u32 << 16u32 == 0x1_0000) by (bit_vector);
    assert(1u32 << 17u32 == 0x2_0000) by (bit_vector);
    assert(1u32 << 18u32 == 0x4_0000) by (bit_vector);
    assert(1u32 << 19u32 == 0x8_0000) by (bit_vector);
}

/// A summary names each condition by its own word: the live ones while there
/// are any, otherwise those since boot.
pub proof fn law_summary_names_the_conditions(state: &ThrottleState, r: String)
    requires
        call_ensures(ThrottleState::describe, (state,), r),
    ensures
        ({
            let live = (if state.undervolted_now {
                seq!["undervoltage"@]
            } else {
                seq![]
            }) + (if state.freq_capped_now {
                seq!["freq capped"@]
            } else {
                seq![]
            }) + (if state.throttled_now {
                seq!["throttled"@]
            } else {
                seq![]
            }) + (if state.soft_temp_limit_now {
                seq!["soft temp limit"@]
            } else {
                seq![]
            });
            let past = (if state.undervolted_past {
                seq!["undervoltage"@]
            } else {
                seq![]
            }) + (if state.freq_capped_past {
                seq!["freq cap"@]
            } else {
                seq![]
            }) + (if state.throttled_past {
                seq!["throttle"@]
            } else {
                seq![]
            }) + (if state.soft_temp_limit_past {
                seq!["soft temp"@]
            } else {
                seq![]
            }) + (if state.other_past {
                seq!["other"@]
            } else {
                seq![]
            });
            &&& live.len() > 0 ==> r@ == "throttling now: "@ + join(live, ", "@)
            &&& live.len() == 0 && past.len() > 0 ==> r@ == "since boot: "@ + join(past, ", "@)
            &&& live.len() == 0 && past.len() == 0 ==> r@ == "healthy"@
        }),
{
}

/// What is active now is one of the four live conditions; what has happened
/// since boot is one of those or of the sticky ones.
pub proof fn law_events(state: &ThrottleState, active: bool, any: bool)
    requires
        call_ensures(ThrottleState::active_now, (state,), active),
        call_ensures(ThrottleState::any_event, (state,), any),
    ensures
        active <==> state.undervolted_now || state.freq_capped_now || state.throttled_now
            || state.soft_temp_limit_now,
        any <==> active || state.undervolted_past || state.freq_capped_past
            || state.throttled_past || state.soft_temp_limit_past || state.other_past,
{
}

// -------------------------------------------------------------- temperatures

/// A value is a number where there is one.
pub open spec fn number_if_any(t: Option<Single>) -> bool {
    t matches Some(v) ==> !v.nan()
}

/// Every temperature of the snapshot is a number.
pub open spec fn all_numbers(s: Snapshot) -> bool {
    &&& number_if_any(s.soc_temp_c)
    &&& number_if_any(s.nvme_temp_c)
    &&& number_if_any(s.rp1_temp_c)
    &&& number_if_any(s.pmic_temp_c)
    &&& forall|i: int|
        0 <= i < s.extra_zones_c@.len() ==> !(#[trigger] s.extra_zones_c@[i]).1.nan()
}

/// Some temperature of the snapshot, of the board or of an extra zone, is at
/// least `n` degrees.
pub open spec fn some_temperature_reaches(s: Snapshot, n: int) -> bool {
    ||| s.soc_temp_c matches Some(t) && t.reaches(n)
    ||| s.nvme_temp_c matches Some(t) && t.reaches(n)
    ||| s.rp1_temp_c matches Some(t) && t.reaches(n)
    ||| s.pmic_temp_c matches Some(t) && t.reaches(n)
    ||| exists|i: int|
        0 <= i < s.extra_zones_c@.len() && (#[trigger] s.extra_zones_c@[i]).1.reaches(n)
}

/// The value is at least each of the snapshot's temperatures, and one of them.
pub open spec fn tops_the_fields(s: Snapshot, r: Option<Single>) -> bool {
    &&& s.soc_temp_c matches Some(t) ==> (r matches Some(m) && m.ge(t))
    &&& s.nvme_temp_c matches Some(t) ==> (r matches Some(m) && m.ge(t))
    &&& s.rp1_temp_c matches Some(t) ==> (r matches Some(m) && m.ge(t))
    &&& s.pmic_temp_c matches Some(t) ==> (r matches Some(m) && m.ge(t))
    &&& forall|i: int|
        0 <= i < s.extra_zones_c@.len() ==> (r matches Some(m) && m.ge(
            (#[trigger] s.extra_zones_c@[i]).1,
        ))
    &&& r matches Some(m) ==> {
        ||| s.soc_temp_c == Some(m)
        ||| s.nvme_temp_c == Some(m)
        ||| s.rp1_temp_c == Some(m)
        ||| s.pmic_temp_c == Some(m)
        ||| exists|i: int|
            0 <= i < s.extra_zones_c@.len() && (#[trigger] s.extra_zones_c@[i]).1 == m
    }
}

/// The highest temperature is at least each of the snapshot's temperatures, and
/// is one of them.
pub proof fn law_highest_of_the_fields(s: &Snapshot, r: Option<Single>)
    requires
        call_ensures(Snapshot::max_temp_c, (s,), r),
        all_numbers(*s),
    ensures
        tops_the_fields(*s, r),
{
    lemma_highest_of_the_fields(*s);
}

proof fn lemma_highest_of_the_fields(s: Snapshot)
    requires
        all_numbers(s),
    ensures
        tops_the_fields(s, highest(temperatures(s))),
{
    let r = highest(temperatures(s));
    let cells = seq![s.soc_temp_c, s.nvme_temp_c, s.rp1_temp_c, s.pmic_temp_c];
    assert(cells[0] == s.soc_temp_c && cells[1] == s.nvme_temp_c && cells[2] == s.rp1_temp_c
        && cells[3] == s.pmic_temp_c);
    let board = known(cells);
    let all = temperatures(s);
    assert forall|k: int| 0 <= k < all.len() implies !(#[trigger] all[k]).nan() by {
        if k < board.len() {
            assert(all[k] == board[k]);
            let i = lemma_known_from(cells, k);
            assert(number_if_any(cells[i]));
        } else {
            assert(all[k] == s.extra_zones_c@[k - board.len()].1);
        }
    }
    assert forall|i: int| 0 <= i < 4 && (#[trigger] cells[i]) is Some implies (r matches Some(m)
        && m.ge(cells[i]->0)) by {
        let k = lemma_known_holds(cells, i);
        assert(all[k] == board[k]);
        law_highest_bounds(all, k);
    }
    assert forall|i: int| 0 <= i < s.extra_zones_c@.len() implies (r matches Some(m) && m.ge(
        (#[trigger] s.extra_zones_c@[i]).1,
    )) by {
        assert(all[board.len() + i] == s.extra_zones_c@[i].1);
        law_highest_bounds(all, board.len() + i);
    }
    law_highest_occurs(all);
    if let Some(m) = r {
        let k = choose|k: int| 0 <= k < all.len() && all[k] == m;
        assert(all[k] == m);
        if k < board.len() {
            assert(all[k] == board[k]);
            let i = lemma_known_from(cells, k);
        } else {
            assert(all[k] == s.extra_zones_c@[k - board.len()].1);
        }
    }
}

/// `all` are the snapshot's temperatures: of the board's those that are there,
/// then those of the extra zones.
pub open spec fn lists_the_fields(s: Snapshot, which: Seq<int>, all: Seq<Single>) -> bool {
    let board = seq![s.soc_temp_c, s.nvme_temp_c, s.rp1_temp_c, s.pmic_temp_c];
    &&& picks(which, 4, valued(board))
    &&& all.len() == which.len() + s.extra_zones_c@.len()
    &&& forall|k: int| 0 <= k < which.len() ==> Some(#[trigger] all[k]) == board[which[k]]
    &&& forall|k: int|
        0 <= k < s.extra_zones_c@.len() ==> #[trigger] all[which.len() + k]
            == s.extra_zones_c@[k].1
}

/// The value in a place is at least all that come after it and, from some place
/// on, all that stand between; none of these is as high as it.
pub open spec fn wins(all: Seq<Single>, from: int, i: int) -> bool {
    &&& 0 <= from <= i < all.len()
    &&& forall|j: int| i < j < all.len() ==> all[i].ge(#[trigger] all[j])
    &&& forall|j: int| from <= j < i ==> !(#[trigger] all[j]).ge(all[i])
}

/// The highest temperature is the first of those that are highest. One that is
/// not a number hides what came before it and gives way to what comes after.
pub proof fn law_highest_in_order(s: &Snapshot, r: Option<Single>)
    requires
        call_ensures(Snapshot::max_temp_c, (s,), r),
    ensures
        exists|which: Seq<int>, all: Seq<Single>|
            {
                &&& #[trigger] lists_the_fields(*s, which, all)
                &&& r is Some <==> all.len() > 0
                &&& r matches Some(m) ==> exists|from: int, i: int|
                    {
                        &&& #[trigger] wins(all, from, i)
                        &&& m == all[i]
                        &&& from > 0 ==> all[from - 1].nan() || all[i].nan()
                    }
            },
{
    let board = seq![s.soc_temp_c, s.nvme_temp_c, s.rp1_temp_c, s.pmic_temp_c];
    let which = lemma_known(board);
    let all = temperatures(*s);
    let known_ones = known(board);
    assert forall|k: int| 0 <= k < which.len() implies Some(#[trigger] all[k])
        == board[which[k]] by {
        assert(all[k] == known_ones[k]);
    }
    assert(lists_the_fields(*s, which, all));
    law_highest_occurs(all);
    if all.len() > 0 {
        let (from, i) = lemma_winner(all);
        assert(wins(all, from, i));
    }
}

proof fn lemma_winner(all: Seq<Single>) -> (r: (int, int))
    requires
        all.len() > 0,
    ensures
        wins(all, r.0, r.1),
        highest(all) == Some(all[r.1]),
        r.0 > 0 ==> all[r.0 - 1].nan() || all[r.1].nan(),
    decreases all.len(),
{
    let front = all.drop_last();
    let n = all.len() - 1;
    if front.len() == 0 {
        assert(highest(front) is None);
        (0, 0)
    } else {
        let (from, i) = lemma_winner(front);
        assert(front[i] == all[i]);
        if all[i].ge(all[n]) {
            assert forall|j: int| i < j < all.len() implies all[i].ge(#[trigger] all[j]) by {
                if j < n {
                    assert(front[j] == all[j]);
                }
            }
            assert forall|j: int| from <= j < i implies !(#[trigger] all[j]).ge(all[i]) by {
                assert(front[j] == all[j]);
            }
            (from, i)
        } else if all[n].nan() || all[i].nan() {
            if i < n - 1 {
                assert(front[i].ge(front[n - 1]));
            }
            (n, n)
        } else {
            assert forall|j: int| from <= j < n implies !(#[trigger] all[j]).ge(all[n]) by {
                assert(front[j] == all[j]);
                if j > i {
                    assert(front[i].ge(front[j]));
                }
            }
            if from > 0 {
                assert(front[from - 1] == all[from - 1]);
            }
            (from, n)
        }
    }
}

/// The badge goes by the highest temperature: red from 85 degrees on, at least
/// yellow from 75 on.
pub proof fn law_health_by_the_highest(s: &Snapshot, highest: Option<Single>, r: Health)
    requires
        call_ensures(Snapshot::max_temp_c, (s,), highest),
        call_ensures(health_at, (s,), r),
    ensures
        ({
            let t = s.throttle;
            let live = t.undervolted_now || t.freq_capped_now || t.throttled_now
                || t.soft_temp_limit_now;
            let past = t.undervolted_past || t.freq_capped_past || t.throttled_past
                || t.soft_temp_limit_past || t.other_past;
            let critical = highest matches Some(m) && m.reaches(85);
            let hot = highest matches Some(m) && m.reaches(75);
            &&& r == Health::Alert <==> live || critical
            &&& r == Health::Warn <==> !live && !critical && (hot || past)
            &&& r == Health::Healthy <==> !live && !critical && !hot && !past
        }),
{
}

/// A value that is known stands among the known ones.
proof fn lemma_known_holds(values: Seq<Option<Single>>, i: int) -> (k: int)
    requires
        0 <= i < values.len(),
        values[i] is Some,
    ensures
        0 <= k < known(values).len(),
        Some(known(values)[k]) == values[i],
    decreases values.len(),
{
    if i == values.len() - 1 {
        known(values).len() - 1
    } else {
        let k = lemma_known_holds(values.drop_last(), i);
        k
    }
}

/// A known value stands somewhere in the list.
proof fn lemma_known_from(values: Seq<Option<Single>>, k: int) -> (i: int)
    requires
        0 <= k < known(values).len(),
    ensures
        0 <= i < values.len(),
        values[i] == Some(known(values)[k]),
    decreases values.len(),
{
    if values.last() is Some && k == known(values).len() - 1 {
        values.len() - 1
    } else {
        lemma_known_from(values.drop_last(), k)
    }
}

/// The badge is red exactly while a throttle condition is live or some
/// temperature is at 85 degrees or above, and green exactly when nothing has
/// happened since boot and no temperature is at 75 degrees or above.
pub proof fn law_health_of_the_fields(s: &Snapshot, r: Health)
    requires
        call_ensures(health_at, (s,), r),
        all_numbers(*s),
    ensures
        ({
            let t = s.throttle;
            let live = t.undervolted_now || t.freq_capped_now || t.throttled_now
                || t.soft_temp_limit_now;
            let past = t.undervolted_past || t.freq_capped_past || t.throttled_past
                || t.soft_temp_limit_past || t.other_past;
            &&& r == Health::Alert <==> live || some_temperature_reaches(*s, 85)
            &&& r == Health::Healthy <==> !live && !past && !some_temperature_reaches(*s, 75)
        }),
{
    let peak = highest(temperatures(*s));
    lemma_highest_of_the_fields(*s);
    lemma_reaching(*s, peak, 85);
    lemma_reaching(*s, peak, 75);
    if let Some(m) = peak {
        if m.reaches(85) {
            lemma_reaches_less(m, 85, 75);
        }
    }
}

proof fn lemma_reaches_less(t: Single, n: int, m: int)
    requires
        t.reaches(n),
        m <= n,
    ensures
        t.reaches(m),
{
    let p = vstd::arithmetic::power2::pow2(149);
    vstd::arithmetic::power2::lemma_pow2_pos(149);
    assert(m * p <= n * p) by (nonlinear_arith)
        requires
            m <= n,
            p > 0,
    ;
}

proof fn lemma_reaching(s: Snapshot, peak: Option<Single>, n: int)
    requires
        tops_the_fields(s, peak),
    ensures
        (peak matches Some(m) && m.reaches(n)) <==> some_temperature_reaches(s, n),
{
    if let Some(m) = peak {
        if m.reaches(n) {
            if exists|i: int|
                0 <= i < s.extra_zones_c@.len() && (#[trigger] s.extra_zones_c@[i]).1 == m {
                let i = choose|i: int|
                    0 <= i < s.extra_zones_c@.len() && (#[trigger] s.extra_zones_c@[i]).1 == m;
                assert(s.extra_zones_c@[i].1.reaches(n));
            }
        }
    }
}

// -------------------------------------------------------------------- memory

/// Without a total, or with one of zero, there are no memory gauges; otherwise
/// they are parts of the total: what is not available is in use.
pub proof fn law_memory_gauges(raw: &str, r: Option<MemoryInfo<Formula>>)
    requires
        call_ensures(parse_memory_info, (raw,), r),
    ensures
        r is Some <==> (meminfo_kb(raw@, "MemTotal"@) matches Some(t) && t > 0),
        r matches Some(m) ==> {
            let t = meminfo_kb(raw@, "MemTotal"@)->0;
            let free = match meminfo_kb(raw@, "MemAvailable"@) {
                Some(n) => n as int,
                None => 0,
            };
            let used: u64 = if free <= t {
                (t - free) as u64
            } else {
                0
            };
            &&& m.used_pct@ == Term::Percent(used, t)
            &&& m.used_mib@ == Term::Mebibytes(used)
            &&& m.total_mib@ == Term::Mebibytes(t)
        },
{
}

/// The buffer/cache gauge is what buffers and page cache hold together, of the
/// total, and never more than that.
pub proof fn law_cache_gauge(raw: &str, r: Option<MemoryInfo<Formula>>, b: u64, c: u64, t: u64)
    requires
        call_ensures(parse_memory_info, (raw,), r),
        meminfo_kb(raw@, "Buffers"@) == Some(b),
        meminfo_kb(raw@, "Cached"@) == Some(c),
        meminfo_kb(raw@, "MemTotal"@) == Some(t),
        0 < t,
    ensures
        b + c <= t ==> (r matches Some(m) && m.buff_cache_pct@ == Term::Percent((b + c) as u64, t)),
        b + c > t ==> (r matches Some(m) && m.buff_cache_pct@ == Term::Percent(t, t)),
{
}

/// Of buffers and page cache a missing one counts as zero.
pub proof fn law_cache_gauge_of_one(raw: &str, r: Option<MemoryInfo<Formula>>, n: u64, t: u64)
    requires
        call_ensures(parse_memory_info, (raw,), r),
        meminfo_kb(raw@, "MemTotal"@) == Some(t),
        0 < t,
    ensures
        ({
            let one = (meminfo_kb(raw@, "Buffers"@) == Some(n) && meminfo_kb(raw@, "Cached"@)
                is None) || (meminfo_kb(raw@, "Buffers"@) is None && meminfo_kb(raw@, "Cached"@)
                == Some(n));
            &&& one && n <= t ==> (r matches Some(m) && m.buff_cache_pct@ == Term::Percent(n, t))
            &&& one && n > t ==> (r matches Some(m) && m.buff_cache_pct@ == Term::Percent(t, t))
        }),
        meminfo_kb(raw@, "Buffers"@) is None && meminfo_kb(raw@, "Cached"@) is None ==> (
        r matches Some(m) && m.buff_cache_pct@ == Term::Percent(0, t)),
{
}

/// Of two texts that differ in the page cache by `d`, the buffer/cache gauges
/// differ by `d`.
pub proof fn law_cache_gauge_rises(
    raw: &str,
    more: &str,
    r: Option<MemoryInfo<Formula>>,
    q: Option<MemoryInfo<Formula>>,
    c: u64,
    d: u64,
)
    requires
        call_ensures(parse_memory_info, (raw,), r),
        call_ensures(parse_memory_info, (more,), q),
        meminfo_kb(raw@, "MemTotal"@) == meminfo_kb(more@, "MemTotal"@),
        meminfo_kb(raw@, "Buffers"@) == meminfo_kb(more@, "Buffers"@),
        meminfo_kb(raw@, "Cached"@) == Some(c),
        c + d <= u64::MAX,
        meminfo_kb(more@, "Cached"@) == Some((c + d) as u64),
        meminfo_kb(raw@, "MemTotal"@) matches Some(t) && t > 0 && (match meminfo_kb(
            raw@,
            "Buffers"@,
        ) {
            Some(b) => b + c + d <= t,
            None => c + d <= t,
        }),
    ensures
        ({
            &&& r matches Some(m)
            &&& m.buff_cache_pct@ matches Term::Percent(part, whole)
            &&& q matches Some(n)
            &&& n.buff_cache_pct@ == Term::Percent((part + d) as u64, whole)
        }),
{
}

/// The swap gauge is what of the swap is not free; there is one exactly where
/// both figures are there and there is swap.
pub proof fn law_swap_gauge(raw: &str, r: Option<MemoryInfo<Formula>>)
    requires
        call_ensures(parse_memory_info, (raw,), r),
        r is Some,
    ensures
        r->0.swap_used_pct is Some <==> (meminfo_kb(raw@, "SwapTotal"@) matches Some(t) && t > 0
            && meminfo_kb(raw@, "SwapFree"@) is Some),
        r->0.swap_used_pct matches Some(gauge) ==> {
            let t = meminfo_kb(raw@, "SwapTotal"@)->0;
            let free = meminfo_kb(raw@, "SwapFree"@)->0;
            &&& free <= t ==> gauge@ == Term::Percent((t - free) as u64, t)
            &&& free > t ==> gauge@ == Term::Percent(t, t)
        },
{
}

// --------------------------------------------------------------------- cores

/// Ticks were counted between two samples of a core, and none backwards.
pub open spec fn ticked(next: CpuTimes, prev: CpuTimes) -> bool {
    prev.total < next.total && prev.idle <= next.idle
}

/// The ticks between two samples that were not idle.
pub open spec fn busy_ticks(next: CpuTimes, prev: CpuTimes) -> int {
    if next.idle - prev.idle <= next.total - prev.total {
        (next.total - prev.total) - (next.idle - prev.idle)
    } else {
        0
    }
}

/// `which` are the cores with an earlier sample that ticked, in their order.
pub open spec fn ticking_cores(which: Seq<int>, next: Seq<CpuTimes>, prev: Seq<CpuTimes>) -> bool {
    &&& forall|i: int, j: int| 0 <= i < j < which.len() ==> which[i] < which[j]
    &&& forall|i: int|
        0 <= i < which.len() ==> {
            &&& 0 <= #[trigger] which[i] < next.len()
            &&& which[i] < prev.len()
            &&& ticked(next[which[i]], prev[which[i]])
        }
    &&& forall|core: int|
        0 <= core < next.len() && core < prev.len() && ticked(#[trigger] next[core], prev[core])
            ==> which.contains(core)
}

/// The overall utilization is the mean of the busy shares of exactly the cores
/// that ticked, each its own, in the order of the cores.
pub proof fn law_utilization_is_a_mean<P: Probe>(
    before: Sweeper,
    after: Sweeper,
    probe: &P,
    pass: Pass,
    draft: Pending,
)
    requires
        Sweeper::sweeps(before, after, probe, pass, draft),
    ensures
        ({
            let next = stat_times(text_of(pass.counters.stat));
            let prev = before.times();
            exists|which: Seq<int>|
                {
                    &&& #[trigger] ticking_cores(which, next, prev)
                    &&& draft.utilization is Some <==> which.len() > 0
                    &&& draft.utilization matches Some(mean) ==> {
                        &&& mean@ matches Term::MeanShare(shares)
                        &&& shares.len() == which.len()
                        &&& forall|i: int|
                            0 <= i < which.len() ==> {
                                let n = next[which[i]];
                                let p = prev[which[i]];
                                &&& (#[trigger] shares[i]).0 == busy_ticks(n, p)
                                &&& shares[i].1 == n.total - p.total
                            }
                    }
                }
        }),
{
    let next = stat_times(text_of(pass.counters.stat));
    let prev = before.times();
    let which = lemma_measured_cores(next, prev);
    assert(ticking_cores(which, next, prev));
}

proof fn lemma_measured_cores(next: Seq<CpuTimes>, prev: Seq<CpuTimes>) -> (which: Seq<int>)
    ensures
        ticking_cores(which, next, prev),
        measured_shares(next, prev).len() == which.len(),
        forall|i: int|
            0 <= i < which.len() ==> {
                let n = next[which[i]];
                let p = prev[which[i]];
                &&& (#[trigger] measured_shares(next, prev)[i]).0 == busy_ticks(n, p)
                &&& measured_shares(next, prev)[i].1 == n.total - p.total
            },
    decreases next.len(),
{
    if next.len() == 0 {
        seq![]
    } else {
        let rest = next.drop_last();
        let front = lemma_measured_cores(rest, prev);
        let core = next.len() - 1;
        let which = if core < prev.len() && ticked(next[core], prev[core]) {
            front.push(core)
        } else {
            front
        };
        assert forall|c: int|
            0 <= c < next.len() && c < prev.len() && ticked(
                #[trigger] next[c],
                prev[c],
            ) implies which.contains(c) by {
            if c < core {
                assert(rest[c] == next[c]);
                assert(front.contains(c));
                let i = choose|i: int| 0 <= i < front.len() && front[i] == c;
                assert(which[i] == c);
            } else {
                assert(which[which.len() - 1] == c);
            }
        }
        assert forall|i: int| 0 <= i < which.len() implies {
            let n = next[which[i]];
            let p = prev[which[i]];
            &&& (#[trigger] measured_shares(next, prev)[i]).0 == busy_ticks(n, p)
            &&& measured_shares(next, prev)[i].1 == n.total - p.total
        } by {
            if i < front.len() {
                assert(which[i] == front[i]);
                assert(rest[front[i]] == next[front[i]]);
                assert(measured_shares(next, prev)[i] == measured_shares(rest, prev)[i]);
            }
        }
        which
    }
}

/// Each core with an earlier sample has its own entry: its busy share, or none
/// of something where it did not tick.
pub proof fn law_entries_of_the_cores<P: Probe>(
    before: Sweeper,
    after: Sweeper,
    probe: &P,
    pass: Pass,
    draft: Pending,
)
    requires
        Sweeper::sweeps(before, after, probe, pass, draft),
    ensures
        ({
            let next = stat_times(text_of(pass.counters.stat));
            let prev = before.times();
            &&& next.len() <= prev.len() ==> draft.cores@.len() == next.len()
            &&& prev.len() <= next.len() ==> draft.cores@.len() == prev.len()
            &&& forall|core: int|
                0 <= core < draft.cores@.len() ==> {
                    &&& (#[trigger] draft.cores@[core])@ matches Term::Share(part, whole)
                    &&& whole > 0
                    &&& ticked(next[core], prev[core]) ==> part == busy_ticks(
                        next[core],
                        prev[core],
                    ) && whole == next[core].total - prev[core].total
                    &&& !ticked(next[core], prev[core]) ==> part == 0
                }
        }),
{
    crate::sweep::law_one_entry_per_core(before, after, probe, pass, draft);
}

// ------------------------------------------------------------------- traffic

/// `i` is the first line of a wireless interface: its name, which stands before
/// its first colon, starts with `wl`.
pub open spec fn wireless_at(
    ls: Seq<Seq<char>>,
    i: int,
    name: Seq<char>,
    rest: Seq<char>,
) -> bool {
    &&& 0 <= i < ls.len()
    &&& !name.contains(':')
    &&& ls[i] == name + seq![':'] + rest
    &&& "wl"@.is_prefix_of(trim(name))
    &&& forall|j: int|
        0 <= j < i ==> !"wl"@.is_prefix_of(trim(before_mark(#[trigger] ls[j], ':')))
}

/// `i` is the first line of a whole NVMe or MMC device, which its third word
/// names.
pub open spec fn disk_at(ls: Seq<Seq<char>>, i: int) -> bool {
    &&& 0 <= i < ls.len()
    &&& names_a_disk(ls[i])
    &&& forall|j: int| 0 <= j < i ==> !names_a_disk(#[trigger] ls[j])
}

/// The third word of the line starts with `nvme` or `mmcblk` and has no `p`.
pub open spec fn names_a_disk(line: Seq<char>) -> bool {
    let ws = words(line);
    &&& ws.len() > 2
    &&& "nvme"@.is_prefix_of(ws[2]) || "mmcblk"@.is_prefix_of(ws[2])
    &&& !ws[2].contains('p')
}

/// The words are these numbers.
pub open spec fn write_numbers(ws: Seq<Seq<char>>, nums: Seq<u64>) -> bool {
    &&& ws.len() == nums.len()
    &&& forall|k: int| 0 <= k < ws.len() ==> u64_of(#[trigger] ws[k]) == Some(nums[k])
}

/// What a counter gained, where one that went backwards gained nothing.
pub open spec fn rise(now: u64, before: u64) -> int {
    if now >= before {
        now - before
    } else {
        0
    }
}

/// Between two sweeps that found the same wireless interface, the bytes received
/// are the gain of the first number of its line and the bytes sent that of the
/// ninth, over the time between the sweeps; without time there is no rate.
pub proof fn law_wireless_rates<P: Probe>(
    start: Sweeper,
    between: Sweeper,
    end: Sweeper,
    probe: &P,
    first: Pass,
    second: Pass,
    first_draft: Pending,
    draft: Pending,
    i: int,
    j: int,
    name: Seq<char>,
    rest: Seq<char>,
    other_name: Seq<char>,
    other_rest: Seq<char>,
    x: Seq<u64>,
    y: Seq<u64>,
)
    requires
        Sweeper::sweeps(start, between, probe, first, first_draft),
        Sweeper::sweeps(between, end, probe, second, draft),
        first.counters.net_dev is Some,
        second.counters.net_dev is Some,
        wireless_at(lines(first.counters.net_dev->0@), i, name, rest),
        wireless_at(lines(second.counters.net_dev->0@), j, other_name, other_rest),
        write_numbers(words(rest), x),
        write_numbers(words(other_rest), y),
        x.len() > 8,
        y.len() > 8,
    ensures
        ({
            let nanos = nanoseconds(span_between(second.now, first.now));
            &&& draft.net_io is Some <==> trim(name) == trim(other_name) && nanos > 0
            &&& draft.net_io matches Some(io) ==> {
                &&& io.rx_kib_s@ == Term::ByteRate(rise(y[0], x[0]) as u64, nanos)
                &&& io.tx_kib_s@ == Term::ByteRate(rise(y[8], x[8]) as u64, nanos)
            }
        }),
{
    lemma_wireless_count(first.counters.net_dev->0@, i, name, rest, x);
    lemma_wireless_count(second.counters.net_dev->0@, j, other_name, other_rest, y);
}

proof fn lemma_wireless_count(
    raw: Seq<char>,
    i: int,
    name: Seq<char>,
    rest: Seq<char>,
    x: Seq<u64>,
)
    requires
        wireless_at(lines(raw), i, name, rest),
        write_numbers(words(rest), x),
        x.len() > 8,
    ensures
        net_count(Some(raw)) == Some(
            Count { name: trim(name), inward: x[0], outward: x[8] },
        ),
{
    let ls = lines(raw);
    lemma_split(name, ':', rest);
    assert forall|k: int| 0 <= k < i implies wireless_line()(#[trigger] ls[k]) is None by {
        lemma_prefix(trim(before_mark(ls[k], ':')), "wl"@);
    }
    lemma_prefix(trim(name), "wl"@);
    lemma_first_line(ls, wireless_line(), i);
    let pick = net_dev_line(trim(name));
    assert forall|k: int| 0 <= k < i implies pick(#[trigger] ls[k]) is None by {
        lemma_prefix(trim(before_mark(ls[k], ':')), "wl"@);
    }
    lemma_counters(words(rest), x);
    lemma_first_line(ls, pick, i);
}

pub proof fn lemma_prefix(s: Seq<char>, p: Seq<char>)
    ensures
        starts_with(s, p) <==> p.is_prefix_of(s),
{
    if p.len() <= s.len() {
        assert(s.take(p.len() as int) =~= s.subrange(0, p.len() as int));
    }
}

proof fn lemma_split(name: Seq<char>, mark: char, rest: Seq<char>)
    requires
        !name.contains(mark),
    ensures
        before_mark(name + seq![mark] + rest, mark) == name,
        split_once(name + seq![mark] + rest, mark) == Some((name, rest)),
{
    let s = name + seq![mark] + rest;
    assert forall|k: int| 0 <= k < name.len() implies other_than(mark)(#[trigger] s[k]) by {
        assert(s[k] == name[k]);
        assert(name.contains(name[k]));
    }
    lemma_span(s, other_than(mark), name.len());
    assert(s.take(name.len() as int) =~= name);
    assert(s.skip(name.len() as int + 1) =~= rest);
}

pub proof fn lemma_counters(ws: Seq<Seq<char>>, nums: Seq<u64>)
    requires
        write_numbers(ws, nums),
    ensures
        counters(ws) == nums,
    decreases ws.len(),
{
    if ws.len() > 0 {
        assert forall|k: int| 0 <= k < ws.drop_last().len() implies u64_of(
            #[trigger] ws.drop_last()[k],
        ) == Some(nums.drop_last()[k]) by {
            assert(ws.drop_last()[k] == ws[k]);
        }
        lemma_counters(ws.drop_last(), nums.drop_last());
        assert(ws.last() == ws[ws.len() - 1]);
        assert(nums.drop_last().push(nums.last()) =~= nums);
    } else {
        assert(nums =~= seq![]);
    }
}

/// Between two sweeps that found the same disk, the sectors read are the gain of
/// the sixth word of its line and the sectors written that of the tenth, over
/// the time between the sweeps; without time there is no rate.
pub proof fn law_disk_rates<P: Probe>(
    start: Sweeper,
    between: Sweeper,
    end: Sweeper,
    probe: &P,
    first: Pass,
    second: Pass,
    first_draft: Pending,
    draft: Pending,
    i: int,
    j: int,
    x: (u64, u64),
    y: (u64, u64),
)
    requires
        Sweeper::sweeps(start, between, probe, first, first_draft),
        Sweeper::sweeps(between, end, probe, second, draft),
        first.counters.diskstats is Some,
        second.counters.diskstats is Some,
        disk_at(lines(first.counters.diskstats->0@), i),
        disk_at(lines(second.counters.diskstats->0@), j),
        sectors_at(lines(first.counters.diskstats->0@)[i], x),
        sectors_at(lines(second.counters.diskstats->0@)[j], y),
    ensures
        ({
            let device = words(lines(first.counters.diskstats->0@)[i])[2];
            let other = words(lines(second.counters.diskstats->0@)[j])[2];
            let nanos = nanoseconds(span_between(second.now, first.now));
            &&& draft.disk_io is Some <==> device == other && nanos > 0
            &&& draft.disk_io matches Some(io) ==> {
                &&& io.read_mib_s@ == Term::SectorRate(rise(y.0, x.0) as u64, nanos)
                &&& io.write_mib_s@ == Term::SectorRate(rise(y.1, x.1) as u64, nanos)
            }
        }),
{
    lemma_disk_count(first.counters.diskstats->0@, i, x);
    lemma_disk_count(second.counters.diskstats->0@, j, y);
}

/// The sixth and the tenth word of the line are these numbers.
pub open spec fn sectors_at(line: Seq<char>, x: (u64, u64)) -> bool {
    let ws = words(line);
    ws.len() > 9 && u64_of(ws[5]) == Some(x.0) && u64_of(ws[9]) == Some(x.1)
}

proof fn lemma_disk_count(raw: Seq<char>, i: int, x: (u64, u64))
    requires
        disk_at(lines(raw), i),
        sectors_at(lines(raw)[i], x),
    ensures
        disk_count(Some(raw)) == Some(
            Count { name: words(lines(raw)[i])[2], inward: x.0, outward: x.1 },
        ),
{
    let ls = lines(raw);
    assert forall|k: int| 0 <= k <= i && words(#[trigger] ls[k]).len() > 2 implies (whole_disk(
        words(ls[k])[2],
    ) <==> names_a_disk(ls[k])) by {
        lemma_prefix(words(ls[k])[2], "nvme"@);
        lemma_prefix(words(ls[k])[2], "mmcblk"@);
    }
    lemma_first_line(ls, primary_disk_line(), i);
    let pick = diskstats_line(words(ls[i])[2]);
    assert forall|k: int| 0 <= k < i implies pick(#[trigger] ls[k]) is None by {
        if words(ls[k]).len() > 2 && words(ls[k])[2] == words(ls[i])[2] {
            assert(names_a_disk(ls[k]));
        }
    }
    lemma_first_line(ls, pick, i);
}

/// A sweep without the counters of a disk or of an interface, without a line of
/// one, or with a line that lacks the numbers, has no rates of it; what was
/// counted before stays.
pub proof fn law_without_counts<P: Probe>(
    before: Sweeper,
    after: Sweeper,
    probe: &P,
    pass: Pass,
    draft: Pending,
    i: int,
    name: Seq<char>,
    rest: Seq<char>,
)
    requires
        Sweeper::sweeps(before, after, probe, pass, draft),
    ensures
        pass.counters.diskstats is None || ({
            let ls = lines(pass.counters.diskstats->0@);
            forall|k: int| 0 <= k < ls.len() ==> !names_a_disk(#[trigger] ls[k])
        }) || ({
            let ls = lines(pass.counters.diskstats->0@);
            let ws = words(ls[i]);
            disk_at(ls, i) && !(ws.len() > 9 && u64_of(ws[5]) is Some && u64_of(ws[9]) is Some)
        }) ==> draft.disk_io is None && after.disk() == before.disk(),
        pass.counters.net_dev is None || ({
            let ls = lines(pass.counters.net_dev->0@);
            forall|k: int|
                0 <= k < ls.len() ==> !"wl"@.is_prefix_of(
                    trim(before_mark(#[trigger] ls[k], ':')),
                )
        }) || ({
            let ls = lines(pass.counters.net_dev->0@);
            wireless_at(ls, i, name, rest) && words(rest).len() < 9
        }) ==> draft.net_io is None && after.net() == before.net(),
{
    if let Some(raw) = pass.counters.diskstats {
        lemma_no_disk(raw@, i);
    }
    if let Some(raw) = pass.counters.net_dev {
        lemma_no_net(raw@, i, name, rest);
    }
}

proof fn lemma_no_disk(raw: Seq<char>, i: int)
    ensures
        (forall|k: int| 0 <= k < lines(raw).len() ==> !names_a_disk(#[trigger] lines(raw)[k]))
            ==> disk_count(Some(raw)) is None,
        disk_at(lines(raw), i) && !({
            let ws = words(lines(raw)[i]);
            ws.len() > 9 && u64_of(ws[5]) is Some && u64_of(ws[9]) is Some
        }) ==> disk_count(Some(raw)) is None,
{
    let ls = lines(raw);
    assert forall|k: int| 0 <= k < ls.len() implies (primary_disk_line()(#[trigger] ls[k]) is Some
        <==> names_a_disk(ls[k])) by {
        if words(ls[k]).len() > 2 {
            lemma_prefix(words(ls[k])[2], "nvme"@);
            lemma_prefix(words(ls[k])[2], "mmcblk"@);
        }
    }
    if crate::sensors::find_line(ls, primary_disk_line()) is Some {
        let k = lemma_found_line(ls, primary_disk_line());
        assert(names_a_disk(ls[k]));
    }
    if disk_at(ls, i) {
        lemma_first_line(ls, primary_disk_line(), i);
        let pick = diskstats_line(words(ls[i])[2]);
        assert forall|k: int| 0 <= k < i implies pick(#[trigger] ls[k]) is None by {
            if words(ls[k]).len() > 2 && words(ls[k])[2] == words(ls[i])[2] {
                assert(names_a_disk(ls[k]));
            }
        }
        lemma_first_line(ls, pick, i);
    }
}

proof fn lemma_no_net(raw: Seq<char>, i: int, name: Seq<char>, rest: Seq<char>)
    ensures
        (forall|k: int|
            0 <= k < lines(raw).len() ==> !"wl"@.is_prefix_of(
                trim(before_mark(#[trigger] lines(raw)[k], ':')),
            )) ==> net_count(Some(raw)) is None,
        wireless_at(lines(raw), i, name, rest) && words(rest).len() < 9 ==> net_count(Some(raw))
            is None,
{
    let ls = lines(raw);
    assert forall|k: int| 0 <= k < ls.len() implies (wireless_line()(#[trigger] ls[k]) is Some
        <==> "wl"@.is_prefix_of(trim(before_mark(ls[k], ':')))) by {
        lemma_prefix(trim(before_mark(ls[k], ':')), "wl"@);
    }
    if crate::sensors::find_line(ls, wireless_line()) is Some {
        let k = lemma_found_line(ls, wireless_line());
        assert("wl"@.is_prefix_of(trim(before_mark(ls[k], ':'))));
    }
    if wireless_at(ls, i, name, rest) {
        lemma_split(name, ':', rest);
        lemma_first_line(ls, wireless_line(), i);
        let pick = net_dev_line(trim(name));
        assert forall|k: int| 0 <= k < i implies pick(#[trigger] ls[k]) is None by {
            lemma_prefix(trim(before_mark(ls[k], ':')), "wl"@);
        }
        lemma_few_counters(words(rest));
        lemma_first_line(ls, pick, i);
    }
}

proof fn lemma_few_counters(ws: Seq<Seq<char>>)
    ensures
        counters(ws).len() <= ws.len(),
    decreases ws.len(),
{
    if ws.len() > 0 {
        lemma_few_counters(ws.drop_last());
    }
}

/// The next sweep compares the cores with those of this one.
pub proof fn law_sweep_keeps_the_cores<P: Probe>(
    before: Sweeper,
    after: Sweeper,
    probe: &P,
    pass: Pass,
    draft: Pending,
)
    requires
        Sweeper::sweeps(before, after, probe, pass, draft),
    ensures
        pass.counters.stat matches Some(raw) ==> after.times() == crate::sensors::core_times(
            lines(raw@),
        ),
        pass.counters.stat is None ==> after.times().len() == 0,
{
}

/// Whatever a sweeper hands out and becomes is one sweep, stamped with the whole
/// milliseconds since the clock's start, as long as these fit.
pub proof fn law_each_sweep<P: Probe>(s: &mut Sweeper, probe: &P, clock: &Clock, draft: Pending)
    requires
        call_ensures(Sweeper::sweep::<P>, (s, probe, clock), draft),
    ensures
        exists|pass: Pass| #[trigger] Sweeper::sweeps(*old(s), *final(s), probe, pass, draft),
        exists|now: Instant|
            {
                let nanos = nanoseconds(span_between(now, clock.0));
                &&& #[trigger] call_ensures(Instant::now, (), now)
                &&& nanos < 1_000_000 * (u64::MAX + 1) ==> draft.elapsed_ms * 1_000_000 <= nanos
                    < (draft.elapsed_ms + 1) * 1_000_000
            },
{
    let now = choose|now: Instant|
        call_ensures(Instant::now, (), now) && draft.elapsed_ms == #[trigger] ms_between(
            now,
            clock.0,
        );
    assert(call_ensures(Instant::now, (), now));
}

/// A new sweeper has nothing to compare with.
pub proof fn law_new_sweeper(s: Sweeper)
    requires
        call_ensures(Sweeper::new, (), s),
    ensures
        s.times().len() == 0 && s.disk() is None && s.net() is None,
{
}

} // verus!
