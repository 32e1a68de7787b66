//! What the parts with a memory promise: the history, the watched paths, the
//! tables and the rates between two counts.

use std::collections::VecDeque;
use std::time::Instant;

use vstd::prelude::*;

use crate::board::{health_at, Health, Pimon};
use crate::formula::{Formula, Term};
use crate::snapshot::{DiskIo, NetIo, Snapshot};
use crate::sweep::{nanoseconds, span_between, Sweeper};
use crate::table::{lemma_beside, lemma_found, Table};
use crate::text::{sorts_before, text_of, texts_of};
use crate::watch::{gone, retints, Change, WatchList};

verus! {

// ------------------------------------------------------------------- history

/// A new board has seen nothing and shows the first tab.
pub proof fn law_new_board(b: Pimon)
    requires
        call_ensures(Pimon::new, (), b),
    ensures
        b.snapshots().len() == 0 && b.tab() == 0 && b.fault() is None,
{
}

/// A snapshot is recorded behind the others; of three hundred the oldest leaves.
/// The fault is then that of the new snapshot, and the tab stays.
pub proof fn law_record(b: &mut Pimon, snapshot: Snapshot)
    requires
        call_ensures(Pimon::record, (b, snapshot), ()),
    ensures
        old(b).snapshots().len() < 300 ==> final(b).snapshots().len() == old(b).snapshots().len()
            + 1 && forall|i: int|
            0 <= i < old(b).snapshots().len() ==> #[trigger] final(b).snapshots()[i] == old(
                b,
            ).snapshots()[i],
        old(b).snapshots().len() == 300 ==> final(b).snapshots().len() == 300 && forall|i: int|
            0 <= i < 299 ==> #[trigger] final(b).snapshots()[i] == old(b).snapshots()[i + 1],
        old(b).snapshots().len() <= 300 ==> final(b).snapshots()[final(b).snapshots().len() - 1]
            == snapshot,
        final(b).fault() == text_of(snapshot.error),
        final(b).tab() == old(b).tab(),
{
}

/// What a board tells of itself: its latest snapshot, its history and its tab.
pub proof fn law_board_tells(
    b: &Pimon,
    latest: Option<&Snapshot>,
    history: &VecDeque<Snapshot>,
    tab: usize,
    error: Option<&str>,
)
    requires
        b.wf(),
        call_ensures(Pimon::latest, (b,), latest),
        call_ensures(Pimon::history, (b,), history),
        call_ensures(Pimon::active_tab, (b,), tab),
        call_ensures(Pimon::probe_error, (b,), error),
    ensures
        tab == b.tab(),
        history@ == b.snapshots(),
        latest is None <==> history@.len() == 0,
        latest matches Some(s) ==> *s == history@[history@.len() - 1],
        error is Some <==> (latest matches Some(s) && s.error is Some),
        latest matches Some(s) ==> (error matches Some(text) ==> text@ == (s.error->0)@),
{
}

/// Choosing a tab changes the tab and nothing else.
pub proof fn law_choosing_a_tab(b: &mut Pimon, index: usize)
    requires
        call_ensures(Pimon::set_active_tab, (b, index), ()),
    ensures
        final(b).tab() == index,
        final(b).snapshots() == old(b).snapshots(),
        final(b).fault() == old(b).fault(),
{
}

/// The health of a board is that of its latest snapshot.
pub proof fn law_health_is_the_latest(b: &Pimon, r: Health, h: Health)
    requires
        call_ensures(Pimon::health, (b,), r),
    ensures
        b.snapshots().len() == 0 ==> r == Health::Healthy,
        b.snapshots().len() > 0 && call_ensures(
            health_at,
            (&b.snapshots()[b.snapshots().len() - 1],),
            h,
        ) ==> r == h,
{
}

// ------------------------------------------------------------- watched paths

/// A path that is watched stands behind the others, and is not wanted again.
pub proof fn law_watching(w: &mut WatchList, path: &str, exists: bool, wanted: bool)
    requires
        call_ensures(WatchList::add, (w, path), ()),
    ensures
        final(w).paths() == old(w).paths() + seq![path@],
        call_ensures(WatchList::wants, (final(w), path, exists), wanted) ==> !wanted,
{
    assert(final(w).paths() =~= old(w).paths() + seq![path@]);
    assert(final(w).paths()[old(w).paths().len() as int] == path@);
}

/// The list tells how many paths are watched, and each of them; a new one has none.
pub proof fn law_watch_list_tells(w: &WatchList, n: usize, i: usize, path: &str, new: WatchList)
    requires
        call_ensures(WatchList::len, (w,), n),
        call_ensures(WatchList::path, (w, i), path),
        call_ensures(WatchList::new, (), new),
    ensures
        n == w.paths().len(),
        path@ == w.paths()[i as int],
        new.paths().len() == 0,
{
}

/// A path is wanted when it exists and no watched path is the same.
pub proof fn law_wanting(w: &WatchList, path: &str, exists: bool, r: bool, i: int)
    requires
        call_ensures(WatchList::wants, (w, path, exists), r),
    ensures
        !exists ==> !r,
        0 <= i < w.paths().len() && w.paths()[i] == path@ ==> !r,
        exists && (forall|j: int| 0 <= j < w.paths().len() ==> #[trigger] w.paths()[j] != path@)
            ==> r,
{
    if 0 <= i < w.paths().len() && w.paths()[i] == path@ {
        assert(w.paths().contains(path@));
    }
}

/// Giving up the paths hands all of them out and leaves none.
pub proof fn law_giving_up(w: &mut WatchList, r: Vec<String>)
    requires
        call_ensures(WatchList::take, (w,), r),
    ensures
        final(w).paths().len() == 0,
        r@.len() == old(w).paths().len(),
        forall|i: int| 0 <= i < r@.len() ==> (#[trigger] r@[i])@ == old(w).paths()[i],
{
    assert(texts_of(r@).len() == r@.len());
    assert forall|i: int| 0 <= i < r@.len() implies (#[trigger] r@[i])@ == old(
        w,
    ).paths()[i] by {
        assert(texts_of(r@)[i] == r@[i]@);
    }
}

/// The paths are watched anew exactly when one of them has disappeared, and new
/// colors are read after a path was made, changed or removed.
pub proof fn law_watching_anew(w: &WatchList, present: &Vec<bool>, r: bool, i: int)
    requires
        call_ensures(WatchList::needs_rearm, (w, present), r),
    ensures
        0 <= i < present@.len() && !present@[i] ==> r,
        (forall|j: int| 0 <= j < present@.len() ==> #[trigger] present@[j]) ==> !r,
        forall|t: bool| call_ensures(retints, (Change::Create,), t) ==> t,
        forall|t: bool| call_ensures(retints, (Change::Modify,), t) ==> t,
        forall|t: bool| call_ensures(retints, (Change::Remove,), t) ==> t,
        forall|t: bool| call_ensures(retints, (Change::Access,), t) ==> !t,
        forall|t: bool| call_ensures(retints, (Change::Other,), t) ==> !t,
{
    assert(0 <= i < present@.len() && !present@[i] ==> gone(present@, i));
}

// -------------------------------------------------------------------- tables

/// A value that was put into a table stands under its name, in place of the one
/// before; under other names nothing changes.
pub proof fn law_putting<V>(t: &mut Table<V>, name: String, value: V, other: Seq<char>)
    requires
        call_ensures(Table::<V>::insert, (t, name, value), ()),
        other != name@,
    ensures
        final(t).lookup(name@) == Some(value),
        final(t).lookup(other) == old(t).lookup(other),
        final(t).wf(),
{
}

/// A table lists each of its names once, in the order of the names, and what it
/// lists is what it has under the names.
pub proof fn law_listing<V>(t: Table<V>, i: int, j: int, name: Seq<char>)
    requires
        t.wf(),
    ensures
        0 <= i < j < t@.len() ==> sorts_before(t@[i].0, t@[j].0),
        0 <= i < t@.len() ==> t.lookup(t@[i].0) == Some(t@[i].1),
        t.lookup(name) is Some <==> exists|k: int| 0 <= k < t@.len() && #[trigger] t@[k].0 == name,
{
    if 0 <= i < t@.len() {
        lemma_beside(t@, i);
    }
    if t.lookup(name) is Some {
        let k = lemma_found(t@, name);
        assert(t@[k].0 == name);
    }
    if exists|k: int| 0 <= k < t@.len() && #[trigger] t@[k].0 == name {
        let k = choose|k: int| 0 <= k < t@.len() && #[trigger] t@[k].0 == name;
        lemma_beside(t@, k);
    }
}

/// What a table answers is what it lists.
pub proof fn law_table_answers<V>(
    t: &Table<V>,
    name: &str,
    i: usize,
    found: Option<&V>,
    has: bool,
    len: usize,
    empty: bool,
    at: &str,
    value: &V,
)
    requires
        call_ensures(Table::<V>::get, (t, name), found),
        call_ensures(Table::<V>::contains_key, (t, name), has),
        call_ensures(Table::<V>::len, (t,), len),
        call_ensures(Table::<V>::is_empty, (t,), empty),
        call_ensures(Table::<V>::name, (t, i), at),
        call_ensures(Table::<V>::value, (t, i), value),
    ensures
        found is Some <==> t.lookup(name@) is Some,
        found is Some ==> Some(*found->0) == t.lookup(name@),
        has <==> found is Some,
        len == t@.len(),
        empty <==> len == 0,
        (at@, *value) == t@[i as int],
{
}

// --------------------------------------------------------------------- rates

/// The gain of a counter: nothing where it has started over.
pub open spec fn is_gain(gain: u64, now: u64, before: u64) -> bool {
    &&& now >= before ==> gain == now - before
    &&& now < before ==> gain == 0
}

/// Two counts of the same disk make rates of what was read and of what was
/// written in the time between them. Two counts of different disks, or without
/// time between them, make none.
pub proof fn law_disk_counts(
    a: &mut Sweeper,
    b: &mut Sweeper,
    first: &str,
    read: u64,
    written: u64,
    at: Instant,
    device: &str,
    more_read: u64,
    more_written: u64,
    now: Instant,
    r: Option<DiskIo<Formula>>,
    q: Option<DiskIo<Formula>>,
)
    requires
        call_ensures(Sweeper::rate_disk, (a, first, read, written, at), r),
        *old(b) == *final(a),
        call_ensures(Sweeper::rate_disk, (b, device, more_read, more_written, now), q),
    ensures
        ({
            let nanos = nanoseconds(span_between(now, at));
            &&& q is Some <==> first@ == device@ && nanos > 0
            &&& q matches Some(io) ==> {
                &&& io.read_mib_s@ matches Term::SectorRate(gain, t) && t == nanos && is_gain(
                    gain,
                    more_read,
                    read,
                )
                &&& io.write_mib_s@ matches Term::SectorRate(gain, t) && t == nanos && is_gain(
                    gain,
                    more_written,
                    written,
                )
            }
        }),
        old(a).disk() is None ==> r is None,
        final(b).net() == old(a).net() && final(b).times() == old(a).times(),
{
}

/// Two counts of the same interface make rates of what was received and of what
/// was sent in the time between them. Two counts of different interfaces, or
/// without time between them, make none.
pub proof fn law_network_counts(
    a: &mut Sweeper,
    b: &mut Sweeper,
    first: &str,
    rx: u64,
    tx: u64,
    at: Instant,
    iface: &str,
    more_rx: u64,
    more_tx: u64,
    now: Instant,
    r: Option<NetIo<Formula>>,
    q: Option<NetIo<Formula>>,
)
    requires
        call_ensures(Sweeper::rate_net, (a, first, rx, tx, at), r),
        *old(b) == *final(a),
        call_ensures(Sweeper::rate_net, (b, iface, more_rx, more_tx, now), q),
    ensures
        ({
            let nanos = nanoseconds(span_between(now, at));
            &&& q is Some <==> first@ == iface@ && nanos > 0
            &&& q matches Some(io) ==> {
                &&& io.rx_kib_s@ matches Term::ByteRate(gain, t) && t == nanos && is_gain(
                    gain,
                    more_rx,
                    rx,
                )
                &&& io.tx_kib_s@ matches Term::ByteRate(gain, t) && t == nanos && is_gain(
                    gain,
                    more_tx,
                    tx,
                )
            }
        }),
        old(a).net() is None ==> r is None,
        final(b).disk() == old(a).disk() && final(b).times() == old(a).times(),
{
}

} // verus!
