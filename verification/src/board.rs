//! The state of the dashboard: the recent snapshots, the chosen tab and the
//! health badge.

use std::collections::VecDeque;

use vstd::prelude::*;

use crate::single::Single;
use crate::snapshot::{highest, temperatures, Snapshot};
use crate::text::text_of;
use crate::widgets::{Tone, TEMP_CRIT_C, TEMP_HOT_C};

verus! {

/// One sweep per second.
pub const POLL_INTERVAL_MS: u64 = 1000;

/// Roughly five minutes of 1 Hz history.
pub const MAX_HISTORY: usize = 300;

/// Health of the board, derived from the throttle bitmask and peak temp.
#[derive(Debug, Clone, Copy, PartialEq, Eq, Structural)]
pub enum Health {
    /// Nothing has happened since boot and temps are in range.
    Healthy,
    /// Something happened since boot but nothing is active now.
    Warn,
    /// A throttle condition is live right now or a temp is past the line.
    Alert,
}

/// The health of a board at one snapshot. The firmware's soft limit for the Pi 5
/// family is 85 C by default; warn well before it, alert at the line itself.
pub open spec fn health_of(s: Snapshot) -> Health {
    let peak = highest(temperatures(s));
    if s.throttle.live() {
        Health::Alert
    } else if peak matches Some(t) && t.reaches(TEMP_CRIT_C as int) {
        Health::Alert
    } else if peak matches Some(t) && t.reaches(TEMP_HOT_C as int) {
        Health::Warn
    } else if s.throttle.sticky() {
        Health::Warn
    } else {
        Health::Healthy
    }
}

/// The health of the latest snapshot; without one there is nothing to report.
pub open spec fn badge(history: Seq<Snapshot>) -> Health {
    if history.len() == 0 {
        Health::Healthy
    } else {
        health_of(history.last())
    }
}

/// What a history becomes with one more snapshot: the oldest leaves a full one.
pub open spec fn recorded(history: Seq<Snapshot>, s: Snapshot) -> Seq<Snapshot> {
    if history.len() >= MAX_HISTORY {
        history.drop_first().push(s)
    } else {
        history.push(s)
    }
}

/// The health of a board at one snapshot.
pub fn health_at(s: &Snapshot) -> (r: Health)
    ensures
        r == health_of(*s),
{
    if s.throttle.active_now() {
        return Health::Alert;
    }
    if let Some(temp) = s.max_temp_c() {
        if temp.reaches_whole(TEMP_CRIT_C) {
            return Health::Alert;
        }
        if temp.reaches_whole(TEMP_HOT_C) {
            return Health::Warn;
        }
    }
    if s.throttle.any_event() {
        return Health::Warn;
    }
    Health::Healthy
}

/// The words of a health badge.
pub open spec fn health_words(health: Health) -> Seq<char> {
    match health {
        Health::Healthy => "Healthy"@,
        Health::Warn => "Check history"@,
        Health::Alert => "Throttling risk"@,
    }
}

/// The words of a health badge.
pub fn health_label(health: Health) -> (r: &'static str)
    ensures
        r@ == health_words(health),
{
    match health {
        Health::Healthy => "Healthy",
        Health::Warn => "Check history",
        Health::Alert => "Throttling risk",
    }
}

/// The color of a health badge.
pub open spec fn badge_tone(health: Health) -> Tone {
    match health {
        Health::Healthy => Tone::Green,
        Health::Warn => Tone::Yellow,
        Health::Alert => Tone::Red,
    }
}

/// The color of a health badge.
pub fn health_color(health: Health) -> (r: Tone)
    ensures
        r == badge_tone(health),
{
    match health {
        Health::Healthy => Tone::Green,
        Health::Warn => Tone::Yellow,
        Health::Alert => Tone::Red,
    }
}

/// The live-updating sensor dashboard.
pub struct Pimon {
    history: VecDeque<Snapshot>,
    active_tab: usize,
    /// What the latest sweep says is missing, so the UI can explain it instead of
    /// showing empty charts.
    probe_error: Option<String>,
}

impl Pimon {
    /// The recent snapshots, the oldest first.
    pub closed spec fn snapshots(self) -> Seq<Snapshot> {
        self.history@
    }

    pub closed spec fn tab(self) -> usize {
        self.active_tab
    }

    pub closed spec fn fault(self) -> Option<Seq<char>> {
        text_of(self.probe_error)
    }

    /// The history is bounded, and the error is that of the latest snapshot.
    pub open spec fn wf(self) -> bool {
        &&& self.snapshots().len() <= MAX_HISTORY
        &&& self.fault() == if self.snapshots().len() == 0 {
            None
        } else {
            text_of(self.snapshots().last().error)
        }
    }

    pub fn new() -> (r: Pimon)
        ensures
            r.wf(),
            r.snapshots().len() == 0,
            r.tab() == 0,
    {
        Pimon { history: VecDeque::with_capacity(MAX_HISTORY), active_tab: 0, probe_error: None }
    }

    /// Puts one sweep into the history ring.
    pub fn record(&mut self, snapshot: Snapshot)
        requires
            old(self).wf(),
        ensures
            final(self).wf(),
            final(self).snapshots() == recorded(old(self).snapshots(), snapshot),
            final(self).tab() == old(self).tab(),
    {
        self.probe_error = match &snapshot.error {
            Some(err) => Some(err.clone()),
            None => None,
        };
        if self.history.len() >= MAX_HISTORY {
            self.history.pop_front();
        }
        self.history.push_back(snapshot);
    }

    /// The latest snapshot.
    pub fn latest(&self) -> (r: Option<&Snapshot>)
        ensures
            r == if self.snapshots().len() == 0 {
                None
            } else {
                Some(&self.snapshots().last())
            },
    {
        let n = self.history.len();
        if n == 0 {
            None
        } else {
            Some(&self.history[n - 1])
        }
    }

    pub fn history(&self) -> (r: &VecDeque<Snapshot>)
        ensures
            r@ == self.snapshots(),
    {
        &self.history
    }

    pub fn probe_error(&self) -> (r: Option<&str>)
        ensures
            match self.fault() {
                Some(text) => r is Some && (r->0)@ == text,
                None => r is None,
            },
    {
        match &self.probe_error {
            Some(err) => Some(err.as_str()),
            None => None,
        }
    }

    pub fn active_tab(&self) -> (r: usize)
        ensures
            r == self.tab(),
    {
        self.active_tab
    }

    pub fn set_active_tab(&mut self, index: usize)
        ensures
            final(self).tab() == index,
            final(self).snapshots() == old(self).snapshots(),
            final(self).fault() == old(self).fault(),
    {
        self.active_tab = index;
    }

    /// The health badge state for the current snapshot.
    pub fn health(&self) -> (r: Health)
        ensures
            r == badge(self.snapshots()),
    {
        match self.latest() {
            Some(latest) => health_at(latest),
            None => Health::Healthy,
        }
    }
}

/// The badge is red while a condition is live, yellow at least when something
/// happened earlier this boot, and green only when nothing has fired since boot
/// and no temperature is hot.
pub proof fn law_badge(history: Seq<Snapshot>)
    requires
        history.len() > 0,
    ensures
        history.last().throttle.live() ==> badge(history) == Health::Alert,
        history.last().throttle.sticky() ==> badge(history) != Health::Healthy,
        badge(history) == Health::Healthy <==> {
            &&& !history.last().throttle.live()
            &&& !history.last().throttle.sticky()
            &&& highest(temperatures(history.last())) matches Some(t) ==> !t.reaches(
                TEMP_HOT_C as int,
            )
        },
{
    let s = history.last();
    if let Some(t) = highest(temperatures(s)) {
        if t.reaches(TEMP_CRIT_C as int) {
            lemma_reaches_less(t, TEMP_CRIT_C as int, TEMP_HOT_C as int);
        }
    }
}

proof fn lemma_reaches_less(t: Single, n: int, m: int)
    requires
        t.reaches(n),
        m <= n,
    ensures
        t.reaches(m),
{
    let p = vstd::arithmetic::power2::pow2(149);
    vstd::arithmetic::power2::lemma_pow2_pos(149);
    assert(m * p <= n * p) by (nonlinear_arith)
        requires
            m <= n,
            p > 0,
    ;
}

/// What a history becomes with several more snapshots.
pub open spec fn recorded_all(history: Seq<Snapshot>, more: Seq<Snapshot>) -> Seq<Snapshot>
    decreases more.len(),
{
    if more.len() == 0 {
        history
    } else {
        recorded(recorded_all(history, more.drop_last()), more.last())
    }
}

/// The history holds the latest snapshots, at most five minutes of them, in the
/// order they came.
pub proof fn law_history_is_the_latest(more: Seq<Snapshot>)
    ensures
        recorded_all(seq![], more) == if more.len() <= MAX_HISTORY {
            more
        } else {
            more.skip(more.len() - MAX_HISTORY)
        },
    decreases more.len(),
{
    if more.len() > 0 {
        let front = more.drop_last();
        law_history_is_the_latest(front);
        let kept = recorded_all(seq![], front);
        assert(front.push(more.last()) =~= more);
        if front.len() > MAX_HISTORY {
            assert(kept.drop_first().push(more.last()) =~= more.skip(more.len() - MAX_HISTORY));
        } else if front.len() == MAX_HISTORY {
            assert(kept.drop_first().push(more.last()) =~= more.skip(1));
        }
    } else {
        assert(more =~= seq![]);
    }
}

} // verus!
