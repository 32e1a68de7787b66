//! The firmware's throttling health word.

use vstd::prelude::*;
use vstd::string::StringExecFns;

use crate::text::{
    hex_u32_of, join, joined, parse_hex, strip_repeated, stripped_repeatedly, trim, trimmed, views,
};

verus! {

/// Sticky firmware health bits from `vcgencmd get_throttled`.
#[derive(Debug, Clone, Copy, PartialEq, Eq, Structural)]
pub struct ThrottleState {
    pub undervolted_now: bool,
    pub freq_capped_now: bool,
    pub throttled_now: bool,
    pub soft_temp_limit_now: bool,
    pub undervolted_past: bool,
    pub freq_capped_past: bool,
    pub throttled_past: bool,
    pub soft_temp_limit_past: bool,
    /// One of the sticky occurrences that have no name of their own.
    pub other_past: bool,
}

/// Whether a bit of the health word is set.
pub open spec fn bit_set(bits: u32, place: u32) -> bool {
    bits & (1u32 << place) != 0
}

/// A list of one name, or an empty one.
pub open spec fn named(present: bool, name: Seq<char>) -> Seq<Seq<char>> {
    if present {
        seq![name]
    } else {
        seq![]
    }
}

impl ThrottleState {
    /// What a health word says: bits 0 to 3 are live conditions, bits 16 to 23
    /// sticky occurrences since the last reboot, of which the first four are the
    /// counterparts of the live conditions.
    pub open spec fn of_bits(bits: u32) -> ThrottleState {
        ThrottleState {
            undervolted_now: bit_set(bits, 0),
            freq_capped_now: bit_set(bits, 1),
            throttled_now: bit_set(bits, 2),
            soft_temp_limit_now: bit_set(bits, 3),
            undervolted_past: bit_set(bits, 16),
            freq_capped_past: bit_set(bits, 17),
            throttled_past: bit_set(bits, 18),
            soft_temp_limit_past: bit_set(bits, 19),
            other_past: bits & 0x00f0_0000 != 0,
        }
    }

    /// The state in which nothing has happened since boot.
    pub open spec fn quiet() -> ThrottleState {
        ThrottleState {
            undervolted_now: false,
            freq_capped_now: false,
            throttled_now: false,
            soft_temp_limit_now: false,
            undervolted_past: false,
            freq_capped_past: false,
            throttled_past: false,
            soft_temp_limit_past: false,
            other_past: false,
        }
    }

    /// What the firmware's answer `throttled=0x...` says.
    pub open spec fn of_answer(text: Seq<char>) -> Option<ThrottleState> {
        match hex_u32_of(strip_repeated(trim(text), "throttled=0x"@)) {
            Some(bits) => Some(ThrottleState::of_bits(bits)),
            None => None,
        }
    }

    pub open spec fn live(self) -> bool {
        self.undervolted_now || self.freq_capped_now || self.throttled_now
            || self.soft_temp_limit_now
    }

    pub open spec fn sticky(self) -> bool {
        self.undervolted_past || self.freq_capped_past || self.throttled_past
            || self.soft_temp_limit_past || self.other_past
    }

    /// The names of the live conditions.
    pub open spec fn live_names(self) -> Seq<Seq<char>> {
        named(self.undervolted_now, "undervoltage"@) + named(self.freq_capped_now, "freq capped"@)
            + named(self.throttled_now, "throttled"@) + named(
            self.soft_temp_limit_now,
            "soft temp limit"@,
        )
    }

    /// The names of what happened earlier this boot.
    pub open spec fn sticky_names(self) -> Seq<Seq<char>> {
        named(self.undervolted_past, "undervoltage"@) + named(self.freq_capped_past, "freq cap"@)
            + named(self.throttled_past, "throttle"@) + named(
            self.soft_temp_limit_past,
            "soft temp"@,
        ) + named(self.other_past, "other"@)
    }

    /// The summary in words.
    pub open spec fn summary(self) -> Seq<char> {
        if self.live() {
            "throttling now: "@ + join(self.live_names(), ", "@)
        } else if self.sticky() {
            "since boot: "@ + join(self.sticky_names(), ", "@)
        } else {
            "healthy"@
        }
    }

    /// Reads a health word.
    pub fn from_bits(bits: u32) -> (r: ThrottleState)
        ensures
            r == ThrottleState::of_bits(bits),
    {
        ThrottleState {
            undervolted_now: bits & (1u32 << 0u32) != 0,
            freq_capped_now: bits & (1u32 << 1u32) != 0,
            throttled_now: bits & (1u32 << 2u32) != 0,
            soft_temp_limit_now: bits & (1u32 << 3u32) != 0,
            undervolted_past: bits & (1u32 << 16u32) != 0,
            freq_capped_past: bits & (1u32 << 17u32) != 0,
            throttled_past: bits & (1u32 << 18u32) != 0,
            soft_temp_limit_past: bits & (1u32 << 19u32) != 0,
            other_past: bits & 0x00f0_0000 != 0,
        }
    }

    /// Reads the firmware's answer, such as `throttled=0x50000`.
    pub fn from_hex(text: &str) -> (r: Option<ThrottleState>)
        ensures
            r == ThrottleState::of_answer(text@),
    {
        match parse_hex(stripped_repeatedly(trimmed(text), "throttled=0x")) {
            Some(bits) => Some(ThrottleState::from_bits(bits)),
            None => None,
        }
    }

    /// True when any live condition is active.
    pub fn active_now(&self) -> (r: bool)
        ensures
            r == self.live(),
    {
        self.undervolted_now || self.freq_capped_now || self.throttled_now
            || self.soft_temp_limit_now
    }

    /// True when anything has happened since boot, live or historical.
    pub fn any_event(&self) -> (r: bool)
        ensures
            r == (self.live() || self.sticky()),
    {
        self.active_now() || self.undervolted_past || self.freq_capped_past || self.throttled_past
            || self.soft_temp_limit_past || self.other_past
    }

    /// Short human summary: `healthy`, `throttling now: ...` or
    /// `since boot: ...`.
    pub fn describe(&self) -> (r: String)
        ensures
            r@ == self.summary(),
    {
        let mut live: Vec<&str> = Vec::new();
        push_if(&mut live, self.undervolted_now, "undervoltage");
        push_if(&mut live, self.freq_capped_now, "freq capped");
        push_if(&mut live, self.throttled_now, "throttled");
        push_if(&mut live, self.soft_temp_limit_now, "soft temp limit");
        assert(views(live@) == self.live_names());
        if live.len() > 0 {
            return "throttling now: ".to_owned().concat(joined(&live, ", ").as_str());
        }
        let mut past: Vec<&str> = Vec::new();
        push_if(&mut past, self.undervolted_past, "undervoltage");
        push_if(&mut past, self.freq_capped_past, "freq cap");
        push_if(&mut past, self.throttled_past, "throttle");
        push_if(&mut past, self.soft_temp_limit_past, "soft temp");
        push_if(&mut past, self.other_past, "other");
        assert(views(past@) == self.sticky_names());
        if past.len() == 0 {
            "healthy".to_owned()
        } else {
            "since boot: ".to_owned().concat(joined(&past, ", ").as_str())
        }
    }
}

impl Default for ThrottleState {
    fn default() -> (r: ThrottleState)
        ensures
            r == ThrottleState::quiet(),
    {
        ThrottleState {
            undervolted_now: false,
            freq_capped_now: false,
            throttled_now: false,
            soft_temp_limit_now: false,
            undervolted_past: false,
            freq_capped_past: false,
            throttled_past: false,
            soft_temp_limit_past: false,
            other_past: false,
        }
    }
}

fn push_if<'a>(list: &mut Vec<&'a str>, present: bool, name: &'a str)
    ensures
        views(final(list)@) == views(old(list)@) + named(present, name@),
{
    if present {
        list.push(name);
    }
    assert(views(list@) == views(old(list)@) + named(present, name@));
}

/// Only the four live bits and the eight sticky bits of a health word count. A
/// live condition is one of the former, and something has happened since boot
/// exactly when any of the twelve is set.
pub proof fn law_bits_that_count(bits: u32)
    ensures
        ThrottleState::of_bits(bits).live() <==> bits & 0x0000_000f != 0,
        ThrottleState::of_bits(bits).sticky() <==> bits & 0x00ff_0000 != 0,
        ThrottleState::of_bits(bits).live() || ThrottleState::of_bits(bits).sticky() <==> bits
            & 0x00ff_000f != 0,
        ThrottleState::of_bits(bits) == ThrottleState::of_bits(bits & 0x00ff_000f),
        ThrottleState::of_bits(0) == ThrottleState::quiet(),
{
    assert(bits & (1u32 << 0u32) != 0 || bits & (1u32 << 1u32) != 0 || bits & (1u32 << 2u32) != 0
        || bits & (1u32 << 3u32) != 0 <==> bits & 0x0000_000f != 0) by (bit_vector);
    assert(bits & (1u32 << 16u32) != 0 || bits & (1u32 << 17u32) != 0 || bits & (1u32 << 18u32) != 0
        || bits & (1u32 << 19u32) != 0 || bits & 0x00f0_0000 != 0 <==> bits & 0x00ff_0000 != 0)
        by (bit_vector);
    assert(bits & 0x0000_000f != 0 || bits & 0x00ff_0000 != 0 <==> bits & 0x00ff_000f != 0)
        by (bit_vector);
    assert(forall|place: u32|
        place < 4 || 16 <= place < 20 ==> #[trigger] ((bits & 0x00ff_000f) & (1u32 << place))
            == bits & (1u32 << place)) by (bit_vector);
    assert((bits & 0x00ff_000f) & 0x00f0_0000 == bits & 0x00f0_0000) by (bit_vector);
    assert(forall|place: u32| #[trigger] (0u32 & (1u32 << place)) == 0) by (bit_vector);
    assert(0u32 & 0x00f0_0000 == 0) by (bit_vector);
}

/// The summary says which of three states the board is in: `healthy` exactly
/// without any event since boot, otherwise with the live conditions first.
pub proof fn law_summary_tells_the_state(state: ThrottleState)
    ensures
        state.summary() == "healthy"@ <==> !state.live() && !state.sticky(),
        "throttling now: "@.is_prefix_of(state.summary()) <==> state.live(),
        "since boot: "@.is_prefix_of(state.summary()) <==> !state.live() && state.sticky(),
{
    reveal_strlit("healthy");
    reveal_strlit("throttling now: ");
    reveal_strlit("since boot: ");
    let s = state.summary();
    if state.live() {
        assert(s[0] == 't');
        assert("throttling now: "@ =~= s.take("throttling now: "@.len() as int));
    } else if state.sticky() {
        assert(s[0] == 's');
        assert("since boot: "@ =~= s.take("since boot: "@.len() as int));
    } else {
        assert(s[0] == 'h');
    }
    assert("throttling now: "@[0] == 't');
    assert("since boot: "@[0] == 's');
    assert("healthy"@[0] == 'h');
}

} // verus!
