//! Countdown timers handled in-app: they are kept in a registry so they can
//! be listed and cancelled, and each one waits out its duration and then fires.
//! The registry lives in memory only; a timer does not survive a restart.

use vstd::prelude::*;
use std::sync::Arc;
use std::sync::atomic::AtomicBool;
use crate::clock::{epoch_ms, MAX_CLOCK_MS};
use crate::numbers::{decimal, push_decimal, digits_value, lemma_decimal_digits};
use crate::text::push_char;

verus! {

/// The longest a timer may run, in seconds (a day).
pub const MAX_TIMER_SECONDS: u64 = 86400;

/// How often a waiting timer looks at its cancel flag, in milliseconds.
pub const TIMER_POLL_MS: u64 = 400;

/// The event a timer emits, with its label as payload, when it elapses.
pub const TIMER_FIRED_EVENT: &'static str = "chute://timer-fired";

/// The latest firing time a registered timer can have.
pub open spec fn max_fire_at_ms() -> int {
    MAX_CLOCK_MS + MAX_TIMER_SECONDS * 1000
}

/// A live countdown timer, kept for listing and cancellation.
pub struct TimerEntry {
    pub label: String,
    pub fire_at_ms: u128,
    pub cancel: Arc<AtomicBool>,
}

/// A timer as it is listed: its id, its label and the whole seconds left.
pub struct ActiveTimer {
    pub id: String,
    pub label: String,
    pub remaining_seconds: i64,
}

struct TimerSlot {
    id: String,
    entry: TimerEntry,
}

/// The live timers, each under its own id.
pub struct TimerRegistry {
    slots: Vec<TimerSlot>,
}

/// A requested length brought into 1 ..= `MAX_TIMER_SECONDS`.
pub open spec fn clamp_seconds(seconds: u64) -> u64 {
    if seconds < 1 {
        1
    } else if seconds > MAX_TIMER_SECONDS {
        MAX_TIMER_SECONDS
    } else {
        seconds
    }
}

/// The id of a timer started at `ms` milliseconds past the epoch: `t` and the number.
pub open spec fn timer_id(ms: u128) -> Seq<char> {
    seq!['t'] + decimal(ms as nat)
}

/// When a timer of `seconds` started at `now_ms` fires.
pub open spec fn fire_time(now_ms: u128, seconds: u64) -> int {
    now_ms + clamp_seconds(seconds) * 1000
}

/// The whole seconds from `now_ms` to `fire_at_ms`, rounded toward zero and
/// brought into an `i64` as `as` does.
pub open spec fn remaining_seconds(fire_at_ms: u128, now_ms: u128) -> i64 {
    let diff: int = fire_at_ms - now_ms;
    let whole: int = if diff >= 0 { diff / 1000 } else { -((-diff) / 1000) };
    whole as i64
}

/// `out` lists the timers of `m` at time `now_ms`: each timer once, with its
/// label and remaining seconds, in ascending order of remaining seconds.
pub open spec fn is_listing(
    m: Map<Seq<char>, (Seq<char>, u128, Arc<AtomicBool>)>,
    now_ms: u128,
    out: Seq<ActiveTimer>,
) -> bool {
    &&& forall|i: int, j: int|
        0 <= i < j < out.len() ==> #[trigger] out[i].remaining_seconds
            <= #[trigger] out[j].remaining_seconds
    &&& forall|i: int, j: int| 0 <= i < j < out.len() ==> #[trigger] out[i].id@ != #[trigger] out[j].id@
    &&& forall|i: int|
        0 <= i < out.len() ==> {
            &&& m.contains_key(#[trigger] out[i].id@)
            &&& out[i].label@ == m[out[i].id@].0
            &&& out[i].remaining_seconds == remaining_seconds(m[out[i].id@].1, now_ms)
        }
    &&& forall|k: Seq<char>|
        #[trigger] m.contains_key(k) ==> exists|i: int| 0 <= i < out.len() && #[trigger] out[i].id@ == k
}

spec fn slots_distinct(s: Seq<TimerSlot>) -> bool {
    forall|i: int, j: int| 0 <= i < s.len() && 0 <= j < s.len() && i != j ==> #[trigger] s[i].id@ != #[trigger] s[j].id@
}

spec fn has_key(s: Seq<TimerSlot>, k: Seq<char>) -> bool {
    exists|i: int| 0 <= i < s.len() && #[trigger] s[i].id@ == k
}

spec fn key_index(s: Seq<TimerSlot>, k: Seq<char>) -> int {
    choose|i: int| 0 <= i < s.len() && #[trigger] s[i].id@ == k
}

spec fn slot_value(t: TimerSlot) -> (Seq<char>, u128, Arc<AtomicBool>) {
    (t.entry.label@, t.entry.fire_at_ms, t.entry.cancel)
}

spec fn slots_map(s: Seq<TimerSlot>) -> Map<Seq<char>, (Seq<char>, u128, Arc<AtomicBool>)> {
    Map::new(|k: Seq<char>| has_key(s, k), |k: Seq<char>| slot_value(s[key_index(s, k)]))
}

proof fn lemma_map_at(s: Seq<TimerSlot>, i: int)
    requires
        slots_distinct(s),
        0 <= i < s.len(),
    ensures
        slots_map(s).contains_key(s[i].id@),
        slots_map(s)[s[i].id@] == slot_value(s[i]),
{
    let k = s[i].id@;
    assert(has_key(s, k));
    let j = key_index(s, k);
    assert(s[j].id@ == k);
    if j != i {
        assert(s[i].id@ != s[j].id@);
    }
}

proof fn lemma_map_update(s: Seq<TimerSlot>, i: int, t: TimerSlot)
    requires
        slots_distinct(s),
        0 <= i < s.len(),
        t.id@ == s[i].id@,
    ensures
        slots_distinct(s.update(i, t)),
        slots_map(s.update(i, t)) == slots_map(s).insert(t.id@, slot_value(t)),
{
    let u = s.update(i, t);
    assert forall|a: int, b: int| 0 <= a < u.len() && 0 <= b < u.len() && a != b implies #[trigger] u[a].id@
        != #[trigger] u[b].id@ by {
        assert(s[a].id@ != s[b].id@);
    }
    let m = slots_map(s).insert(t.id@, slot_value(t));
    assert forall|k: Seq<char>| #[trigger] slots_map(u).contains_key(k) <==> m.contains_key(k) by {
        if has_key(u, k) {
            let j = choose|j: int| 0 <= j < u.len() && #[trigger] u[j].id@ == k;
            assert(s[j].id@ == k);
            assert(has_key(s, k));
        }
        if has_key(s, k) {
            let j = choose|j: int| 0 <= j < s.len() && #[trigger] s[j].id@ == k;
            assert(u[j].id@ == k);
            assert(has_key(u, k));
        }
    }
    assert forall|k: Seq<char>| #[trigger] slots_map(u).contains_key(k) implies slots_map(u)[k] == m[k] by {
        if k == t.id@ {
            lemma_map_at(u, i);
        } else {
            let j = choose|j: int| 0 <= j < u.len() && #[trigger] u[j].id@ == k;
            lemma_map_at(u, j);
            lemma_map_at(s, j);
        }
    }
    assert(slots_map(u) =~= m);
}

proof fn lemma_map_push(s: Seq<TimerSlot>, t: TimerSlot)
    requires
        slots_distinct(s),
        !has_key(s, t.id@),
    ensures
        slots_distinct(s.push(t)),
        slots_map(s.push(t)) == slots_map(s).insert(t.id@, slot_value(t)),
{
    let u = s.push(t);
    assert forall|a: int, b: int| 0 <= a < u.len() && 0 <= b < u.len() && a != b implies #[trigger] u[a].id@
        != #[trigger] u[b].id@ by {
        if a < s.len() && b < s.len() {
            assert(s[a].id@ != s[b].id@);
        } else if a < s.len() {
            assert(s[a].id@ != t.id@);
        } else {
            assert(s[b].id@ != t.id@);
        }
    }
    let m = slots_map(s).insert(t.id@, slot_value(t));
    assert forall|k: Seq<char>| #[trigger] slots_map(u).contains_key(k) <==> m.contains_key(k) by {
        if has_key(u, k) {
            let j = choose|j: int| 0 <= j < u.len() && #[trigger] u[j].id@ == k;
            if j < s.len() {
                assert(s[j].id@ == k);
                assert(has_key(s, k));
            }
        }
        if has_key(s, k) {
            let j = choose|j: int| 0 <= j < s.len() && #[trigger] s[j].id@ == k;
            assert(u[j].id@ == k);
            assert(has_key(u, k));
        }
        if k == t.id@ {
            assert(u[s.len() as int].id@ == k);
            assert(has_key(u, k));
        }
    }
    assert forall|k: Seq<char>| #[trigger] slots_map(u).contains_key(k) implies slots_map(u)[k] == m[k] by {
        if k == t.id@ {
            lemma_map_at(u, s.len() as int);
        } else {
            let j = choose|j: int| 0 <= j < u.len() && #[trigger] u[j].id@ == k;
            lemma_map_at(u, j);
            if j < s.len() {
                lemma_map_at(s, j);
            }
        }
    }
    assert(slots_map(u) =~= m);
}

proof fn lemma_map_remove(s: Seq<TimerSlot>, i: int)
    requires
        slots_distinct(s),
        0 <= i < s.len(),
    ensures
        slots_distinct(s.remove(i)),
        slots_map(s.remove(i)) == slots_map(s).remove(s[i].id@),
{
    let u = s.remove(i);
    s.remove_ensures(i);
    let gone = s[i].id@;
    assert forall|a: int| 0 <= a < u.len() implies #[trigger] u[a] == s[if a < i { a } else { a + 1 }] by {}
    assert forall|a: int, b: int| 0 <= a < u.len() && 0 <= b < u.len() && a != b implies #[trigger] u[a].id@
        != #[trigger] u[b].id@ by {
        let a1 = if a < i { a } else { a + 1 };
        let b1 = if b < i { b } else { b + 1 };
        assert(u[a] == s[a1]);
        assert(u[b] == s[b1]);
        assert(s[a1].id@ != s[b1].id@);
    }
    let m = slots_map(s).remove(gone);
    assert forall|k: Seq<char>| #[trigger] slots_map(u).contains_key(k) <==> m.contains_key(k) by {
        if has_key(u, k) {
            let j = choose|j: int| 0 <= j < u.len() && #[trigger] u[j].id@ == k;
            let j1 = if j < i { j } else { j + 1 };
            assert(u[j] == s[j1]);
            assert(s[j1].id@ == k);
            assert(has_key(s, k));
            assert(s[i].id@ != s[j1].id@);
        }
        if has_key(s, k) && k != gone {
            let j = choose|j: int| 0 <= j < s.len() && #[trigger] s[j].id@ == k;
            assert(j != i);
            let j0 = if j < i { j } else { j - 1 };
            assert(u[j0] == s[j]);
            assert(u[j0].id@ == k);
            assert(has_key(u, k));
        }
    }
    assert forall|k: Seq<char>| #[trigger] slots_map(u).contains_key(k) implies slots_map(u)[k] == m[k] by {
        let j = choose|j: int| 0 <= j < u.len() && #[trigger] u[j].id@ == k;
        let j1 = if j < i { j } else { j + 1 };
        assert(u[j] == s[j1]);
        lemma_map_at(u, j);
        lemma_map_at(s, j1);
    }
    assert(slots_map(u) =~= m);
}

impl View for TimerRegistry {
    type V = Map<Seq<char>, (Seq<char>, u128, Arc<AtomicBool>)>;

    /// Each live timer's id, mapped to its label, its firing time and the
    /// cancel flag its waiting side watches.
    closed spec fn view(&self) -> Map<Seq<char>, (Seq<char>, u128, Arc<AtomicBool>)> {
        slots_map(self.slots@)
    }
}

impl TimerRegistry {
    /// Ids are unique and firing times stay within what a clock reading and
    /// the longest timer give.
    #[verifier::type_invariant]
    spec fn wf(&self) -> bool {
        &&& slots_distinct(self.slots@)
        &&& forall|i: int|
            0 <= i < self.slots@.len() ==> #[trigger] self.slots@[i].entry.fire_at_ms
                <= max_fire_at_ms()
    }

    /// No timers.
    pub fn new() -> (r: TimerRegistry)
        ensures
            r@ == Map::<Seq<char>, (Seq<char>, u128, Arc<AtomicBool>)>::empty(),
    {
        let r = TimerRegistry { slots: Vec::new() };
        assert(r@ =~= Map::<Seq<char>, (Seq<char>, u128, Arc<AtomicBool>)>::empty());
        r
    }

    fn find(&self, id: &String) -> (r: Option<usize>)
        ensures
            match r {
                Some(i) => i < self.slots@.len() && self.slots@[i as int].id@ == id@,
                None => !has_key(self.slots@, id@),
            },
    {
        let mut i: usize = 0;
        while i < self.slots.len()
            invariant
                i <= self.slots@.len(),
                forall|j: int| 0 <= j < i ==> #[trigger] self.slots@[j].id@ != id@,
            decreases self.slots@.len() - i,
        {
            if self.slots[i].id == *id {
                return Some(i);
            }
            i += 1;
        }
        None
    }

    /// Whether a timer is kept under `id`.
    pub fn contains(&self, id: &String) -> (r: bool)
        ensures
            r == self@.contains_key(id@),
    {
        proof {
            use_type_invariant(self);
        }
        match self.find(id) {
            Some(i) => {
                proof {
                    lemma_map_at(self.slots@, i as int);
                }
                true
            },
            None => false,
        }
    }

    /// Keeps `entry` under `id`, in place of any timer kept there before,
    /// which is handed back.
    pub fn insert(&mut self, id: String, entry: TimerEntry) -> (r: Option<TimerEntry>)
        requires
            entry.fire_at_ms <= max_fire_at_ms(),
        ensures
            final(self)@ == old(self)@.insert(id@, (entry.label@, entry.fire_at_ms, entry.cancel)),
            r is Some <==> old(self)@.contains_key(id@),
            r matches Some(e) ==> old(self)@[id@] == (e.label@, e.fire_at_ms, e.cancel),
    {
        proof {
            use_type_invariant(&*self);
        }
        let ghost s = self.slots@;
        let found = self.find(&id);
        let mut slots: Vec<TimerSlot> = Vec::new();
        std::mem::swap(&mut slots, &mut self.slots);
        match found {
            Some(i) => {
                let previous = slots.remove(i);
                slots.insert(i, TimerSlot { id, entry });
                proof {
                    let t = slots@[i as int];
                    assert(slots@ =~= s.update(i as int, t));
                    lemma_map_at(s, i as int);
                    lemma_map_update(s, i as int, t);
                    assert forall|j: int| 0 <= j < slots@.len() implies #[trigger] slots@[j].entry.fire_at_ms
                        <= max_fire_at_ms() by {
                        if j != i {
                            assert(slots@[j] == s[j]);
                            assert(s[j].entry.fire_at_ms <= max_fire_at_ms());
                        }
                    }
                }
                self.slots = slots;
                Some(previous.entry)
            },
            None => {
                slots.push(TimerSlot { id, entry });
                proof {
                    let t = slots@.last();
                    assert(slots@ =~= s.push(t));
                    lemma_map_push(s, t);
                    assert forall|j: int| 0 <= j < slots@.len() implies #[trigger] slots@[j].entry.fire_at_ms
                        <= max_fire_at_ms() by {
                        if j < s.len() {
                            assert(slots@[j] == s[j]);
                            assert(s[j].entry.fire_at_ms <= max_fire_at_ms());
                        }
                    }
                }
                self.slots = slots;
                None
            },
        }
    }

    /// Drops the timer kept under `id` and hands it back, if there is one.
    pub fn remove(&mut self, id: &String) -> (r: Option<TimerEntry>)
        ensures
            final(self)@ == old(self)@.remove(id@),
            r is Some <==> old(self)@.contains_key(id@),
            r matches Some(e) ==> old(self)@[id@] == (e.label@, e.fire_at_ms, e.cancel),
    {
        proof {
            use_type_invariant(&*self);
        }
        let ghost s = self.slots@;
        match self.find(id) {
            Some(i) => {
                let mut slots: Vec<TimerSlot> = Vec::new();
                std::mem::swap(&mut slots, &mut self.slots);
                let slot = slots.remove(i);
                proof {
                    lemma_map_at(s, i as int);
                    lemma_map_remove(s, i as int);
                    s.remove_ensures(i as int);
                    assert forall|j: int| 0 <= j < slots@.len() implies #[trigger] slots@[j].entry.fire_at_ms
                        <= max_fire_at_ms() by {
                        if j < i {
                            assert(slots@[j] == s[j]);
                            assert(s[j].entry.fire_at_ms <= max_fire_at_ms());
                        } else {
                            assert(slots@[j] == s[j + 1]);
                            assert(s[j + 1].entry.fire_at_ms <= max_fire_at_ms());
                        }
                    }
                }
                self.slots = slots;
                Some(slot.entry)
            },
            None => {
                proof {
                    assert(!slots_map(s).contains_key(id@));
                    assert(slots_map(s).remove(id@) =~= slots_map(s));
                }
                None
            },
        }
    }
}

/// `seconds` brought into 1 ..= `MAX_TIMER_SECONDS`.
pub fn clamp_timer_seconds(seconds: u64) -> (r: u64)
    ensures
        r == clamp_seconds(seconds),
{
    if seconds < 1 {
        1
    } else if seconds > MAX_TIMER_SECONDS {
        MAX_TIMER_SECONDS
    } else {
        seconds
    }
}

/// Registers a timer of `seconds` (clamped to 1 ..= a day) named `label`,
/// with the id taken from `id_ms` and the firing time counted from `now_ms`.
/// Returns the id. A timer already kept under that id is replaced.
pub fn register_timer(
    timers: &mut TimerRegistry,
    id_ms: u128,
    now_ms: u128,
    seconds: u64,
    label: String,
    cancel: Arc<AtomicBool>,
) -> (id: String)
    requires
        now_ms <= MAX_CLOCK_MS,
    ensures
        id@ == timer_id(id_ms),
        final(timers)@ == old(timers)@.insert(id@, (label@, fire_time(now_ms, seconds) as u128, cancel)),
{
    let seconds = clamp_timer_seconds(seconds);
    let fire_at_ms = now_ms + (seconds as u128) * 1000;
    let mut id = String::new();
    push_char(&mut id, 't');
    push_decimal(&mut id, id_ms);
    assert(id@ =~= timer_id(id_ms));
    let key = id.clone();
    let _replaced = timers.insert(key, TimerEntry { label, fire_at_ms, cancel });
    id
}

/// Starts a countdown timer of `seconds` (clamped to 1 ..= a day) named
/// `label`, and returns its id, `t` followed by the clock reading in
/// milliseconds. `cancel` is the flag its waiting side watches.
pub fn start_chute_timer(
    timers: &mut TimerRegistry,
    seconds: u64,
    label: String,
    cancel: Arc<AtomicBool>,
) -> (r: Result<String, String>)
    ensures
        r is Ok,
        r matches Ok(id) ==> {
            &&& exists|ms: u128| ms <= MAX_CLOCK_MS && id@ == timer_id(ms)
            &&& exists|now: u128|
                now <= MAX_CLOCK_MS && final(timers)@ == old(timers)@.insert(
                    id@,
                    (label@, fire_time(now, seconds) as u128, cancel),
                )
        },
{
    let id_ms = epoch_ms();
    let now_ms = epoch_ms();
    let id = register_timer(timers, id_ms, now_ms, seconds, label, cancel);
    Ok(id)
}

/// Cancels the timer kept under `id`: it is dropped from the registry, and
/// the body then stores `true` in the cancel flag it was kept with (the one
/// `remove` hands back). The contract states the removal; the flag's value is
/// not modelled, so no clause speaks of it. An unknown id changes nothing.
/// Always `Ok`.
pub fn cancel_chute_timer(timers: &mut TimerRegistry, id: String) -> (r: Result<(), String>)
    ensures
        final(timers)@ == old(timers)@.remove(id@),
        r is Ok,
{
    if let Some(entry) = timers.remove(&id) {
        entry.cancel.store(true, std::sync::atomic::Ordering::Relaxed);
    }
    Ok(())
}

/// The whole seconds from `now_ms` to `fire_at_ms`, rounded toward zero.
pub fn seconds_until(fire_at_ms: u128, now_ms: u128) -> (r: i64)
    requires
        fire_at_ms <= max_fire_at_ms(),
        now_ms <= MAX_CLOCK_MS,
    ensures
        r == remaining_seconds(fire_at_ms, now_ms),
{
    let whole: i128 = if fire_at_ms >= now_ms {
        ((fire_at_ms - now_ms) / 1000) as i128
    } else {
        0 - (((now_ms - fire_at_ms) / 1000) as i128)
    };
    whole as i64
}

/// The timers as listed at `now_ms`: each once, with its label and remaining
/// seconds, soonest first.
pub fn active_timers_at(timers: &TimerRegistry, now_ms: u128) -> (r: Vec<ActiveTimer>)
    requires
        now_ms <= MAX_CLOCK_MS,
    ensures
        is_listing(timers@, now_ms, r@),
{
    proof {
        use_type_invariant(timers);
    }
    let slots = &timers.slots;
    let n = slots.len();
    let mut out: Vec<ActiveTimer> = Vec::new();
    let ghost mut origin: Seq<int> = Seq::empty();
    let ghost mut pos: Seq<int> = Seq::empty();
    let mut j: usize = 0;
    while j < n
        invariant
            n == slots@.len(),
            slots@ == timers.slots@,
            timers.wf(),
            now_ms <= MAX_CLOCK_MS,
            j <= n,
            out@.len() == j,
            origin.len() == j,
            pos.len() == j,
            forall|a: int, b: int|
                0 <= a < b < out@.len() ==> #[trigger] out@[a].remaining_seconds
                    <= #[trigger] out@[b].remaining_seconds,
            forall|a: int|
                0 <= a < out@.len() ==> {
                    &&& 0 <= #[trigger] origin[a] < j
                    &&& out@[a].id@ == slots@[origin[a]].id@
                    &&& out@[a].label@ == slots@[origin[a]].entry.label@
                    &&& out@[a].remaining_seconds == remaining_seconds(
                        slots@[origin[a]].entry.fire_at_ms,
                        now_ms,
                    )
                },
            forall|a: int, b: int|
                0 <= a < out@.len() && 0 <= b < out@.len() && a != b ==> #[trigger] origin[a]
                    != #[trigger] origin[b],
            forall|m: int|
                0 <= m < j ==> 0 <= #[trigger] pos[m] < out@.len() && origin[pos[m]] == m,
        decreases n - j,
    {
        let slot = &slots[j];
        assert(slots@[j as int].entry.fire_at_ms <= max_fire_at_ms());
        let rem = seconds_until(slot.entry.fire_at_ms, now_ms);
        let item = ActiveTimer { id: slot.id.clone(), label: slot.entry.label.clone(), remaining_seconds: rem };
        let mut p: usize = 0;
        while p < out.len() && out[p].remaining_seconds <= rem
            invariant
                p <= out@.len(),
                forall|a: int| 0 <= a < p ==> #[trigger] out@[a].remaining_seconds <= rem,
            decreases out@.len() - p,
        {
            p += 1;
        }
        let ghost before = out@;
        out.insert(p, item);
        proof {
            before.insert_ensures(p as int, item);
            let new_origin = origin.insert(p as int, j as int);
            origin.insert_ensures(p as int, j as int);
            let new_pos = Seq::new(
                (j + 1) as nat,
                |m: int| if m == j { p as int } else if pos[m] >= p { pos[m] + 1 } else { pos[m] },
            );
            assert forall|a: int| 0 <= a < out@.len() implies #[trigger] out@[a] == (if a < p {
                before[a]
            } else if a == p {
                item
            } else {
                before[a - 1]
            }) by {
                if a > p {
                    assert(out@[(a - 1) + 1] == before[a - 1]);
                }
            }
            assert forall|a: int| 0 <= a < new_origin.len() implies #[trigger] new_origin[a] == (if a < p {
                origin[a]
            } else if a == p {
                j as int
            } else {
                origin[a - 1]
            }) by {
                if a > p {
                    assert(new_origin[(a - 1) + 1] == origin[a - 1]);
                }
            }
            assert forall|a: int, b: int|
                0 <= a < b < out@.len() implies #[trigger] out@[a].remaining_seconds
                <= #[trigger] out@[b].remaining_seconds by {
                if b < p {
                } else if b == p {
                } else if a < p {
                    assert(before[a].remaining_seconds <= rem);
                    if p < before.len() {
                        assert(before[p as int].remaining_seconds > rem);
                        if b - 1 > p {
                            assert(before[p as int].remaining_seconds <= before[b - 1].remaining_seconds);
                        }
                    }
                } else if a == p {
                    assert(before[p as int].remaining_seconds > rem);
                    if b - 1 > p {
                        assert(before[p as int].remaining_seconds <= before[b - 1].remaining_seconds);
                    }
                } else {
                    assert(before[a - 1].remaining_seconds <= before[b - 1].remaining_seconds);
                }
            }
            assert forall|a: int, b: int|
                0 <= a < out@.len() && 0 <= b < out@.len() && a != b implies #[trigger] new_origin[a]
                != #[trigger] new_origin[b] by {
                if a != p && b != p {
                    let a1 = if a < p { a } else { a - 1 };
                    let b1 = if b < p { b } else { b - 1 };
                    assert(origin[a1] != origin[b1]);
                }
            }
            assert forall|m: int| 0 <= m < j + 1 implies 0 <= #[trigger] new_pos[m] < out@.len()
                && new_origin[new_pos[m]] == m by {
                if m < j {
                    assert(origin[pos[m]] == m);
                }
            }
            origin = new_origin;
            pos = new_pos;
        }
        j += 1;
    }
    proof {
        let s = slots@;
        let mp = timers@;
        assert forall|a: int, b: int| 0 <= a < b < out@.len() implies #[trigger] out@[a].id@
            != #[trigger] out@[b].id@ by {
            assert(origin[a] != origin[b]);
            assert(s[origin[a]].id@ != s[origin[b]].id@);
        }
        assert forall|a: int| 0 <= a < out@.len() implies {
            &&& mp.contains_key(#[trigger] out@[a].id@)
            &&& out@[a].label@ == mp[out@[a].id@].0
            &&& out@[a].remaining_seconds == remaining_seconds(mp[out@[a].id@].1, now_ms)
        } by {
            lemma_map_at(s, origin[a]);
        }
        assert forall|k: Seq<char>| #[trigger] mp.contains_key(k) implies exists|a: int|
            0 <= a < out@.len() && #[trigger] out@[a].id@ == k by {
            let m = key_index(s, k);
            assert(out@[pos[m]].id@ == k);
        }
    }
    out
}

/// The timers as listed now: each once, with its label and the whole seconds
/// left, soonest first.
pub fn list_chute_timers(timers: &TimerRegistry) -> (r: Vec<ActiveTimer>)
    ensures
        exists|now: u128| now <= MAX_CLOCK_MS && is_listing(timers@, now, r@),
{
    let now_ms = epoch_ms();
    active_timers_at(timers, now_ms)
}

/// What a waiting timer does next.
#[derive(Clone, Copy, Debug, PartialEq, Eq)]
pub enum TimerStep {
    /// It was cancelled: stop without firing.
    Stop,
    /// Its time has not come: wait `TIMER_POLL_MS` and look again.
    Wait,
    /// Its time has come: drop it from the registry, announce it and emit
    /// `TIMER_FIRED_EVENT`.
    Fire,
}

/// The next step of a timer of `seconds` that has waited `elapsed_ms` so far:
/// a raised cancel flag always stops it, and it fires once its time is up.
pub fn next_timer_step(cancelled: bool, elapsed_ms: u128, seconds: u64) -> (r: TimerStep)
    ensures
        r == (if cancelled {
            TimerStep::Stop
        } else if elapsed_ms < seconds * 1000 {
            TimerStep::Wait
        } else {
            TimerStep::Fire
        }),
{
    if cancelled {
        TimerStep::Stop
    } else if elapsed_ms < (seconds as u128) * 1000 {
        TimerStep::Wait
    } else {
        TimerStep::Fire
    }
}

/// A timer just started is listed, under its id and label, with its whole
/// (clamped) length left: whatever timers were kept before, a listing taken
/// at the moment of the start shows it with `clamp_seconds(seconds)` seconds.
pub proof fn started_timer_is_listed(
    before: Map<Seq<char>, (Seq<char>, u128, Arc<AtomicBool>)>,
    id: Seq<char>,
    label: Seq<char>,
    cancel: Arc<AtomicBool>,
    now_ms: u128,
    seconds: u64,
    listing: Seq<ActiveTimer>,
)
    requires
        now_ms <= MAX_CLOCK_MS,
        is_listing(
            before.insert(id, (label, fire_time(now_ms, seconds) as u128, cancel)),
            now_ms,
            listing,
        ),
    ensures
        exists|i: int|
            0 <= i < listing.len() && #[trigger] listing[i].id@ == id && listing[i].label@ == label
                && listing[i].remaining_seconds == clamp_seconds(seconds) as i64,
{
    let m = before.insert(id, (label, fire_time(now_ms, seconds) as u128, cancel));
    assert(m.contains_key(id));
    let i = choose|i: int| 0 <= i < listing.len() && #[trigger] listing[i].id@ == id;
    let c = clamp_seconds(seconds);
    let diff: int = (fire_time(now_ms, seconds) as u128) - now_ms;
    assert(diff == c * 1000);
    assert(diff / 1000 == c);
    assert(listing[i].remaining_seconds == remaining_seconds(fire_time(now_ms, seconds) as u128, now_ms));
}

/// A cancelled timer is gone: no listing taken after the cancel shows its id.
pub proof fn cancelled_timer_is_not_listed(
    before: Map<Seq<char>, (Seq<char>, u128, Arc<AtomicBool>)>,
    id: Seq<char>,
    now_ms: u128,
    listing: Seq<ActiveTimer>,
)
    requires
        is_listing(before.remove(id), now_ms, listing),
    ensures
        forall|i: int| 0 <= i < listing.len() ==> #[trigger] listing[i].id@ != id,
{
    assert forall|i: int| 0 <= i < listing.len() implies #[trigger] listing[i].id@ != id by {
        assert(before.remove(id).contains_key(listing[i].id@));
    }
}

/// Cancelling an id that names no timer leaves the timers as they were.
pub proof fn cancel_of_unknown_id_changes_nothing(
    before: Map<Seq<char>, (Seq<char>, u128, Arc<AtomicBool>)>,
    id: Seq<char>,
)
    requires
        !before.contains_key(id),
    ensures
        before.remove(id) == before,
{
    assert(before.remove(id) =~= before);
}

/// Every timer runs at least a second and at most a day.
pub proof fn timer_length_is_bounded(now_ms: u128, seconds: u64)
    ensures
        1000 <= fire_time(now_ms, seconds) - now_ms <= MAX_TIMER_SECONDS * 1000,
{
}

/// Clock readings that differ give ids that differ.
pub proof fn distinct_readings_give_distinct_ids(a: u128, b: u128)
    requires
        a != b,
    ensures
        timer_id(a) != timer_id(b),
{
    lemma_decimal_digits(a as nat);
    lemma_decimal_digits(b as nat);
    if timer_id(a) == timer_id(b) {
        assert(timer_id(a).drop_first() =~= decimal(a as nat));
        assert(timer_id(b).drop_first() =~= decimal(b as nat));
        assert(digits_value(decimal(a as nat)) == digits_value(decimal(b as nat)));
    }
}

/// Two timers started at different clock readings are both kept, each under
/// its own id with its own label, so each can be listed and cancelled. (Two
/// starts within the same millisecond share an id, and the later one takes
/// the place of the earlier.)
pub proof fn timers_started_apart_are_both_kept(
    before: Map<Seq<char>, (Seq<char>, u128, Arc<AtomicBool>)>,
    first_ms: u128,
    first: (Seq<char>, u128, Arc<AtomicBool>),
    second_ms: u128,
    second: (Seq<char>, u128, Arc<AtomicBool>),
)
    requires
        first_ms != second_ms,
    ensures
        ({
            let after = before.insert(timer_id(first_ms), first).insert(timer_id(second_ms), second);
            &&& timer_id(first_ms) != timer_id(second_ms)
            &&& after.contains_key(timer_id(first_ms)) && after[timer_id(first_ms)] == first
            &&& after.contains_key(timer_id(second_ms)) && after[timer_id(second_ms)] == second
        }),
{
    distinct_readings_give_distinct_ids(first_ms, second_ms);
}

/// The flag a timer is started with is the flag kept for it under its id, as
/// long as no later start took that id; so it is the flag that `remove`, and
/// with it a cancel of that id, hands back.
pub proof fn started_flag_is_the_cancelled_flag(
    before: Map<Seq<char>, (Seq<char>, u128, Arc<AtomicBool>)>,
    id: Seq<char>,
    label: Seq<char>,
    fire_at_ms: u128,
    cancel: Arc<AtomicBool>,
)
    ensures
        before.insert(id, (label, fire_at_ms, cancel)).contains_key(id),
        before.insert(id, (label, fire_at_ms, cancel))[id].2 == cancel,
{
}

/// A timer runs exactly as long as asked whenever the request is within
/// 1 ..= `MAX_TIMER_SECONDS` seconds; a request of 0 runs one second and a
/// longer one runs a day. Its firing time is `now` plus that many seconds.
pub proof fn timer_length_is_the_requested_one(now_ms: u128, seconds: u64)
    ensures
        1 <= seconds <= MAX_TIMER_SECONDS ==> clamp_seconds(seconds) == seconds && fire_time(
            now_ms,
            seconds,
        ) == now_ms + seconds * 1000,
        seconds < 1 ==> clamp_seconds(seconds) == 1,
        seconds > MAX_TIMER_SECONDS ==> clamp_seconds(seconds) == MAX_TIMER_SECONDS,
        1 <= clamp_seconds(seconds) <= MAX_TIMER_SECONDS,
{
}

} // verus!
