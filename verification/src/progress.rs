//! The single progress line under the header.
//!
//! The line is the aggregate of every in-flight operation, real (reported by
//! the backend with a percent) or simulated (short local waits that climb on a
//! timer toward a cap). When the last operation finishes the bar fills to
//! 100 %, holds, then fades out; each of those steps is triggered by a timer
//! that carries the completion token it was armed with, so a new operation that
//! starts in between turns the stale timers into no-ops.
//!
//! The host owns the timers: it arms the hold and fade timers with the token
//! that a completion returns, and re-arms the climb timer for a simulated key
//! as long as `advance_simulated` reports it alive.

use vstd::prelude::*;
use crate::text::{decimal, lemma_decimal_reads_back, push_decimal};
use vstd::string::*;

verus! {

/// Simulated climb step, in percent.
pub const SIM_STEP: u8 = 6;
/// Simulated operations never climb past this cap before they complete.
pub const SIM_CAP: u8 = 90;
/// Milliseconds between two simulated climb steps.
pub const SIM_INTERVAL_MS: u64 = 90;
/// Milliseconds the full bar stays opaque after the last operation finished.
pub const HOLD_MS: u64 = 240;
/// Milliseconds of the fade-out that follows the hold.
pub const FADE_MS: u64 = 340;

/// Lifecycle of the shared bar.
#[derive(Clone, Copy, Debug, PartialEq, Eq, Structural)]
pub enum Phase {
    /// Nothing in flight: the bar is not shown.
    Hidden,
    /// At least one operation in flight: the width tracks the aggregate.
    Running,
    /// All work done: width pinned to 100 %, still fully opaque.
    Hold,
    /// Pinned at 100 % while the opacity animates to 0.
    Fading,
}

/// One in-flight operation.
#[derive(Clone, Copy, Debug, PartialEq, Eq, Structural)]
pub struct ProgressEntry {
    pub percent: u8,
    pub is_real: bool,
}

// ---------------------------------------------------------------------------
// Model
// ---------------------------------------------------------------------------

/// Operations in flight, keyed by operation id.
pub type EntryList = Seq<(Seq<char>, ProgressEntry)>;

pub open spec fn has_key(s: EntryList, k: Seq<char>) -> bool {
    exists|i: int| 0 <= i < s.len() && #[trigger] s[i].0 == k
}

/// The position of key `k` (meaningful when `has_key(s, k)`).
pub open spec fn key_index(s: EntryList, k: Seq<char>) -> int {
    choose|i: int| 0 <= i < s.len() && #[trigger] s[i].0 == k
}

pub open spec fn keys_distinct(s: EntryList) -> bool {
    forall|i: int, j: int| 0 <= i < s.len() && 0 <= j < s.len() && i != j ==> #[trigger] s[i].0 != #[trigger] s[j].0
}

/// Set the entry for `k`, replacing the old one or adding it at the end.
pub open spec fn upsert(s: EntryList, k: Seq<char>, e: ProgressEntry) -> EntryList {
    if has_key(s, k) {
        s.update(key_index(s, k), (k, e))
    } else {
        s.push((k, e))
    }
}

/// Drop the entry for `k`, if any.
pub open spec fn without_key(s: EntryList, k: Seq<char>) -> EntryList {
    if has_key(s, k) {
        s.remove(key_index(s, k))
    } else {
        s
    }
}

pub open spec fn percent_sum(s: EntryList) -> nat
    decreases s.len(),
{
    if s.len() == 0 {
        0
    } else {
        percent_sum(s.drop_last()) + (s.last().1.percent as nat)
    }
}

/// Mean percent of the entries, capped at 100; 0 when nothing is in flight.
pub open spec fn aggregate(s: EntryList) -> nat {
    if s.len() == 0 {
        0
    } else {
        let mean = percent_sum(s) / s.len();
        if mean < 100 { mean } else { 100 }
    }
}

/// The key of the simulated operation numbered `id`.
pub open spec fn sim_key(id: nat) -> Seq<char> {
    "sim."@ + decimal(id)
}

/// Abstract state of the progress line.
pub struct ProgressView {
    pub entries: EntryList,
    pub phase: Phase,
    pub generation: nat,
    pub next_sim_id: nat,
}

impl ProgressView {
    /// Keys are distinct and every entry is strictly below 100 %.
    pub open spec fn wf(self) -> bool {
        &&& keys_distinct(self.entries)
        &&& forall|i: int| 0 <= i < self.entries.len() ==> (#[trigger] self.entries[i]).1.percent < 100
    }

    /// The initial state: nothing in flight, bar hidden.
    pub open spec fn initial() -> Self {
        ProgressView { entries: Seq::empty(), phase: Phase::Hidden, generation: 0, next_sim_id: 0 }
    }

    /// A new operation appeared: show the bar and cancel any pending fade.
    pub open spec fn start_running(self) -> Self {
        ProgressView { phase: Phase::Running, generation: self.generation + 1, ..self }
    }

    /// After an operation was removed: when it was the last one, pin the bar to
    /// full and hand out the token for the hold and fade timers.
    pub open spec fn complete(self) -> (Self, Option<nat>) {
        if self.entries.len() > 0 {
            (self, None)
        } else {
            (ProgressView { phase: Phase::Hold, generation: self.generation + 1, ..self }, Some(self.generation + 1))
        }
    }

    pub open spec fn real_progress(self, op: Seq<char>, percent: u8) -> (Self, Option<nat>) {
        if percent >= 100 {
            ProgressView { entries: without_key(self.entries, op), ..self }.complete()
        } else {
            (ProgressView {
                entries: upsert(self.entries, op, ProgressEntry { percent, is_real: true }),
                ..self
            }.start_running(), None)
        }
    }

    pub open spec fn begin_simulated(self) -> (Self, Seq<char>) {
        let k = sim_key(self.next_sim_id);
        (ProgressView {
            entries: upsert(self.entries, k, ProgressEntry { percent: 0, is_real: false }),
            next_sim_id: self.next_sim_id + 1,
            ..self
        }.start_running(), k)
    }

    pub open spec fn end_simulated(self, k: Seq<char>) -> (Self, Option<nat>) {
        ProgressView { entries: without_key(self.entries, k), ..self }.complete()
    }

    /// One climb step of simulated operation `k`; the flag says whether it is
    /// still alive (so the timer should run again).
    pub open spec fn advance_simulated(self, k: Seq<char>) -> (Self, bool) {
        if has_key(self.entries, k) && !self.entries[key_index(self.entries, k)].1.is_real {
            let old = self.entries[key_index(self.entries, k)].1.percent;
            let next: u8 = if old + SIM_STEP < SIM_CAP { (old + SIM_STEP) as u8 } else { SIM_CAP };
            (ProgressView {
                entries: self.entries.update(key_index(self.entries, k), (k, ProgressEntry { percent: next, is_real: false })),
                ..self
            }, true)
        } else {
            (self, false)
        }
    }

    /// The hold timer armed with `token` fired.
    pub open spec fn hold_elapsed(self, token: nat) -> Self {
        if self.generation == token { ProgressView { phase: Phase::Fading, ..self } } else { self }
    }

    /// The fade timer armed with `token` fired.
    pub open spec fn fade_elapsed(self, token: nat) -> Self {
        if self.generation == token { ProgressView { phase: Phase::Hidden, ..self } } else { self }
    }

    /// Bar width in percent.
    pub open spec fn bar_width(self) -> nat {
        match self.phase {
            Phase::Hidden => 0,
            Phase::Running => aggregate(self.entries),
            _ => 100,
        }
    }

    pub open spec fn bar_opaque(self) -> bool {
        self.phase == Phase::Running || self.phase == Phase::Hold
    }

    pub open spec fn bar_visible(self) -> bool {
        self.phase != Phase::Hidden
    }
}

// ---------------------------------------------------------------------------
// Model lemmas
// ---------------------------------------------------------------------------

proof fn lemma_key_index_unique(s: EntryList, k: Seq<char>, i: int)
    requires
        keys_distinct(s),
        0 <= i < s.len(),
        s[i].0 == k,
    ensures
        has_key(s, k),
        key_index(s, k) == i,
{
    assert(has_key(s, k));
    let j = key_index(s, k);
    if j != i {
        assert(s[i].0 != s[j].0);
    }
}

proof fn lemma_upsert_wf(s: EntryList, k: Seq<char>, e: ProgressEntry)
    requires
        keys_distinct(s),
        forall|i: int| 0 <= i < s.len() ==> (#[trigger] s[i]).1.percent < 100,
        e.percent < 100,
    ensures
        keys_distinct(upsert(s, k, e)),
        forall|i: int| 0 <= i < upsert(s, k, e).len() ==> (#[trigger] upsert(s, k, e)[i]).1.percent < 100,
        has_key(upsert(s, k, e), k),
{
    let r = upsert(s, k, e);
    if has_key(s, k) {
        let idx = key_index(s, k);
        assert forall|i: int, j: int| 0 <= i < r.len() && 0 <= j < r.len() && i != j implies #[trigger] r[i].0 != #[trigger] r[j].0 by {
            if i == idx {
                assert(s[j].0 != s[idx].0);
            } else if j == idx {
                assert(s[i].0 != s[idx].0);
            } else {
                assert(s[i].0 != s[j].0);
            }
        }
        assert(r[idx].0 == k);
    } else {
        assert forall|i: int, j: int| 0 <= i < r.len() && 0 <= j < r.len() && i != j implies #[trigger] r[i].0 != #[trigger] r[j].0 by {
            if i == s.len() {
                assert(s[j].0 != k);
            } else if j == s.len() {
                assert(s[i].0 != k);
            } else {
                assert(s[i].0 != s[j].0);
            }
        }
        assert(r[s.len() as int].0 == k);
    }
}

proof fn lemma_without_key_wf(s: EntryList, k: Seq<char>)
    requires
        keys_distinct(s),
        forall|i: int| 0 <= i < s.len() ==> (#[trigger] s[i]).1.percent < 100,
    ensures
        keys_distinct(without_key(s, k)),
        forall|i: int| 0 <= i < without_key(s, k).len() ==> (#[trigger] without_key(s, k)[i]).1.percent < 100,
        !has_key(without_key(s, k), k),
{
    let r = without_key(s, k);
    if has_key(s, k) {
        let idx = key_index(s, k);
        assert forall|i: int, j: int| 0 <= i < r.len() && 0 <= j < r.len() && i != j implies #[trigger] r[i].0 != #[trigger] r[j].0 by {
            let si = if i < idx { i } else { i + 1 };
            let sj = if j < idx { j } else { j + 1 };
            assert(r[i] == s[si]);
            assert(r[j] == s[sj]);
            assert(s[si].0 != s[sj].0);
        }
        assert forall|i: int| 0 <= i < r.len() implies (#[trigger] r[i]).1.percent < 100 by {
            let si = if i < idx { i } else { i + 1 };
            assert(r[i] == s[si]);
        }
        if has_key(r, k) {
            let m = choose|m: int| 0 <= m < r.len() && #[trigger] r[m].0 == k;
            let sm = if m < idx { m } else { m + 1 };
            assert(r[m] == s[sm]);
            assert(s[sm].0 != s[idx].0);
        }
    }
}

proof fn lemma_percent_sum_bound(s: EntryList)
    requires
        forall|i: int| 0 <= i < s.len() ==> (#[trigger] s[i]).1.percent < 100,
    ensures
        percent_sum(s) <= 99 * s.len(),
    decreases s.len(),
{
    if s.len() > 0 {
        let d = s.drop_last();
        assert forall|i: int| 0 <= i < d.len() implies (#[trigger] d[i]).1.percent < 100 by {
            assert(d[i] == s[i]);
        }
        lemma_percent_sum_bound(d);
        assert(s.last() == s[s.len() - 1]);
    }
}

/// While work is in flight the bar stays short of full: with every entry below
/// 100 %, the aggregate is below 100.
pub proof fn law_running_bar_below_full(m: ProgressView)
    requires
        m.wf(),
    ensures
        aggregate(m.entries) < 100,
        m.phase == Phase::Running ==> m.bar_width() < 100,
        m.phase == Phase::Hold || m.phase == Phase::Fading ==> m.bar_width() == 100,
        m.phase == Phase::Hidden ==> m.bar_width() == 0,
{
    if m.entries.len() > 0 {
        lemma_percent_sum_bound(m.entries);
        let n = m.entries.len();
        let t = percent_sum(m.entries);
        assert(t / n <= 99) by (nonlinear_arith)
            requires
                t <= 99 * n,
                n > 0,
        ;
    }
}

/// A completion's hold and fade timers do nothing once a new operation (real or
/// simulated) has started: the bar keeps running instead of fading away.
pub proof fn law_new_operation_cancels_completion(m: ProgressView, op: Seq<char>, percent: u8)
    requires
        m.wf(),
        percent < 100,
    ensures
        ({
            let (done, token) = m.complete();
            let (busy, _) = done.real_progress(op, percent);
            token is Some ==> busy.hold_elapsed(token->0) == busy && busy.fade_elapsed(token->0) == busy
                && busy.phase == Phase::Running
        }),
        ({
            let (done, token) = m.complete();
            let (busy, _) = done.begin_simulated();
            token is Some ==> busy.hold_elapsed(token->0) == busy && busy.fade_elapsed(token->0) == busy
                && busy.phase == Phase::Running
        }),
{
}

/// Once the last operation ends, the bar fills to 100 % and stays opaque, then
/// (hold timer) stays full while fading, then (fade timer) disappears.
pub proof fn law_completion_fill_hold_fade(m: ProgressView, k: Seq<char>)
    requires
        m.wf(),
        m.entries.len() == 1,
        m.entries[0].0 == k,
    ensures
        ({
            let (done, token) = m.end_simulated(k);
            &&& token is Some
            &&& done.bar_width() == 100 && done.bar_opaque() && done.bar_visible()
            &&& done.hold_elapsed(token->0).bar_width() == 100
            &&& !done.hold_elapsed(token->0).bar_opaque()
            &&& done.hold_elapsed(token->0).bar_visible()
            &&& !done.hold_elapsed(token->0).fade_elapsed(token->0).bar_visible()
            &&& done.hold_elapsed(token->0).fade_elapsed(token->0).bar_width() == 0
        }),
{
    lemma_key_index_unique(m.entries, k, 0);
    assert(m.entries.remove(0).len() == 0);
}

/// A simulated operation climbs in steps but never reaches full on its own:
/// each step keeps it at or below the cap and never lowers it.
pub proof fn law_simulated_climb_capped(m: ProgressView, k: Seq<char>)
    requires
        m.wf(),
        has_key(m.entries, k),
        !m.entries[key_index(m.entries, k)].1.is_real,
        m.entries[key_index(m.entries, k)].1.percent <= SIM_CAP,
    ensures
        ({
            let (next, alive) = m.advance_simulated(k);
            let p = m.entries[key_index(m.entries, k)].1.percent;
            &&& alive
            &&& next.entries[key_index(m.entries, k)].1.percent == (if p + SIM_STEP < SIM_CAP {
                p + SIM_STEP
            } else {
                SIM_CAP as int
            })
            &&& next.entries[key_index(m.entries, k)].1.percent <= SIM_CAP
            &&& next.entries[key_index(m.entries, k)].1.percent >= m.entries[key_index(m.entries, k)].1.percent
            &&& next.wf()
        }),
{
    let idx = key_index(m.entries, k);
    let (next, alive) = m.advance_simulated(k);
    assert forall|i: int, j: int| 0 <= i < next.entries.len() && 0 <= j < next.entries.len() && i != j implies #[trigger] next.entries[i].0 != #[trigger] next.entries[j].0 by {
        if i == idx {
            assert(m.entries[j].0 != m.entries[idx].0);
        } else if j == idx {
            assert(m.entries[i].0 != m.entries[idx].0);
        } else {
            assert(m.entries[i].0 != m.entries[j].0);
        }
    }
}

/// A simulated operation that starts and ends with nothing else happening in
/// between leaves the set of in-flight operations as it found it.
pub proof fn law_begin_end_simulated_restores(m: ProgressView)
    requires
        m.wf(),
        !has_key(m.entries, sim_key(m.next_sim_id)),
    ensures
        ({
            let (started, k) = m.begin_simulated();
            let (ended, _) = started.end_simulated(k);
            ended.entries == m.entries
        }),
{
    let k = sim_key(m.next_sim_id);
    let (started, _) = m.begin_simulated();
    let pushed = m.entries.push((k, ProgressEntry { percent: 0, is_real: false }));
    assert(started.entries == pushed);
    lemma_upsert_wf(m.entries, k, ProgressEntry { percent: 0, is_real: false });
    lemma_key_index_unique(pushed, k, m.entries.len() as int);
    assert(pushed.remove(m.entries.len() as int) =~= m.entries);
}

// ---------------------------------------------------------------------------
// Executable state
// ---------------------------------------------------------------------------

/// State of the progress line.
pub struct ProgressHandle {
    entries: Vec<(String, ProgressEntry)>,
    phase: Phase,
    generation: u64,
    next_sim_id: u64,
}

pub open spec fn entry_view(p: (String, ProgressEntry)) -> (Seq<char>, ProgressEntry) {
    (p.0@, p.1)
}

impl View for ProgressHandle {
    type V = ProgressView;

    closed spec fn view(&self) -> ProgressView {
        ProgressView {
            entries: self.entries@.map_values(|p: (String, ProgressEntry)| entry_view(p)),
            phase: self.phase,
            generation: self.generation as nat,
            next_sim_id: self.next_sim_id as nat,
        }
    }
}

impl ProgressHandle {
    /// Nothing in flight, bar hidden.
    pub fn new() -> (h: Self)
        ensures
            h@ == ProgressView::initial(),
            h@.wf(),
    {
        let h = ProgressHandle { entries: Vec::new(), phase: Phase::Hidden, generation: 0, next_sim_id: 0 };
        assert(h@.entries =~= Seq::<(Seq<char>, ProgressEntry)>::empty());
        h
    }

    /// The current generation; a timer token is current when it equals it.
    pub fn generation(&self) -> (g: u64)
        ensures
            g == self@.generation,
    {
        self.generation
    }

    /// The number the next simulated operation's key carries.
    pub fn next_sim_id(&self) -> (r: u64)
        ensures
            r == self@.next_sim_id,
    {
        self.next_sim_id
    }

    fn find(&self, key: &String) -> (r: Option<usize>)
        requires
            keys_distinct(self@.entries),
        ensures
            r is Some ==> r->0 < self.entries@.len() && self@.entries[r->0 as int].0 == key@ && key_index(self@.entries, key@) == r->0,
            r is None ==> !has_key(self@.entries, key@),
    {
        let mut i: usize = 0;
        while i < self.entries.len()
            invariant
                i <= self.entries@.len(),
                keys_distinct(self@.entries),
                forall|k: int| 0 <= k < i ==> self@.entries[k].0 != key@,
            decreases self.entries@.len() - i,
        {
            if self.entries[i].0 == *key {
                proof {
                    lemma_key_index_unique(self@.entries, key@, i as int);
                }
                return Some(i);
            }
            i = i + 1;
        }
        None
    }

    fn upsert_entry(&mut self, key: String, entry: ProgressEntry)
        requires
            old(self)@.wf(),
            entry.percent < 100,
        ensures
            final(self)@ == (ProgressView { entries: upsert(old(self)@.entries, key@, entry), ..old(self)@ }),
            final(self)@.wf(),
    {
        let ghost before = self@.entries;
        proof {
            lemma_upsert_wf(before, key@, entry);
        }
        match self.find(&key) {
            Some(i) => {
                let ghost kv = key@;
                self.entries.set(i, (key, entry));
                assert(self@.entries =~= before.update(i as int, (kv, entry)));
            },
            None => {
                let ghost kv = key@;
                self.entries.push((key, entry));
                assert(self@.entries =~= before.push((kv, entry)));
            },
        }
    }

    fn remove_entry(&mut self, key: &String)
        requires
            old(self)@.wf(),
        ensures
            final(self)@ == (ProgressView { entries: without_key(old(self)@.entries, key@), ..old(self)@ }),
            final(self)@.wf(),
    {
        let ghost before = self@.entries;
        proof {
            lemma_without_key_wf(before, key@);
        }
        if let Some(i) = self.find(key) {
            self.entries.remove(i);
            assert(self@.entries =~= before.remove(i as int));
        }
    }

    fn start_running(&mut self)
        requires
            old(self)@.generation < u64::MAX,
        ensures
            final(self)@ == old(self)@.start_running(),
    {
        self.generation = self.generation + 1;
        self.phase = Phase::Running;
    }

    fn maybe_complete(&mut self) -> (token: Option<u64>)
        requires
            old(self)@.generation < u64::MAX,
        ensures
            final(self)@ == old(self)@.complete().0,
            token is Some <==> old(self)@.complete().1 is Some,
            token is Some ==> token->0 == old(self)@.complete().1->0,
    {
        if self.entries.len() > 0 {
            return None;
        }
        self.generation = self.generation + 1;
        self.phase = Phase::Hold;
        Some(self.generation)
    }

    /// A real progress checkpoint from the backend: `percent >= 100` ends the
    /// operation (returning the completion token when it was the last one),
    /// anything lower records it and shows the bar.
    pub fn on_real_progress(&mut self, operation: String, percent: u8) -> (token: Option<u64>)
        requires
            old(self)@.wf(),
            old(self)@.generation < u64::MAX,
        ensures
            final(self)@ == old(self)@.real_progress(operation@, percent).0,
            token is Some <==> old(self)@.real_progress(operation@, percent).1 is Some,
            token is Some ==> token->0 == old(self)@.real_progress(operation@, percent).1->0,
            final(self)@.wf(),
    {
        if percent >= 100 {
            self.remove_entry(&operation);
            return self.maybe_complete();
        }
        self.upsert_entry(operation, ProgressEntry { percent, is_real: true });
        self.start_running();
        None
    }

    /// Start a simulated short operation and return its key; the host then arms
    /// the climb timer for it.
    pub fn begin_simulated(&mut self) -> (key: String)
        requires
            old(self)@.wf(),
            old(self)@.generation < u64::MAX,
            old(self)@.next_sim_id < u64::MAX,
        ensures
            final(self)@ == old(self)@.begin_simulated().0,
            key@ == old(self)@.begin_simulated().1,
            final(self)@.wf(),
    {
        let id = self.next_sim_id;
        self.next_sim_id = self.next_sim_id + 1;
        let mut key = String::from_str("sim.");
        push_decimal(&mut key, id);
        let ret = key.clone();
        self.upsert_entry(key, ProgressEntry { percent: 0, is_real: false });
        self.start_running();
        ret
    }

    /// Mark a simulated operation complete; returns the completion token when
    /// it was the last operation.
    pub fn end_simulated(&mut self, key: &String) -> (token: Option<u64>)
        requires
            old(self)@.wf(),
            old(self)@.generation < u64::MAX,
        ensures
            final(self)@ == old(self)@.end_simulated(key@).0,
            token is Some <==> old(self)@.end_simulated(key@).1 is Some,
            token is Some ==> token->0 == old(self)@.end_simulated(key@).1->0,
            final(self)@.wf(),
    {
        self.remove_entry(key);
        self.maybe_complete()
    }

    /// One climb step of a simulated operation; `false` once it is gone, so the
    /// host stops re-arming its timer.
    pub fn advance_simulated(&mut self, key: &String) -> (alive: bool)
        requires
            old(self)@.wf(),
        ensures
            final(self)@ == old(self)@.advance_simulated(key@).0,
            alive == old(self)@.advance_simulated(key@).1,
            final(self)@.wf(),
    {
        let ghost before = self@.entries;
        match self.find(key) {
            Some(i) => {
                let entry = self.entries[i].1;
                if entry.is_real {
                    return false;
                }
                let next: u8 = if entry.percent + SIM_STEP < SIM_CAP { entry.percent + SIM_STEP } else { SIM_CAP };
                let k = self.entries[i].0.clone();
                let ghost kv = key@;
                self.entries.set(i, (k, ProgressEntry { percent: next, is_real: false }));
                assert(self@.entries =~= before.update(i as int, (kv, ProgressEntry { percent: next, is_real: false })));
                assert forall|a: int, b: int| 0 <= a < self@.entries.len() && 0 <= b < self@.entries.len() && a != b implies #[trigger] self@.entries[a].0 != #[trigger] self@.entries[b].0 by {
                    if a == i {
                        assert(before[b].0 != before[i as int].0);
                    } else if b == i {
                        assert(before[a].0 != before[i as int].0);
                    } else {
                        assert(before[a].0 != before[b].0);
                    }
                }
                true
            },
            None => false,
        }
    }

    /// The hold timer armed with `token` fired: start fading if no new
    /// operation started since.
    pub fn on_hold_elapsed(&mut self, token: u64)
        ensures
            final(self)@ == old(self)@.hold_elapsed(token as nat),
    {
        if self.generation == token {
            self.phase = Phase::Fading;
        }
    }

    /// The fade timer armed with `token` fired: hide the bar if no new
    /// operation started since.
    pub fn on_fade_elapsed(&mut self, token: u64)
        ensures
            final(self)@ == old(self)@.fade_elapsed(token as nat),
    {
        if self.generation == token {
            self.phase = Phase::Hidden;
        }
    }

    /// The mean percent of the operations in flight, capped at 100.
    pub fn aggregate(&self) -> (r: u8)
        requires
            self@.wf(),
        ensures
            r as nat == aggregate(self@.entries),
    {
        let n = self.entries.len();
        if n == 0 {
            return 0;
        }
        let ghost s = self@.entries;
        let mut total: u128 = 0;
        let mut i: usize = 0;
        while i < n
            invariant
                n == self.entries@.len(),
                s == self@.entries,
                self@.wf(),
                i <= n,
                total as nat == percent_sum(s.take(i as int)),
                total <= 99 * i,
            decreases n - i,
        {
            assert(s.take(i as int + 1).drop_last() =~= s.take(i as int));
            assert(s[i as int].1.percent < 100);
            total = total + self.entries[i].1.percent as u128;
            i = i + 1;
        }
        assert(s.take(n as int) =~= s);
        let mean = total / (n as u128);
        assert(mean <= 99) by (nonlinear_arith)
            requires
                total <= 99 * n,
                n > 0,
                mean == total / (n as u128),
        ;
        mean as u8
    }

    /// Bar width in percent for the current phase.
    pub fn bar_width(&self) -> (w: u8)
        requires
            self@.wf(),
        ensures
            w as nat == self@.bar_width(),
    {
        match self.phase {
            Phase::Hidden => 0,
            Phase::Running => self.aggregate(),
            _ => 100,
        }
    }

    /// Whether the bar is fully opaque (running or holding at full).
    pub fn bar_opaque(&self) -> (r: bool)
        ensures
            r == self@.bar_opaque(),
    {
        match self.phase {
            Phase::Running | Phase::Hold => true,
            _ => false,
        }
    }

    /// Whether the bar is shown at all.
    pub fn bar_visible(&self) -> (r: bool)
        ensures
            r == self@.bar_visible(),
    {
        match self.phase {
            Phase::Hidden => false,
            _ => true,
        }
    }

    /// The current phase.
    pub fn phase(&self) -> (p: Phase)
        ensures
            p == self@.phase,
    {
        self.phase
    }
}


/// Two simulated operations started at different counter values get
/// different keys, so every call of `begin_simulated` hands out a new key.
pub proof fn law_simulated_keys_distinct(a: nat, b: nat)
    requires
        a != b,
    ensures
        sim_key(a) != sim_key(b),
{
    reveal_strlit("sim.");
    lemma_decimal_reads_back(a);
    lemma_decimal_reads_back(b);
    if sim_key(a) == sim_key(b) {
        assert(sim_key(a).skip(4) =~= decimal(a));
        assert(sim_key(b).skip(4) =~= decimal(b));
    }
}

/// Every simulated entry is at or below the cap.
pub open spec fn sims_capped(s: EntryList) -> bool {
    forall|i: int| 0 <= i < s.len() && !(#[trigger] s[i]).1.is_real ==> s[i].1.percent <= SIM_CAP
}

proof fn lemma_upsert_capped(s: EntryList, k: Seq<char>, e: ProgressEntry)
    requires
        sims_capped(s),
        !e.is_real ==> e.percent <= SIM_CAP,
    ensures
        sims_capped(upsert(s, k, e)),
{
    let r = upsert(s, k, e);
    assert forall|i: int| 0 <= i < r.len() && !(#[trigger] r[i]).1.is_real implies r[i].1.percent <= SIM_CAP by {
        if i < s.len() && !(has_key(s, k) && i == key_index(s, k)) {
            assert(r[i] == s[i]);
        }
    }
}

proof fn lemma_without_key_capped(s: EntryList, k: Seq<char>)
    requires
        sims_capped(s),
    ensures
        sims_capped(without_key(s, k)),
{
    let r = without_key(s, k);
    if has_key(s, k) {
        let idx = key_index(s, k);
        assert forall|i: int| 0 <= i < r.len() && !(#[trigger] r[i]).1.is_real implies r[i].1.percent <= SIM_CAP by {
            let si = if i < idx { i } else { i + 1 };
            assert(r[i] == s[si]);
        }
    }
}

/// No transition lifts a simulated operation past the cap: a state whose
/// simulated entries are all at or below it keeps them so through real
/// progress, starting, ending and advancing simulated operations.
pub proof fn law_simulated_stays_capped(m: ProgressView, op: Seq<char>, percent: u8, k: Seq<char>)
    requires
        sims_capped(m.entries),
    ensures
        sims_capped(m.real_progress(op, percent).0.entries),
        sims_capped(m.begin_simulated().0.entries),
        sims_capped(m.end_simulated(k).0.entries),
        sims_capped(m.advance_simulated(k).0.entries),
{
    lemma_without_key_capped(m.entries, op);
    lemma_upsert_capped(m.entries, op, ProgressEntry { percent, is_real: true });
    lemma_upsert_capped(m.entries, sim_key(m.next_sim_id), ProgressEntry { percent: 0, is_real: false });
    lemma_without_key_capped(m.entries, k);
    let (next, _) = m.advance_simulated(k);
    if has_key(m.entries, k) && !m.entries[key_index(m.entries, k)].1.is_real {
        let idx = key_index(m.entries, k);
        assert forall|i: int| 0 <= i < next.entries.len() && !(#[trigger] next.entries[i]).1.is_real implies next.entries[i].1.percent <= SIM_CAP by {
            if i != idx {
                assert(next.entries[i] == m.entries[i]);
            }
        }
    }
}

/// `begin_simulated` hands out the key numbered by the counter, which no
/// earlier call can have handed out (those got the numbers below it), and
/// moves the counter on; the new operation is in flight at 0 %, and the bar
/// runs with a new generation, so the timers of an earlier completion no
/// longer apply.
pub proof fn law_begin_simulated_fresh(m: ProgressView, earlier: nat)
    requires
        earlier < m.next_sim_id,
    ensures
        ({
            let (after, k) = m.begin_simulated();
            &&& k == sim_key(m.next_sim_id)
            &&& k != sim_key(earlier)
            &&& after.next_sim_id == m.next_sim_id + 1
            &&& after.entries == upsert(m.entries, k, ProgressEntry { percent: 0, is_real: false })
            &&& has_key(after.entries, k)
            &&& after.phase == Phase::Running
            &&& after.generation == m.generation + 1
        }),
{
    law_simulated_keys_distinct(m.next_sim_id, earlier);
    let k = sim_key(m.next_sim_id);
    let e = ProgressEntry { percent: 0, is_real: false };
    if has_key(m.entries, k) {
        let idx = key_index(m.entries, k);
        assert(upsert(m.entries, k, e)[idx].0 == k);
    } else {
        assert(upsert(m.entries, k, e)[m.entries.len() as int].0 == k);
    }
}

/// No operation moves the simulated-operation counter back: every key that
/// an earlier `begin_simulated` handed out carries a number below the
/// counter of every later state.
pub proof fn law_sim_counter_never_decreases(m: ProgressView, op: Seq<char>, percent: u8, k: Seq<char>, token: nat)
    ensures
        m.real_progress(op, percent).0.next_sim_id == m.next_sim_id,
        m.begin_simulated().0.next_sim_id == m.next_sim_id + 1,
        m.end_simulated(k).0.next_sim_id == m.next_sim_id,
        m.advance_simulated(k).0.next_sim_id == m.next_sim_id,
        m.hold_elapsed(token).next_sim_id == m.next_sim_id,
        m.fade_elapsed(token).next_sim_id == m.next_sim_id,
{
}

/// While any operation is in flight the bar is running (neither holding,
/// fading nor hidden).
pub open spec fn busy_means_running(m: ProgressView) -> bool {
    m.entries.len() > 0 ==> m.phase == Phase::Running
}

/// A timer token that cannot disturb work in flight: it is no newer than the
/// generation, and equals it only while nothing is in flight.
pub open spec fn token_harmless(m: ProgressView, t: nat) -> bool {
    t <= m.generation && (t == m.generation ==> m.entries.len() == 0)
}

/// The bar never holds, fades or hides while an operation is in flight. The
/// initial state is so; every operation keeps it so, the hold and fade
/// timers included when they carry tokens that completions handed out; and
/// those tokens stay harmless through every later operation.
pub proof fn law_busy_bar_keeps_running(
    m: ProgressView,
    t: nat,
    u: nat,
    op: Seq<char>,
    percent: u8,
    k: Seq<char>,
)
    requires
        m.wf(),
        busy_means_running(m),
        token_harmless(m, t),
        token_harmless(m, u),
    ensures
        busy_means_running(ProgressView::initial()),
        busy_means_running(m.real_progress(op, percent).0) && token_harmless(m.real_progress(op, percent).0, t),
        m.real_progress(op, percent).1 matches Some(n) ==> token_harmless(m.real_progress(op, percent).0, n),
        busy_means_running(m.begin_simulated().0) && token_harmless(m.begin_simulated().0, t),
        busy_means_running(m.end_simulated(k).0) && token_harmless(m.end_simulated(k).0, t),
        m.end_simulated(k).1 matches Some(n) ==> token_harmless(m.end_simulated(k).0, n),
        busy_means_running(m.advance_simulated(k).0) && token_harmless(m.advance_simulated(k).0, t),
        busy_means_running(m.hold_elapsed(u)) && token_harmless(m.hold_elapsed(u), t),
        busy_means_running(m.fade_elapsed(u)) && token_harmless(m.fade_elapsed(u), t),
{
    lemma_without_key_wf(m.entries, op);
    lemma_without_key_wf(m.entries, k);
    lemma_upsert_wf(m.entries, sim_key(m.next_sim_id), ProgressEntry { percent: 0, is_real: false });
    if percent < 100 {
        lemma_upsert_wf(m.entries, op, ProgressEntry { percent, is_real: true });
    }
    if m.entries.len() == 0 {
        assert(without_key(m.entries, op) == m.entries);
        assert(without_key(m.entries, k) == m.entries);
    } else {
        if has_key(m.entries, op) {
            assert(without_key(m.entries, op).len() == m.entries.len() - 1);
        }
        if has_key(m.entries, k) {
            assert(without_key(m.entries, k).len() == m.entries.len() - 1);
        }
    }
}

/// Once `end_simulated` removed a key, a climb tick for it that was already
/// armed changes nothing and reports it gone, so the timer stops and the
/// full bar of a completion is not pulled back.
pub proof fn law_ended_simulation_stops_climbing(m: ProgressView, k: Seq<char>)
    requires
        m.wf(),
    ensures
        ({
            let (ended, _) = m.end_simulated(k);
            ended.advance_simulated(k) == (ended, false)
        }),
{
    lemma_without_key_wf(m.entries, k);
}

} // verus!
