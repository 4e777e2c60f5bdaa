//! Diagnostics kept in memory: a ring of the latest events with their time
//! stamps, timing spans, and the timing statistics of a snapshot dump.
use vstd::prelude::*;

use crate::numerals::{decimal, decimal_chars};
use crate::text::{owned, push_char, push_str, str_eq, string_of};

verus! {

/// What the input method records.
#[derive(Debug, Clone)]
pub enum DiagEvent {
    Activate { tid: u32 },
    Deactivate,
    /// The result of opening or closing the keyboard compartment.
    CompartmentSet { open: bool, ok: bool, err: Option<String> },
    /// The value read from the keyboard compartment.
    CompartmentRead { value: i32 },
    LangbarAdd { ok: bool, err: Option<String> },
    /// A key handled with an action.
    KeyHandled { vk: u16, action: &'static str, ate: bool },
    /// A key left alone.
    KeyIgnored { vk: u16, reason: &'static str },
    InputChar { ch: char, preedit_after: String },
    Backspace { preedit_after: String },
    Convert { preedit: String, kanji_ready: bool, result: String },
    CommitRaw { preedit: String },
    ModeChange { from: String, to: &'static str },
    Error { site: &'static str, msg: String },
    Panic { site: &'static str },
    /// How long a span took.
    Timing { label: &'static str, elapsed_us: u64 },
}

/// How many events the ring keeps.
pub const RING_CAP: usize = 256;

/// The latest `RING_CAP` events with their time stamps.
pub struct Ring<T> {
    buf: Vec<(u64, T)>,
    head: usize,
    full: bool,
}

impl<T> Ring<T> {
    /// The ring's layout: not full, the events in order and the next slot at
    /// their end; full, `RING_CAP` events with the oldest at `head`.
    pub closed spec fn wf(&self) -> bool {
        &&& self.buf.len() <= RING_CAP
        &&& self.head < RING_CAP
        &&& !self.full ==> self.head == self.buf.len() && self.buf.len() < RING_CAP
        &&& self.full ==> self.buf.len() == RING_CAP
    }

    /// The ring's bookkeeping: how many slots are in use, the slot the next
    /// event goes to (the oldest event's, once full), and whether it is full.
    pub closed spec fn layout(&self) -> (nat, nat, bool) {
        (self.buf@.len(), self.head as nat, self.full)
    }

    /// The events kept, oldest first.
    pub closed spec fn events(&self) -> Seq<(u64, T)> {
        if self.full {
            self.buf@.skip(self.head as int) + self.buf@.take(self.head as int)
        } else {
            self.buf@
        }
    }

    pub fn new() -> (r: Ring<T>)
        ensures
            r.wf(),
            r.events() == Seq::<(u64, T)>::empty(),
            r.layout() == ring_layout(0),
    {
        Ring { buf: Vec::new(), head: 0, full: false }
    }

    /// Records an event; once `RING_CAP` are kept, the oldest goes.
    pub fn push(&mut self, ts: u64, ev: T)
        requires
            old(self).wf(),
        ensures
            final(self).wf(),
            final(self).layout() == ring_layout_step(old(self).layout()),
            final(self).events() == (if old(self).events().len() < RING_CAP {
                old(self).events().push((ts, ev))
            } else {
                old(self).events().drop_first().push((ts, ev))
            }),
    {
        let ghost old_events = self.events();
        if self.full {
            let h = self.head;
            let ghost b = self.buf@;
            self.buf.set(h, (ts, ev));
            let nh = if h + 1 == RING_CAP {
                0
            } else {
                h + 1
            };
            self.head = nh;
            proof {
                let nb = b.update(h as int, (ts, ev));
                assert(self.buf@ == nb);
                if nh == 0 {
                    assert(nb.skip(0) =~= nb);
                    assert(nb.take(0) =~= Seq::<(u64, T)>::empty());
                    assert(nb =~= (b.skip(h as int) + b.take(h as int)).drop_first().push(
                        (ts, ev),
                    ));
                } else {
                    assert(nb.skip(nh as int) + nb.take(nh as int) =~= (b.skip(h as int) + b.take(
                        h as int,
                    )).drop_first().push((ts, ev)));
                }
            }
        } else {
            self.buf.push((ts, ev));
            let n = self.buf.len();
            if n == RING_CAP {
                self.full = true;
                self.head = 0;
                assert(self.buf@.skip(0) =~= self.buf@);
                assert(self.buf@.skip(0) + self.buf@.take(0) =~= self.buf@);
            } else {
                self.head = n;
            }
        }
    }

    /// The events kept, oldest first.
    pub fn collect_asc(&self) -> (r: Vec<&(u64, T)>)
        requires
            self.wf(),
        ensures
            r@.len() == self.events().len(),
            forall|i: int| 0 <= i < r@.len() ==> *(#[trigger] r@[i]) == self.events()[i],
    {
        let start = if self.full {
            self.head
        } else {
            0
        };
        let len = self.buf.len();
        let mut r: Vec<&(u64, T)> = Vec::new();
        let mut i: usize = 0;
        while i < len
            invariant
                self.wf(),
                len == self.buf.len(),
                start == (if self.full {
                    self.head
                } else {
                    0
                }),
                i <= len,
                r@.len() == i,
                forall|k: int| 0 <= k < i ==> *(#[trigger] r@[k]) == self.events()[k],
            decreases len - i,
        {
            let idx = if start + i >= len {
                start + i - len
            } else {
                start + i
            };
            proof {
                if self.full {
                    let b = self.buf@;
                    let h = self.head as int;
                    if i < len - h {
                        assert(self.events()[i as int] == b.skip(h)[i as int]);
                    } else {
                        assert(self.events()[i as int] == b.take(h)[i - (len - h)]);
                    }
                }
            }
            r.push(&self.buf[idx]);
            i = i + 1;
        }
        r
    }
}

/// The events kept after pushing `xs` one by one into an empty ring (each
/// push as `Ring::push` states it).
pub open spec fn ring_fold<T>(xs: Seq<T>) -> Seq<T>
    decreases xs.len(),
{
    if xs.len() == 0 {
        seq![]
    } else {
        let p = ring_fold(xs.drop_last());
        if p.len() < RING_CAP {
            p.push(xs.last())
        } else {
            p.drop_first().push(xs.last())
        }
    }
}

/// The last `n` items of `xs` (all of them when there are fewer).
pub open spec fn last_n<T>(xs: Seq<T>, n: nat) -> Seq<T> {
    if xs.len() <= n {
        xs
    } else {
        xs.skip(xs.len() - n)
    }
}

/// After any number of pushes into a new ring, it holds the last
/// `RING_CAP` events pushed (all of them while fewer), oldest first.
pub proof fn lemma_ring_keeps_last<T>(xs: Seq<T>)
    ensures
        ring_fold(xs) == last_n(xs, RING_CAP as nat),
    decreases xs.len(),
{
    if xs.len() > 0 {
        let init = xs.drop_last();
        lemma_ring_keeps_last(init);
        let p = ring_fold(init);
        if init.len() >= RING_CAP {
            assert(p.drop_first().push(xs.last()) =~= xs.skip(xs.len() - RING_CAP));
        } else {
            assert(p.push(xs.last()) =~= xs);
        }
    }
}

/// The layout of a new ring after `n` pushes: `min(n, RING_CAP)` slots in
/// use, the next slot `n % RING_CAP`, full once `n >= RING_CAP`.
pub open spec fn ring_layout(n: nat) -> (nat, nat, bool) {
    (if n < RING_CAP { n } else { RING_CAP as nat }, n % (RING_CAP as nat), n >= RING_CAP)
}

/// What one push does to the layout: a full ring moves its next slot on
/// (wrapping round); one that is not full takes one slot more, and on taking
/// the last becomes full with the next slot back at the start.
pub open spec fn ring_layout_step(l: (nat, nat, bool)) -> (nat, nat, bool) {
    if l.2 {
        (l.0, (l.1 + 1) % (RING_CAP as nat), true)
    } else if l.0 + 1 == RING_CAP {
        (RING_CAP as nat, 0, true)
    } else {
        (l.0 + 1, l.0 + 1, false)
    }
}

/// After `n` pushes into a new ring (`Ring::new` gives `ring_layout(0)`,
/// each `Ring::push` one `ring_layout_step`), the layout is `ring_layout(n)`:
/// `min(n, RING_CAP)` slots used, next slot `n % RING_CAP`, full exactly when
/// `n >= RING_CAP`.
pub proof fn lemma_ring_layout_after(n: nat)
    ensures
        ring_layout_step(ring_layout(n)) == ring_layout(n + 1),
{
    let c = RING_CAP as nat;
    if n >= c {
        assert(((n % c) + 1) % c == (n + 1) % c) by (nonlinear_arith)
            requires c == 256;
    } else if n + 1 == c {
        assert((n + 1) % c == 0) by (nonlinear_arith)
            requires n + 1 == c, c == 256;
    } else {
        assert(n % c == n) by (nonlinear_arith)
            requires n < c, c == 256;
        assert((n + 1) % c == n + 1) by (nonlinear_arith)
            requires n + 1 < c, c == 256;
    }
}

/// The layout after `n` pushes into a new ring, one `ring_layout_step` per push.
pub open spec fn ring_layout_fold(n: nat) -> (nat, nat, bool)
    decreases n,
{
    if n == 0 {
        ring_layout(0)
    } else {
        ring_layout_step(ring_layout_fold((n - 1) as nat))
    }
}

/// After any `n` pushes into a new ring its layout is `ring_layout(n)`.
pub proof fn lemma_ring_layout_fold(n: nat)
    ensures
        ring_layout_fold(n) == ring_layout(n),
    decreases n,
{
    if n > 0 {
        lemma_ring_layout_fold((n - 1) as nat);
        lemma_ring_layout_after((n - 1) as nat);
    }
}

/// A ring whose events are the fold of the pushes so far has, after one more
/// push, the fold of the pushes with that one added; with
/// `lemma_ring_keeps_last`, a new ring pushed `n` times holds the last
/// `RING_CAP` events pushed.
pub proof fn lemma_push_extends_fold<T>(before: Seq<(u64, T)>, xs: Seq<(u64, T)>, e: (u64, T))
    requires
        before == ring_fold(xs),
    ensures
        ring_fold(xs.push(e)) == (if before.len() < RING_CAP {
            before.push(e)
        } else {
            before.drop_first().push(e)
        }),
{
    assert(xs.push(e).drop_last() =~= xs);
}

// ─── spans ──────────────────────────────────────────────────────────────────

/// A timing span: its label, when it started (in microseconds on the
/// caller's clock), and whether it still records.
pub struct Span {
    pub label: &'static str,
    pub start_us: u64,
    pub active: bool,
}

impl Span {
    pub fn new(label: &'static str, now_us: u64) -> (s: Span)
        ensures
            s.label == label,
            s.start_us == now_us,
            s.active,
    {
        Span { label, start_us: now_us, active: true }
    }

    /// The microseconds since the start.
    pub open spec fn spec_elapsed(&self, now_us: u64) -> u64 {
        if now_us >= self.start_us {
            (now_us - self.start_us) as u64
        } else {
            0
        }
    }

    /// The timing event a span records when it ends at `now_us` (none once
    /// inactive).
    pub fn finish(&self, now_us: u64) -> (r: Option<(&'static str, u64)>)
        ensures
            r == (if self.active {
                Some((self.label, self.spec_elapsed(now_us)))
            } else {
                None
            }),
    {
        if self.active {
            let us = if now_us >= self.start_us {
                now_us - self.start_us
            } else {
                0
            };
            Some((self.label, us))
        } else {
            None
        }
    }
}

/// Starts a timing span.
pub fn span(label: &'static str, now_us: u64) -> (s: Span)
    ensures
        s.label == label,
        s.start_us == now_us,
        s.active,
{
    Span::new(label, now_us)
}

/// A span slower than 5 ms is worth a warning.
pub fn is_slow(elapsed_us: u64) -> (b: bool)
    ensures
        b == (elapsed_us > 5000),
{
    elapsed_us > 5000
}

// ─── timing statistics ──────────────────────────────────────────────────────

/// The timings of one label: fastest, slowest, total, how many.
#[derive(Debug, Clone, Copy, PartialEq, Eq)]
pub struct TimingStat {
    pub label: &'static str,
    pub min: u64,
    pub max: u64,
    pub sum: u64,
    pub n: u32,
}

pub open spec fn timing_of(ev: DiagEvent) -> Option<(Seq<char>, u64)> {
    match ev {
        DiagEvent::Timing { label, elapsed_us } => Some((label@, elapsed_us)),
        _ => None,
    }
}

/// The statistics of the timing events, one per label in order of the
/// label's first event: (label, min, max, sum, count).
pub open spec fn stats_scan(evs: Seq<(u64, DiagEvent)>) -> Seq<(Seq<char>, u64, u64, int, nat)>
    decreases evs.len(),
{
    if evs.len() == 0 {
        seq![]
    } else {
        let s = stats_scan(evs.drop_last());
        match timing_of(evs.last().1) {
            None => s,
            Some((label, us)) => match first_label(s, label) {
                Some(j) => s.update(
                    j,
                    (
                        label,
                        if us < s[j].1 {
                            us
                        } else {
                            s[j].1
                        },
                        if us > s[j].2 {
                            us
                        } else {
                            s[j].2
                        },
                        s[j].3 + us,
                        s[j].4 + 1,
                    ),
                ),
                None => s.push((label, us, us, us as int, 1)),
            },
        }
    }
}

/// The index of `label`'s statistics, if any.
pub open spec fn first_label(s: Seq<(Seq<char>, u64, u64, int, nat)>, label: Seq<char>) -> Option<int>
    decreases s.len(),
{
    if s.len() == 0 {
        None
    } else {
        match first_label(s.drop_last(), label) {
            Some(j) => Some(j),
            None => if s.last().0 == label {
                Some(s.len() - 1)
            } else {
                None
            },
        }
    }
}

pub open spec fn stat_view(t: TimingStat) -> (Seq<char>, u64, u64, int, nat) {
    (t.label@, t.min, t.max, t.sum as int, t.n as nat)
}

/// `x` put after every row at least as slow (the rows by their slowest time,
/// slowest first, ties in order).
pub open spec fn insert_by_max(s: Seq<(Seq<char>, u64, u64, int, nat)>, x: (Seq<char>, u64, u64, int, nat)) -> Seq<
    (Seq<char>, u64, u64, int, nat),
>
    decreases s.len(),
{
    if s.len() == 0 {
        seq![x]
    } else if s[0].2 < x.2 {
        seq![x] + s
    } else {
        seq![s[0]] + insert_by_max(s.drop_first(), x)
    }
}

pub open spec fn sort_by_max(s: Seq<(Seq<char>, u64, u64, int, nat)>) -> Seq<(Seq<char>, u64, u64, int, nat)>
    decreases s.len(),
{
    if s.len() == 0 {
        seq![]
    } else {
        insert_by_max(sort_by_max(s.drop_last()), s.last())
    }
}

/// The events' timing statistics, slowest first.
pub open spec fn spec_timing_stats(evs: Seq<(u64, DiagEvent)>) -> Seq<(Seq<char>, u64, u64, int, nat)> {
    sort_by_max(stats_scan(evs))
}

/// The sum of all timings.
pub open spec fn total_timing(evs: Seq<(u64, DiagEvent)>) -> int
    decreases evs.len(),
{
    if evs.len() == 0 {
        0
    } else {
        total_timing(evs.drop_last()) + match timing_of(evs.last().1) {
            Some((_, us)) => us as int,
            None => 0,
        }
    }
}

proof fn lemma_stats_bounds(evs: Seq<(u64, DiagEvent)>)
    ensures
        forall|j: int|
            0 <= j < stats_scan(evs).len() ==> 0 <= (#[trigger] stats_scan(evs)[j]).3 <= total_timing(
                evs,
            ) && stats_scan(evs)[j].4 <= evs.len(),
        stats_scan(evs).len() <= evs.len(),
        total_timing(evs) >= 0,
    decreases evs.len(),
{
    if evs.len() > 0 {
        let init = evs.drop_last();
        lemma_stats_bounds(init);
        let s = stats_scan(init);
        match timing_of(evs.last().1) {
            Some((label, us)) => {
                lemma_first_label(s, label);
                let out = stats_scan(evs);
                match first_label(s, label) {
                    Some(j) => {
                        assert forall|k: int| 0 <= k < out.len() implies 0 <= (
                        #[trigger] out[k]).3 <= total_timing(evs) && out[k].4 <= evs.len() by {
                            if k != j {
                                assert(out[k] == s[k]);
                            }
                        }
                    },
                    None => {
                        assert forall|k: int| 0 <= k < out.len() implies 0 <= (
                        #[trigger] out[k]).3 <= total_timing(evs) && out[k].4 <= evs.len() by {
                            if k < s.len() {
                                assert(out[k] == s[k]);
                            }
                        }
                    },
                }
            },
            None => {},
        }
    }
}

proof fn lemma_first_label(s: Seq<(Seq<char>, u64, u64, int, nat)>, label: Seq<char>)
    ensures
        match first_label(s, label) {
            Some(j) => 0 <= j < s.len() && s[j].0 == label && forall|k: int|
                0 <= k < j ==> (#[trigger] s[k]).0 != label,
            None => forall|k: int| 0 <= k < s.len() ==> (#[trigger] s[k]).0 != label,
        },
    decreases s.len(),
{
    if s.len() > 0 {
        lemma_first_label(s.drop_last(), label);
        assert forall|k: int| 0 <= k < s.len() - 1 implies s[k] == s.drop_last()[k] by {}
    }
}

fn find_label(stats: &Vec<TimingStat>, label: &str) -> (r: Option<usize>)
    ensures
        ({
            let sv = stats@.map_values(|t: TimingStat| stat_view(t));
            match r {
                Some(j) => first_label(sv, label@) == Some(j as int) && j < stats.len(),
                None => first_label(sv, label@) is None,
            }
        }),
{
    let ghost sv = stats@.map_values(|t: TimingStat| stat_view(t));
    proof {
        lemma_first_label(sv, label@);
    }
    let mut j: usize = 0;
    while j < stats.len()
        invariant
            j <= stats.len(),
            sv == stats@.map_values(|t: TimingStat| stat_view(t)),
            forall|k: int| 0 <= k < j ==> (#[trigger] sv[k]).0 != label@,
            match first_label(sv, label@) {
                Some(k) => 0 <= k < sv.len() && sv[k].0 == label@ && forall|m: int|
                    0 <= m < k ==> (#[trigger] sv[m]).0 != label@,
                None => forall|m: int| 0 <= m < sv.len() ==> (#[trigger] sv[m]).0 != label@,
            },
        decreases stats.len() - j,
    {
        assert(sv[j as int].0 == stats@[j as int].label@);
        if str_eq(stats[j].label, label) {
            return Some(j);
        }
        j = j + 1;
    }
    None
}

/// The timing statistics of the events (see `spec_timing_stats`); the
/// timings must add up within 64 bits.
pub fn timing_stats(evs: &[(u64, DiagEvent)]) -> (r: Vec<TimingStat>)
    requires
        total_timing(evs@) <= u64::MAX,
        evs@.len() <= u32::MAX,
    ensures
        r@.map_values(|t: TimingStat| stat_view(t)) == spec_timing_stats(evs@),
{
    let mut stats: Vec<TimingStat> = Vec::new();
    let mut i: usize = 0;
    while i < evs.len()
        invariant
            i <= evs.len(),
            total_timing(evs@) <= u64::MAX,
            evs@.len() <= u32::MAX,
            stats@.map_values(|t: TimingStat| stat_view(t)) == stats_scan(evs@.take(i as int)),
        decreases evs.len() - i,
    {
        let ghost prefix = evs@.take(i + 1);
        assert(prefix.drop_last() == evs@.take(i as int));
        assert(prefix.last() == evs@[i as int]);
        proof {
            lemma_stats_bounds(prefix);
            lemma_total_prefix(evs@, i + 1);
        }
        let ghost sv = stats@.map_values(|t: TimingStat| stat_view(t));
        match &evs[i].1 {
            DiagEvent::Timing { label, elapsed_us } => {
                let us = *elapsed_us;
                match find_label(&stats, label) {
                    Some(j) => {
                        let old_stat = stats[j];
                        proof {
                            lemma_first_label(sv, label@);
                        }
                        assert(sv[j as int] == stat_view(old_stat));
                        assert(timing_of(prefix.last().1) == Some((label@, us)));
                        assert(stats_scan(prefix)[j as int].3 == old_stat.sum + us);
                        assert(stats_scan(prefix)[j as int].4 == old_stat.n + 1);
                        let new_stat = TimingStat {
                            label: old_stat.label,
                            min: if us < old_stat.min {
                                us
                            } else {
                                old_stat.min
                            },
                            max: if us > old_stat.max {
                                us
                            } else {
                                old_stat.max
                            },
                            sum: old_stat.sum + us,
                            n: old_stat.n + 1,
                        };
                        let ghost before = stats@;
                        stats.set(j, new_stat);
                        assert(stats@.map_values(|t: TimingStat| stat_view(t)) =~= sv.update(
                            j as int,
                            stat_view(new_stat),
                        ));
                        assert(stat_view(new_stat) == stats_scan(prefix)[j as int]);
                        assert(stats_scan(prefix) == sv.update(
                            j as int,
                            stats_scan(prefix)[j as int],
                        ));
                        assert(stats@.map_values(|t: TimingStat| stat_view(t)) =~= stats_scan(
                            prefix,
                        ));
                    },
                    None => {
                        stats.push(TimingStat { label: *label, min: us, max: us, sum: us, n: 1 });
                        assert(stats@.map_values(|t: TimingStat| stat_view(t)) =~= stats_scan(
                            prefix,
                        ));
                    },
                }
            },
            _ => {},
        }
        i = i + 1;
    }
    assert(evs@.take(evs.len() as int) == evs@);
    let ghost unsorted = stats@.map_values(|t: TimingStat| stat_view(t));
    let mut rows: Vec<TimingStat> = Vec::new();
    let mut k: usize = 0;
    while k < stats.len()
        invariant
            k <= stats.len(),
            unsorted == stats@.map_values(|t: TimingStat| stat_view(t)),
            rows@.map_values(|t: TimingStat| stat_view(t)) == sort_by_max(unsorted.take(k as int)),
        decreases stats.len() - k,
    {
        assert(unsorted.take(k + 1).drop_last() == unsorted.take(k as int));
        assert(unsorted.take(k + 1).last() == stat_view(stats@[k as int]));
        let x = stats[k];
        let mut p: usize = 0;
        while p < rows.len() && !(rows[p].max < x.max)
            invariant
                p <= rows.len(),
                forall|m: int| 0 <= m < p ==> !((#[trigger] rows@[m]).max < x.max),
            decreases rows.len() - p,
        {
            p = p + 1;
        }
        proof {
            lemma_insert_by_max_at(rows@.map_values(|t: TimingStat| stat_view(t)), stat_view(x), p as int);
        }
        let ghost before = rows@;
        rows.insert(p, x);
        assert(rows@.map_values(|t: TimingStat| stat_view(t)) =~= before.map_values(
            |t: TimingStat| stat_view(t),
        ).insert(p as int, stat_view(x)));
        k = k + 1;
    }
    assert(unsorted.take(stats.len() as int) == unsorted);
    rows
}

proof fn lemma_total_prefix(evs: Seq<(u64, DiagEvent)>, i: int)
    requires
        0 <= i <= evs.len(),
    ensures
        total_timing(evs.take(i)) <= total_timing(evs),
    decreases evs.len() - i,
{
    if i < evs.len() {
        lemma_total_prefix(evs, i + 1);
        assert(evs.take(i + 1).drop_last() == evs.take(i));
        lemma_stats_bounds(evs.take(i + 1));
        lemma_stats_bounds(evs.take(i));
    } else {
        assert(evs.take(i) == evs);
    }
}

proof fn lemma_insert_by_max_at(
    s: Seq<(Seq<char>, u64, u64, int, nat)>,
    x: (Seq<char>, u64, u64, int, nat),
    p: int,
)
    requires
        0 <= p <= s.len(),
        forall|m: int| 0 <= m < p ==> !((#[trigger] s[m]).2 < x.2),
        p < s.len() ==> s[p].2 < x.2,
    ensures
        insert_by_max(s, x) == s.insert(p, x),
    decreases s.len(),
{
    if s.len() > 0 && p > 0 {
        assert forall|m: int| 0 <= m < p - 1 implies !((#[trigger] s.drop_first()[m]).2 < x.2) by {
            assert(s.drop_first()[m] == s[m + 1]);
        }
        lemma_insert_by_max_at(s.drop_first(), x, p - 1);
        assert(s.insert(p, x) =~= seq![s[0]] + s.drop_first().insert(p - 1, x));
    } else if s.len() > 0 {
        assert(s.insert(0, x) =~= seq![x] + s);
    } else {
        assert(s.insert(0, x) =~= seq![x]);
    }
}


// ─── rotating the log file ──────────────────────────────────────────────────

/// The log file is rotated once it is larger than 16 MiB.
pub const LOG_ROTATE_MAX_BYTES: u64 = 16777216;

/// The rotated logs kept: `.1` (the newest) to `.5` (the oldest).
pub const LOG_ROTATE_GENERATIONS: usize = 5;

/// One file operation of a log rotation.
#[derive(Debug, Clone, Copy, PartialEq, Eq, Structural)]
pub enum RotateStep {
    /// Remove the rotated log of this generation.
    Remove(usize),
    /// Rename the log of generation `from` (0 is the live log), where it
    /// exists, to generation `to`.
    Rename { from: usize, to: usize },
}

/// The operations that rotate a log of `len` bytes: none while it is small
/// enough; else the oldest rotated log is removed, then each log, oldest
/// first, moves one generation older, and the live log becomes `.1`.
pub open spec fn spec_rotation_steps(len: u64) -> Seq<RotateStep> {
    if len <= LOG_ROTATE_MAX_BYTES {
        seq![]
    } else {
        seq![RotateStep::Remove(LOG_ROTATE_GENERATIONS)] + generation_moves()
    }
}

/// Each log moving one generation older, the oldest first.
pub open spec fn generation_moves() -> Seq<RotateStep> {
    Seq::new(
        LOG_ROTATE_GENERATIONS as nat,
        |k: int|
            RotateStep::Rename {
                from: (LOG_ROTATE_GENERATIONS - 1 - k) as usize,
                to: (LOG_ROTATE_GENERATIONS - k) as usize,
            },
    )
}

pub fn log_rotation_plan(len: u64) -> (r: Vec<RotateStep>)
    ensures
        r@ == spec_rotation_steps(len),
{
    let mut r: Vec<RotateStep> = Vec::new();
    if len <= LOG_ROTATE_MAX_BYTES {
        return r;
    }
    r.push(RotateStep::Remove(LOG_ROTATE_GENERATIONS));
    let ghost renames = generation_moves();
    let mut g: usize = LOG_ROTATE_GENERATIONS;
    while g >= 1
        invariant
            g <= LOG_ROTATE_GENERATIONS,
            renames == generation_moves(),
            r@ == seq![RotateStep::Remove(LOG_ROTATE_GENERATIONS)] + renames.take(
                (LOG_ROTATE_GENERATIONS - g) as int,
            ),
        decreases g,
    {
        r.push(RotateStep::Rename { from: g - 1, to: g });
        assert(renames.take((LOG_ROTATE_GENERATIONS - g + 1) as int) == renames.take(
            (LOG_ROTATE_GENERATIONS - g) as int,
        ).push(renames[(LOG_ROTATE_GENERATIONS - g) as int]));
        g = g - 1;
    }
    assert(renames.take(LOG_ROTATE_GENERATIONS as int) == renames);
    r
}

/// The file name of a rotated log: the log's own name, a dot and the
/// generation (`rakukan.log.2`).
pub fn rotated_log_name(file_name: &str, generation: u64) -> (r: String)
    ensures
        r@ == file_name@ + seq!['.'] + decimal(generation as nat),
{
    let mut r = owned(file_name);
    push_char(&mut r, '.');
    let digits = string_of(&decimal_chars(generation));
    push_str(&mut r, digits.as_str());
    r
}

} // verus!
