//! The click matcher: a sliding window over the clicks, as long as the
//! pattern, that starts over after a pause and after a match.

use std::collections::VecDeque;
use vstd::prelude::*;
use crate::click::Click;

verus! {

/// Nanoseconds in a millisecond.
pub const NANOS_PER_MILLI: u128 = 1_000_000;

/// Watches for a pattern of clicks.
pub struct Matcher {
    pattern: Vec<Click>,
    timeout_ms: u64,
    buf: VecDeque<Click>,
    last: u128,
}

/// What a matcher holds: the pattern, the longest pause between two clicks in
/// milliseconds, the latest clicks, and when the last one came in nanoseconds.
#[verifier::ext_equal]
pub struct Watch {
    pub pattern: Seq<Click>,
    pub timeout_ms: nat,
    pub buf: Seq<Click>,
    pub last: int,
}

impl View for Matcher {
    type V = Watch;

    closed spec fn view(&self) -> Watch {
        Watch {
            pattern: self.pattern@,
            timeout_ms: self.timeout_ms as nat,
            buf: self.buf@,
            last: self.last as int,
        }
    }
}

/// A matcher that has seen no click yet.
pub open spec fn fresh(pattern: Seq<Click>, timeout_ms: nat, now: int) -> Watch {
    Watch { pattern, timeout_ms, buf: Seq::empty(), last: now }
}

/// The pause from `from` to `to`, in nanoseconds, is longer than the timeout.
pub open spec fn too_long(timeout_ms: nat, from: int, to: int) -> bool {
    to - from > timeout_ms * NANOS_PER_MILLI
}

/// The window once a click is in it: it starts over after a pause that was too
/// long, and its oldest click leaves where it was full.
pub open spec fn pushed(w: Watch, c: Click, now: int) -> Seq<Click> {
    let kept = if too_long(w.timeout_ms, w.last, now) {
        Seq::empty()
    } else {
        w.buf
    };
    let room = if kept.len() == w.pattern.len() && kept.len() > 0 {
        kept.drop_first()
    } else {
        kept
    };
    room.push(c)
}

/// The click completes the pattern.
pub open spec fn completes(w: Watch, c: Click, now: int) -> bool {
    pushed(w, c, now) == w.pattern
}

/// The matcher after a click: after a match the window is empty.
pub open spec fn clicked(w: Watch, c: Click, now: int) -> Watch {
    Watch {
        buf: if completes(w, c, now) {
            Seq::empty()
        } else {
            pushed(w, c, now)
        },
        last: now,
        ..w
    }
}

/// What one click led to.
pub struct Seen {
    /// The window with the click in it.
    pub window: Vec<Click>,
    /// The click completed the pattern.
    pub matched: bool,
}

impl Matcher {
    /// A matcher that has seen no click yet. Times are in nanoseconds from any
    /// fixed moment on.
    pub fn new(pattern: Vec<Click>, timeout_ms: u64, now: u128) -> (r: Matcher)
        ensures
            r@ == fresh(pattern@, timeout_ms as nat, now as int),
    {
        let n: usize = pattern.len();
        Matcher { pattern, timeout_ms, buf: VecDeque::with_capacity(n), last: now }
    }

    /// Takes in a click that came at `now`.
    pub fn click(&mut self, c: Click, now: u128) -> (r: Seen)
        ensures
            final(self)@ == clicked(old(self)@, c, now as int),
            r.window@ == pushed(old(self)@, c, now as int),
            r.matched == completes(old(self)@, c, now as int),
    {
        let limit: u128 = self.timeout_ms as u128 * NANOS_PER_MILLI;
        if now > self.last && now - self.last > limit {
            self.buf.clear();
        }
        self.last = now;
        if self.buf.len() == self.pattern.len() {
            let _ = self.buf.pop_front();
        }
        self.buf.push_back(c);
        proof {
            let w = old(self)@;
            let kept = if too_long(w.timeout_ms, w.last, now as int) {
                Seq::empty()
            } else {
                w.buf
            };
            if kept.len() > 0 {
                assert(kept.drop_first() =~= kept.subrange(1, kept.len() as int));
            }
            assert(self.buf@ =~= pushed(w, c, now as int));
        }
        let window: Vec<Click> = self.window();
        let matched: bool = same_clicks(&window, &self.pattern);
        if matched {
            self.buf.clear();
        }
        Seen { window, matched }
    }

    /// The clicks in the window, oldest first.
    pub fn window(&self) -> (r: Vec<Click>)
        ensures
            r@ == self@.buf,
    {
        let mut r: Vec<Click> = Vec::new();
        let n: usize = self.buf.len();
        let mut i: usize = 0;
        while i < n
            invariant
                i <= n == self.buf@.len(),
                r@ == self.buf@.take(i as int),
            decreases n - i,
        {
            r.push(self.buf[i]);
            assert(self.buf@.take(i + 1) =~= self.buf@.take(i as int).push(self.buf@[i as int]));
            i += 1;
        }
        assert(self.buf@.take(n as int) =~= self.buf@);
        r
    }
}

/// Tells whether two rows of clicks are the same.
pub fn same_clicks(a: &Vec<Click>, b: &Vec<Click>) -> (r: bool)
    ensures
        r == (a@ == b@),
{
    if a.len() != b.len() {
        return false;
    }
    let n: usize = a.len();
    let mut i: usize = 0;
    while i < n
        invariant
            i <= n == a@.len(),
            a@.len() == b@.len(),
            forall|k: int| 0 <= k < i ==> #[trigger] a@[k] == b@[k],
        decreases n - i,
    {
        if a[i] != b[i] {
            return false;
        }
        i += 1;
    }
    assert(a@ =~= b@);
    true
}

/// The matcher after a row of clicks, each with its time.
pub open spec fn clicked_all(w: Watch, ev: Seq<(Click, int)>) -> Watch
    decreases ev.len(),
{
    if ev.len() == 0 {
        w
    } else {
        clicked(clicked_all(w, ev.drop_last()), ev.last().0, ev.last().1)
    }
}

/// Click `i` of a row completes the pattern.
pub open spec fn fires(w: Watch, ev: Seq<(Click, int)>, i: int) -> bool {
    completes(clicked_all(w, ev.take(i)), ev[i].0, ev[i].1)
}

/// Click `i` of a row came too late after the one before it.
pub open spec fn late(w: Watch, ev: Seq<(Click, int)>, i: int) -> bool {
    too_long(
        w.timeout_ms,
        if i == 0 {
            w.last
        } else {
            ev[i - 1].1
        },
        ev[i].1,
    )
}

/// The pattern ends with click `i`: the latest clicks spell it, none of them
/// but the first came too late, and none before click `i` was the end of a
/// match.
pub open spec fn pattern_ends_at(w: Watch, ev: Seq<(Click, int)>, i: int) -> bool {
    let first = i + 1 - w.pattern.len();
    &&& first >= 0
    &&& forall|k: int| first <= k <= i ==> (#[trigger] ev[k]).0 == w.pattern[k - first]
    &&& forall|k: int| first < k <= i ==> !#[trigger] late(w, ev, k)
    &&& forall|k: int| first <= k < i ==> !#[trigger] fires(w, ev, k)
}

/// How many of the first `n` clicks came since the window last started over.
spec fn burst(w: Watch, ev: Seq<(Click, int)>, n: int) -> nat
    decreases n,
{
    if n <= 0 {
        0
    } else if fires(w, ev, n - 1) {
        0
    } else if late(w, ev, n - 1) {
        1
    } else {
        burst(w, ev, n - 1) + 1
    }
}

proof fn lemma_burst(w: Watch, ev: Seq<(Click, int)>, n: int, m: int)
    requires
        0 <= n <= ev.len(),
        m >= 1,
    ensures
        burst(w, ev, n) <= n,
        burst(w, ev, n) >= m <==> {
            &&& n >= m
            &&& forall|k: int| n - m <= k < n ==> !#[trigger] fires(w, ev, k)
            &&& forall|k: int| n - m < k < n ==> !#[trigger] late(w, ev, k)
        },
    decreases n,
{
    if n > 0 {
        lemma_burst(w, ev, n - 1, m);
        if m > 1 {
            lemma_burst(w, ev, n - 1, m - 1);
        }
    }
}

proof fn lemma_window(w: Watch, ev: Seq<(Click, int)>, n: int)
    requires
        w.buf.len() == 0,
        w.pattern.len() > 0,
        0 <= n <= ev.len(),
    ensures
        ({
            let x = clicked_all(w, ev.take(n));
            let b = burst(w, ev, n);
            let m = if b < w.pattern.len() {
                b as int
            } else {
                w.pattern.len() as int
            };
            &&& x.pattern == w.pattern
            &&& x.timeout_ms == w.timeout_ms
            &&& x.last == (if n == 0 {
                w.last
            } else {
                ev[n - 1].1
            })
            &&& x.buf == Seq::new(m as nat, |j: int| ev[n - m + j].0)
            &&& b <= n
        }),
    decreases n,
{
    if n == 0 {
        assert(ev.take(0) =~= Seq::empty());
        assert(w.buf =~= Seq::new(0, |j: int| ev[0 - 0 + j].0));
    } else {
        lemma_window(w, ev, n - 1);
        assert(ev.take(n).drop_last() =~= ev.take(n - 1));
        assert(ev.take(n).last() == ev[n - 1]);
        let y = clicked_all(w, ev.take(n - 1));
        let x = clicked_all(w, ev.take(n));
        let b = burst(w, ev, n);
        let m = if b < w.pattern.len() {
            b as int
        } else {
            w.pattern.len() as int
        };
        assert(x == clicked(y, ev[n - 1].0, ev[n - 1].1));
        assert(x.buf =~= Seq::new(m as nat, |j: int| ev[n - m + j].0));
    }
}

/// From a fresh start, a click completes the pattern exactly where the pattern
/// ends with it: no other clicks unlock, and those that spell the pattern in
/// time do.
pub proof fn law_unlocks_exactly_on_the_pattern(w: Watch, ev: Seq<(Click, int)>, i: int)
    requires
        w.buf.len() == 0,
        w.pattern.len() > 0,
        0 <= i < ev.len(),
    ensures
        fires(w, ev, i) <==> pattern_ends_at(w, ev, i),
{
    let n = w.pattern.len() as int;
    let first = i + 1 - n;
    lemma_window(w, ev, i);
    let x = clicked_all(w, ev.take(i));
    let b = burst(w, ev, i);
    let p = pushed(x, ev[i].0, ev[i].1);
    if n > 1 {
        lemma_burst(w, ev, i, n - 1);
    }
    if fires(w, ev, i) {
        assert(p.len() == n);
        assert forall|k: int| first <= k <= i implies (#[trigger] ev[k]).0 == w.pattern[k
            - first] by {
            assert(p[k - first] == w.pattern[k - first]);
        }
        if n > 1 {
            assert(b >= n - 1);
        }
    }
    if pattern_ends_at(w, ev, i) {
        if n > 1 {
            assert(b >= n - 1);
            assert(!late(w, ev, i));
        }
        assert(p.len() == n);
        assert forall|j: int| 0 <= j < n implies p[j] == w.pattern[j] by {
            assert(ev[first + j].0 == w.pattern[j]);
        }
        assert(p =~= w.pattern);
    }
}

/// From a fresh start, the pattern clicked in time unlocks with its last click
/// and not before.
pub proof fn law_clicking_the_pattern_unlocks(w: Watch, ev: Seq<(Click, int)>)
    requires
        w.buf.len() == 0,
        w.pattern.len() > 0,
        ev.len() == w.pattern.len(),
        forall|k: int| 0 <= k < ev.len() ==> (#[trigger] ev[k]).0 == w.pattern[k],
        forall|k: int| 0 < k < ev.len() ==> !#[trigger] late(w, ev, k),
    ensures
        forall|k: int| 0 <= k < ev.len() ==> (#[trigger] fires(w, ev, k) <==> k == ev.len() - 1),
{
    let n = ev.len() as int;
    assert forall|k: int| 0 <= k < n - 1 implies !#[trigger] fires(w, ev, k) by {
        law_unlocks_exactly_on_the_pattern(w, ev, k);
    }
    law_unlocks_exactly_on_the_pattern(w, ev, n - 1);
    assert(pattern_ends_at(w, ev, n - 1));
}

/// After a pause that was too long, only the click that ended it counts.
pub proof fn law_a_pause_starts_over(w: Watch, c: Click, now: int)
    requires
        too_long(w.timeout_ms, w.last, now),
    ensures
        pushed(w, c, now) == seq![c],
{
    assert(pushed(w, c, now) =~= seq![c]);
}

/// A match uses its clicks up: the next one starts from an empty window.
pub proof fn law_a_match_starts_over(w: Watch, c: Click, now: int)
    requires
        completes(w, c, now),
    ensures
        clicked(w, c, now) == fresh(w.pattern, w.timeout_ms, now),
{
}

/// The window never gets longer than the pattern.
pub proof fn law_window_is_bounded(w: Watch, c: Click, now: int)
    requires
        w.pattern.len() > 0,
        w.buf.len() <= w.pattern.len(),
    ensures
        pushed(w, c, now).len() <= w.pattern.len(),
        clicked(w, c, now).buf.len() <= w.pattern.len(),
{
}

/// The timeout is in milliseconds, times in nanoseconds: a pause of exactly the
/// timeout is not too long, and one of a nanosecond more is.
pub proof fn law_the_timeout_is_in_milliseconds(timeout_ms: nat, from: int, to: int)
    ensures
        too_long(timeout_ms, from, to) <==> to > from + timeout_ms * 1_000_000,
{
}

/// The window holds the latest clicks: after a click that came in time those that
/// were in it and that click, but for the oldest where there are as many as the
/// pattern has; and without a match they stay in it.
pub proof fn law_the_window_holds_the_latest_clicks(w: Watch, c: Click, now: int)
    requires
        now - w.last <= w.timeout_ms * 1_000_000,
        w.pattern.len() > 0,
        w.buf.len() <= w.pattern.len(),
    ensures
        w.buf.len() < w.pattern.len() ==> pushed(w, c, now) == w.buf.push(c),
        w.buf.len() == w.pattern.len() ==> pushed(w, c, now) == w.buf.push(c).drop_first(),
        clicked(w, c, now).last == now,
        clicked(w, c, now).pattern == w.pattern,
        clicked(w, c, now).timeout_ms == w.timeout_ms,
        pushed(w, c, now) != w.pattern ==> clicked(w, c, now).buf == pushed(w, c, now),
{
    if w.buf.len() == w.pattern.len() {
        assert(pushed(w, c, now) =~= w.buf.push(c).drop_first());
    }
}

} // verus!
