//! Tries at a hashed pattern. A hash does not tell how long its pattern is, so
//! the clicks since the last pause are one try, and each click puts the whole of
//! it to the test. A try that a pause ends has failed. Failures on a locked
//! screen are counted, and too many of them lock the pattern out for a while.

use vstd::prelude::*;
use crate::click;
use crate::click::Click;
use crate::hash;
use crate::matcher;
use crate::matcher::NANOS_PER_MILLI;

verus! {

/// When failures lock out, and for how long.
#[derive(Clone, Copy, PartialEq, Eq, Structural, Debug)]
pub struct Lockout {
    /// The number of failures that the first lockout comes with.
    pub max_failures: u32,
    /// The first lockout, in milliseconds.
    pub base_ms: u64,
    /// The longest lockout, in milliseconds.
    pub max_ms: u64,
}

/// A time that is doubled `k` times.
pub open spec fn doubled(ms: nat, k: nat) -> nat
    decreases k,
{
    if k == 0 {
        ms
    } else {
        2 * doubled(ms, (k - 1) as nat)
    }
}

/// How long failures lock out, in milliseconds: not at all while there are fewer
/// than the limit, then twice as long with each of them, up to the longest.
pub open spec fn lockout_ms(l: Lockout, failures: nat) -> nat {
    if failures < l.max_failures {
        0
    } else {
        let ms = doubled(l.base_ms as nat, (failures - l.max_failures) as nat);
        if ms < l.max_ms {
            ms
        } else {
            l.max_ms as nat
        }
    }
}

/// Watches for a hashed pattern.
pub struct Tries {
    hash: String,
    timeout_ms: u64,
    lockout: Lockout,
    tried: Vec<Click>,
    last: u128,
    screen_locked: bool,
    failures: u64,
    from: u128,
    wait: u128,
}

/// What is known of the tries: the hash, the longest pause between two clicks in
/// milliseconds, when failures lock out, the clicks of the try that is under
/// way, when the last of them came in nanoseconds, whether the screen was locked
/// by then, the failures since the last match, and until when they lock out.
#[verifier::ext_equal]
pub struct Trial {
    pub hash: Seq<char>,
    pub timeout_ms: nat,
    pub lockout: Lockout,
    pub tried: Seq<Click>,
    pub last: int,
    pub screen_locked: bool,
    pub failures: nat,
    pub until: int,
}

impl View for Tries {
    type V = Trial;

    closed spec fn view(&self) -> Trial {
        Trial {
            hash: self.hash@,
            timeout_ms: self.timeout_ms as nat,
            lockout: self.lockout,
            tried: self.tried@,
            last: self.last as int,
            screen_locked: self.screen_locked,
            failures: self.failures as nat,
            until: self.from + self.wait,
        }
    }
}

/// No click has come yet.
pub open spec fn fresh(hash: Seq<char>, timeout_ms: nat, lockout: Lockout, now: int) -> Trial {
    Trial {
        hash,
        timeout_ms,
        lockout,
        tried: Seq::empty(),
        last: now,
        screen_locked: false,
        failures: 0,
        until: now,
    }
}

/// A pause that was too long has ended the try that was under way.
pub open spec fn is_over(t: Trial, now: int) -> bool {
    t.tried.len() > 0 && matcher::too_long(t.timeout_ms, t.last, now)
}

/// One failure more; the count stays where it can go no further.
pub open spec fn counted(failures: nat) -> nat {
    if failures < u64::MAX {
        failures + 1
    } else {
        failures
    }
}

/// What holds at `now`: where a pause has ended a try, it is given up. Where the
/// screen was locked it counts as a failure, which locks out from the end of the
/// pause on.
pub open spec fn settled(t: Trial, now: int) -> Trial {
    if !is_over(t, now) {
        t
    } else if !t.screen_locked {
        Trial { tried: Seq::empty(), ..t }
    } else {
        let failures = counted(t.failures);
        Trial {
            tried: Seq::empty(),
            failures,
            until: t.last + (t.timeout_ms + lockout_ms(t.lockout, failures)) * NANOS_PER_MILLI,
            ..t
        }
    }
}

/// Failures lock out at `now`.
pub open spec fn locked_out(t: Trial, now: int) -> bool {
    now < settled(t, now).until
}

/// The try once a click is in it; there is none while failures lock out.
pub open spec fn attempt(t: Trial, c: Click, now: int) -> Seq<Click> {
    if locked_out(t, now) {
        Seq::empty()
    } else {
        settled(t, now).tried.push(c)
    }
}

/// The click makes the try verify against the hash.
pub open spec fn opens(t: Trial, c: Click, now: int) -> bool {
    !locked_out(t, now) && hash::verifies(t.hash, click::labels(attempt(t, c, now)))
}

/// What holds after a click: a match ends the try and forgives the failures.
pub open spec fn clicked(t: Trial, c: Click, now: int, screen_locked: bool) -> Trial {
    let s = settled(t, now);
    if locked_out(t, now) {
        Trial { tried: Seq::empty(), ..s }
    } else if opens(t, c, now) {
        Trial { tried: Seq::empty(), last: now, screen_locked, failures: 0, ..s }
    } else {
        Trial { tried: attempt(t, c, now), last: now, screen_locked, ..s }
    }
}

/// What one click led to.
pub struct Tried {
    /// The try with the click in it.
    pub window: Vec<Click>,
    /// Failures lock out, and the click was not taken in.
    pub locked_out: bool,
    /// The try verified against the hash.
    pub opened: bool,
}

proof fn lemma_doubled(ms: nat, k: nat)
    ensures
        doubled(ms, k) >= ms,
        ms == 0 ==> doubled(ms, k) == 0,
        k > 0 ==> doubled(ms, k) == doubled(2 * ms, (k - 1) as nat),
    decreases k,
{
    if k > 0 {
        lemma_doubled(ms, (k - 1) as nat);
    }
}

/// The smaller of two times.
spec fn at_most(ms: nat, max: nat) -> nat {
    if ms < max {
        ms
    } else {
        max
    }
}

impl Lockout {
    /// How long failures lock out, in milliseconds.
    pub fn duration_ms(&self, failures: u64) -> (r: u64)
        ensures
            r == lockout_ms(*self, failures as nat),
    {
        if failures < self.max_failures as u64 {
            return 0;
        }
        let ghost target = doubled(self.base_ms as nat, (failures - self.max_failures) as nat);
        let mut ms: u64 = self.base_ms;
        let mut k: u64 = failures - self.max_failures as u64;
        while 0 < k && 0 < ms && ms < self.max_ms
            invariant
                at_most(doubled(ms as nat, k as nat), self.max_ms as nat) == at_most(
                    target,
                    self.max_ms as nat,
                ),
            decreases k,
        {
            proof {
                lemma_doubled(ms as nat, k as nat);
                lemma_doubled(2 * ms as nat, (k - 1) as nat);
                lemma_doubled(self.max_ms as nat, (k - 1) as nat);
            }
            ms = if ms > self.max_ms - ms {
                self.max_ms
            } else {
                ms + ms
            };
            k -= 1;
        }
        proof {
            lemma_doubled(ms as nat, k as nat);
        }
        if ms < self.max_ms {
            ms
        } else {
            self.max_ms
        }
    }
}

impl Tries {
    /// No click has come yet. Times are in nanoseconds from any fixed moment on.
    pub fn new(hash: String, timeout_ms: u64, lockout: Lockout, now: u128) -> (r: Tries)
        ensures
            r@ == fresh(hash@, timeout_ms as nat, lockout, now as int),
    {
        let r: Tries = Tries {
            hash,
            timeout_ms,
            lockout,
            tried: Vec::new(),
            last: now,
            screen_locked: false,
            failures: 0,
            from: now,
            wait: 0,
        };
        assert(r@ =~= fresh(hash@, timeout_ms as nat, lockout, now as int));
        r
    }

    /// Gives up a try that a pause has ended, and counts it where it failed.
    fn settle(&mut self, now: u128)
        ensures
            final(self)@ == settled(old(self)@, now as int),
    {
        let pause: u128 = self.timeout_ms as u128 * NANOS_PER_MILLI;
        if self.tried.len() > 0 && now > self.last && now - self.last > pause {
            self.tried.clear();
            if self.screen_locked {
                if self.failures < u64::MAX {
                    self.failures = self.failures + 1;
                }
                let ms: u64 = self.lockout.duration_ms(self.failures);
                self.from = self.last;
                self.wait = (self.timeout_ms as u128 + ms as u128) * NANOS_PER_MILLI;
            }
        }
        assert(self@ =~= settled(old(self)@, now as int));
    }

    /// Takes in a click that came at `now`, with the screen locked or not.
    pub fn click(&mut self, c: Click, now: u128, screen_locked: bool) -> (r: Tried)
        ensures
            final(self)@ == clicked(old(self)@, c, now as int, screen_locked),
            r.window@ == attempt(old(self)@, c, now as int),
            r.locked_out == locked_out(old(self)@, now as int),
            r.opened == opens(old(self)@, c, now as int),
    {
        self.settle(now);
        let locked_out: bool = now < self.from || now - self.from < self.wait;
        let mut opened: bool = false;
        if locked_out {
            self.tried.clear();
        } else {
            self.tried.push(c);
            self.last = now;
            self.screen_locked = screen_locked;
        }
        let window: Vec<Click> = click::copy_clicks(&self.tried);
        if !locked_out {
            opened = hash::verify_pattern(
                self.hash.as_str(),
                click::label_text(&self.tried).as_str(),
            );
            if opened {
                self.tried.clear();
                self.failures = 0;
            }
        }
        assert(self@ =~= clicked(old(self)@, c, now as int, screen_locked));
        Tried { window, locked_out, opened }
    }
}

/// A click with its time, and whether the screen was locked.
pub struct Press {
    pub click: Click,
    pub at: int,
    pub screen_locked: bool,
}

/// What holds after a row of clicks.
pub open spec fn clicked_all(t: Trial, ev: Seq<Press>) -> Trial
    decreases ev.len(),
{
    if ev.len() == 0 {
        t
    } else {
        let e = ev.last();
        clicked(clicked_all(t, ev.drop_last()), e.click, e.at, e.screen_locked)
    }
}

/// Click `i` of a row opens.
pub open spec fn opens_at(t: Trial, ev: Seq<Press>, i: int) -> bool {
    opens(clicked_all(t, ev.take(i)), ev[i].click, ev[i].at)
}

/// The clicks of a part of a row.
pub open spec fn clicks_of(ev: Seq<Press>, from: int, to: int) -> Seq<Click> {
    Seq::new((to - from) as nat, |j: int| ev[from + j].click)
}

/// Click `k` of a row came too late after the one before it.
pub open spec fn late(timeout_ms: nat, ev: Seq<Press>, k: int) -> bool {
    matcher::too_long(timeout_ms, ev[k - 1].at, ev[k].at)
}

/// No click of a part of a row but the first came too late.
pub open spec fn in_time(timeout_ms: nat, ev: Seq<Press>, from: int, to: int) -> bool {
    forall|k: int| from < k < to ==> !#[trigger] late(timeout_ms, ev, k)
}

/// The row spells a pattern, no click of it but the first comes too late, and
/// failures lock none of them out.
pub open spec fn spells(t: Trial, ev: Seq<Press>, pattern: Seq<Click>) -> bool {
    &&& ev.len() == pattern.len()
    &&& forall|k: int| 0 <= k < ev.len() ==> (#[trigger] ev[k]).click == pattern[k]
    &&& in_time(t.timeout_ms, ev, 0, ev.len() as int)
    &&& forall|k: int|
        0 <= k < ev.len() ==> (#[trigger] ev[k]).at >= settled(t, ev[0].at).until
}

proof fn lemma_spelled(t: Trial, ev: Seq<Press>, pattern: Seq<Click>, n: int)
    requires
        spells(t, ev, pattern),
        settled(t, ev[0].at).tried.len() == 0,
        0 < n <= ev.len(),
        forall|k: int| 0 <= k < n ==> !#[trigger] opens_at(t, ev, k),
    ensures
        ({
            let x = clicked_all(t, ev.take(n));
            &&& x.hash == t.hash
            &&& x.timeout_ms == t.timeout_ms
            &&& x.tried == pattern.take(n)
            &&& x.last == ev[n - 1].at
            &&& x.until == settled(t, ev[0].at).until
        }),
    decreases n,
{
    let e = ev[n - 1];
    assert(ev.take(n).drop_last() =~= ev.take(n - 1));
    assert(ev.take(n).last() == e);
    assert(!opens_at(t, ev, n - 1));
    let y = clicked_all(t, ev.take(n - 1));
    if n == 1 {
        assert(ev.take(0) =~= Seq::empty());
        assert(y == t);
        assert(e.at >= settled(t, ev[0].at).until);
    } else {
        lemma_spelled(t, ev, pattern, n - 1);
        assert(!late(t.timeout_ms, ev, n - 1));
        assert(ev[n - 1].at >= settled(t, ev[0].at).until);
    }
    assert(e.click == pattern[n - 1]);
    assert(clicked_all(t, ev.take(n)).tried =~= pattern.take(n));
}

/// Clicking a pattern in time, with no try under way or after a pause that ended
/// it: a click opens exactly where the clicks so far verify against the hash. So
/// a pattern that verifies opens with its last click, unless a beginning of it
/// verified before.
pub proof fn law_clicking_a_pattern_that_verifies_opens(
    t: Trial,
    ev: Seq<Press>,
    pattern: Seq<Click>,
    i: int,
)
    requires
        spells(t, ev, pattern),
        settled(t, ev[0].at).tried.len() == 0,
        0 <= i < ev.len(),
        forall|k: int| 0 <= k < i ==> !#[trigger] opens_at(t, ev, k),
    ensures
        opens_at(t, ev, i) <==> hash::verifies(t.hash, click::labels(pattern.take(i + 1))),
{
    assert(ev[i].click == pattern[i]);
    if i == 0 {
        assert(ev.take(0) =~= Seq::empty());
        assert(ev[0].at >= settled(t, ev[0].at).until);
        assert(attempt(t, ev[0].click, ev[0].at) =~= pattern.take(1));
    } else {
        lemma_spelled(t, ev, pattern, i);
        let x = clicked_all(t, ev.take(i));
        assert(!late(t.timeout_ms, ev, i));
        assert(ev[i].at >= settled(t, ev[0].at).until);
        assert(attempt(x, ev[i].click, ev[i].at) =~= pattern.take(i + 1));
    }
}

/// Whatever is clicked, only clicks that verify open: what is put to the test
/// with a click are the latest clicks, that one among them, each of which came
/// in time after the one before it.
pub proof fn law_only_clicks_that_verify_open(t: Trial, ev: Seq<Press>, i: int)
    requires
        t.tried.len() == 0,
        0 <= i < ev.len(),
        opens_at(t, ev, i),
    ensures
        exists|from: int|
            0 <= from <= i && in_time(t.timeout_ms, ev, from, i + 1) && #[trigger] hash::verifies(
                t.hash,
                click::labels(clicks_of(ev, from, i + 1)),
            ),
{
    lemma_latest(t, ev, i);
    let x = clicked_all(t, ev.take(i));
    let s = settled(x, ev[i].at);
    let from = if s.tried.len() == 0 {
        i
    } else {
        choose|from: int|
            0 <= from < i && x.tried == #[trigger] clicks_of(ev, from, i) && in_time(
                t.timeout_ms,
                ev,
                from,
                i,
            )
    };
    assert(in_time(t.timeout_ms, ev, from, i + 1));
    assert(attempt(x, ev[i].click, ev[i].at) =~= clicks_of(ev, from, i + 1));
    assert(hash::verifies(t.hash, click::labels(clicks_of(ev, from, i + 1))));
}

proof fn lemma_latest(t: Trial, ev: Seq<Press>, n: int)
    requires
        t.tried.len() == 0,
        0 <= n <= ev.len(),
    ensures
        ({
            let x = clicked_all(t, ev.take(n));
            &&& x.hash == t.hash
            &&& x.timeout_ms == t.timeout_ms
            &&& x.tried.len() == 0 || exists|from: int|
                0 <= from < n && x.tried == #[trigger] clicks_of(ev, from, n) && in_time(
                    t.timeout_ms,
                    ev,
                    from,
                    n,
                )
            &&& x.tried.len() > 0 ==> x.last == ev[n - 1].at
        }),
    decreases n,
{
    if n == 0 {
        assert(ev.take(0) =~= Seq::empty());
    } else {
        lemma_latest(t, ev, n - 1);
        assert(ev.take(n).drop_last() =~= ev.take(n - 1));
        assert(ev.take(n).last() == ev[n - 1]);
        let y = clicked_all(t, ev.take(n - 1));
        let e = ev[n - 1];
        let x = clicked_all(t, ev.take(n));
        assert(x == clicked(y, e.click, e.at, e.screen_locked));
        if x.tried.len() > 0 {
            let s = settled(y, e.at);
            assert(x.tried == s.tried.push(e.click));
            if s.tried.len() == 0 {
                assert(x.tried =~= clicks_of(ev, n - 1, n));
            } else {
                let from = choose|from: int|
                    0 <= from < n - 1 && y.tried == #[trigger] clicks_of(ev, from, n - 1) && in_time(
                        t.timeout_ms,
                        ev,
                        from,
                        n - 1,
                    );
                assert(in_time(t.timeout_ms, ev, from, n));
                assert(x.tried =~= clicks_of(ev, from, n));
            }
        }
    }
}

/// While failures lock out, no click opens, none is taken in, and none changes
/// how long they do.
pub proof fn law_locked_out_clicks_do_nothing(t: Trial, c: Click, now: int, screen_locked: bool)
    requires
        locked_out(t, now),
    ensures
        !opens(t, c, now),
        clicked(t, c, now, screen_locked) == (Trial { tried: Seq::empty(), ..settled(t, now) }),
{
}

/// A try that failed on a locked screen counts, and locks out from the end of the
/// pause on for as long as the failures ask for.
pub proof fn law_failed_tries_lock_out(t: Trial, now: int)
    requires
        is_over(t, now),
        t.screen_locked,
        t.failures < u64::MAX,
    ensures
        settled(t, now).failures == t.failures + 1,
        locked_out(t, now) <==> now < t.last + (t.timeout_ms + lockout_ms(
            t.lockout,
            t.failures + 1,
        )) * NANOS_PER_MILLI,
{
}

/// Clicks on a screen that is not locked are no failures, and lock nothing out.
pub proof fn law_failures_count_on_a_locked_screen_only(t: Trial, now: int)
    requires
        !t.screen_locked,
    ensures
        settled(t, now).failures == t.failures,
        settled(t, now).until == t.until,
{
}

/// The first lockout comes with the failure that reaches the limit and lasts for
/// the base time, each one after it lasts twice as long, and none lasts longer
/// than the longest.
pub proof fn law_lockouts_double_up_to_the_longest(l: Lockout, failures: nat)
    ensures
        failures < l.max_failures ==> lockout_ms(l, failures) == 0,
        failures == l.max_failures ==> lockout_ms(l, failures) == (if l.base_ms < l.max_ms {
            l.base_ms
        } else {
            l.max_ms
        }),
        failures >= l.max_failures ==> lockout_ms(l, failures + 1) == (if 2 * lockout_ms(
            l,
            failures,
        ) < l.max_ms {
            2 * lockout_ms(l, failures)
        } else {
            l.max_ms as nat
        }),
        lockout_ms(l, failures) <= l.max_ms,
{
    if failures >= l.max_failures {
        let k = (failures - l.max_failures) as nat;
        assert(doubled(l.base_ms as nat, k + 1) == 2 * doubled(l.base_ms as nat, k));
    }
}

/// A match forgives the failures that were counted.
pub proof fn law_a_match_forgives_failures(t: Trial, c: Click, now: int, screen_locked: bool)
    requires
        opens(t, c, now),
    ensures
        clicked(t, c, now, screen_locked).failures == 0,
        clicked(t, c, now, screen_locked).tried.len() == 0,
{
}

/// A try is over exactly where there is one and more than the timeout, in
/// milliseconds, has passed since its last click.
pub proof fn law_a_pause_ends_a_try(t: Trial, now: int)
    ensures
        is_over(t, now) <==> t.tried.len() > 0 && now - t.last > t.timeout_ms * 1_000_000,
        !is_over(t, now) ==> settled(t, now) == t,
        is_over(t, now) ==> settled(t, now).tried.len() == 0,
{
}

/// A try that a pause ends on a locked screen is one failure more, and locks out
/// from the end of the pause on; on a screen that is not locked it is none.
pub proof fn law_what_a_pause_does(t: Trial, now: int)
    requires
        t.tried.len() > 0,
        now - t.last > t.timeout_ms * 1_000_000,
        t.failures < u64::MAX,
    ensures
        t.screen_locked ==> settled(t, now) == (Trial {
            tried: Seq::empty(),
            failures: t.failures + 1,
            until: t.last + t.timeout_ms * 1_000_000 + lockout_ms(t.lockout, t.failures + 1)
                * 1_000_000,
            ..t
        }),
        !t.screen_locked ==> settled(t, now) == (Trial { tried: Seq::empty(), ..t }),
{
}

/// A click that is neither locked out nor a match becomes part of the try, which
/// goes on from its time and from the state of the screen then.
pub proof fn law_a_click_goes_on_with_the_try(t: Trial, c: Click, now: int, screen_locked: bool)
    requires
        now - t.last <= t.timeout_ms * 1_000_000,
        now >= t.until,
        !hash::verifies(t.hash, click::labels(t.tried.push(c))),
    ensures
        !opens(t, c, now),
        attempt(t, c, now) == t.tried.push(c),
        clicked(t, c, now, screen_locked) == (Trial {
            tried: t.tried.push(c),
            last: now,
            screen_locked,
            ..t
        }),
{
}

/// A click opens exactly where the try with it verifies as a whole, letter by
/// letter, and nothing locks it out.
pub proof fn law_a_try_opens_as_a_whole(t: Trial, c: Click, now: int, screen_locked: bool)
    requires
        now - t.last <= t.timeout_ms * 1_000_000,
    ensures
        opens(t, c, now) <==> now >= t.until && hash::verifies(
            t.hash,
            click::labels(t.tried.push(c)),
        ),
        opens(t, c, now) ==> clicked(t, c, now, screen_locked) == (Trial {
            tried: Seq::empty(),
            last: now,
            screen_locked,
            failures: 0,
            ..t
        }),
{
}

/// A failed try on a locked screen that reaches the limit: every click is ignored
/// until the pause and the lockout are over, and the first one after that is
/// taken in again.
pub proof fn law_clicks_are_ignored_for_as_long_as_asked(t: Trial, c: Click, now: int)
    requires
        t.tried.len() > 0,
        t.screen_locked,
        t.failures < u64::MAX,
        t.failures + 1 == t.lockout.max_failures,
        t.lockout.base_ms <= t.lockout.max_ms,
        now - t.last > t.timeout_ms * 1_000_000,
    ensures
        now - t.last < (t.timeout_ms + t.lockout.base_ms) * 1_000_000 ==> locked_out(t, now)
            && attempt(t, c, now).len() == 0 && !opens(t, c, now),
        now - t.last >= (t.timeout_ms + t.lockout.base_ms) * 1_000_000 ==> !locked_out(t, now)
            && attempt(t, c, now) == seq![c],
{
    law_lockouts_double_up_to_the_longest(t.lockout, t.failures + 1);
    law_what_a_pause_does(t, now);
    if !locked_out(t, now) {
        assert(attempt(t, c, now) =~= seq![c]);
    }
}

/// Before the first click there is no try, no failure and no lockout.
pub proof fn law_a_fresh_start(hash: Seq<char>, timeout_ms: nat, lockout: Lockout, now: int)
    ensures
        ({
            let t = fresh(hash, timeout_ms, lockout, now);
            &&& t.hash == hash
            &&& t.timeout_ms == timeout_ms
            &&& t.lockout == lockout
            &&& t.tried.len() == 0
            &&& t.failures == 0
            &&& forall|later: int| later >= now ==> !#[trigger] locked_out(t, later)
        }),
{
}

} // verus!
