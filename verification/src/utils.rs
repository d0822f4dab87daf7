//! Timing utilities and a content hash.
//!
//! A [`Timer`] wraps the system clock, which the library cannot reason
//! about: nothing is promised about the times it reports. The
//! [`PerformanceMonitor`]'s bookkeeping—which timers exist under which
//! names—is verified.

use vstd::prelude::*;

use std::collections::hash_map::DefaultHasher;
use std::hash::{Hash, Hasher};
use std::time::{Duration, Instant};

use vstd::string::StringExecFns;

use crate::plan::seq_contains;

verus! {

#[verifier::external_type_specification]
#[verifier::external_body]
pub struct ExInstant(Instant);

/// Relies on `Instant::now`: it returns the current instant, about which
/// nothing can be promised.
#[verifier::external_body]
fn instant_now() -> Instant {
    Instant::now()
}

/// Relies on `Instant::elapsed`: it returns the time since the instant,
/// which depends on the clock.
#[verifier::external_body]
fn instant_elapsed(start: &Instant) -> Duration {
    start.elapsed()
}

/// Relies on `Duration::as_millis`: it returns the duration's whole
/// milliseconds, a clock-dependent value.
#[verifier::external_body]
fn duration_as_millis(d: &Duration) -> u128 {
    d.as_millis()
}

/// A named stopwatch started at construction.
pub struct Timer {
    pub start: Instant,
    pub name: String,
}

impl Timer {
    /// Starts a timer under the given name.
    pub fn new(name: &str) -> (r: Timer)
        ensures
            r.name@ == name@,
    {
        Timer { start: instant_now(), name: <String as StringExecFns>::from_str(name) }
    }

    /// The time elapsed since the timer started. The clock decides the
    /// value; nothing is promised of it.
    pub fn elapsed(&self) -> Duration {
        instant_elapsed(&self.start)
    }

    /// The elapsed time in whole milliseconds.
    pub fn elapsed_ms(&self) -> u64 {
        let d = self.elapsed();
        let ms = duration_as_millis(&d);
        #[verifier::truncate] (ms as u64)
    }
}

/// The timer names of a monitor's entries.
pub open spec fn spec_timer_names(ts: Seq<(String, Timer)>) -> Seq<Seq<char>>
    decreases ts,
{
    if ts.len() == 0 {
        Seq::empty()
    } else {
        seq![ts[0].0@] + spec_timer_names(ts.drop_first())
    }
}

/// `spec_timer_names` maps the entries elementwise.
pub proof fn lemma_timer_names(ts: Seq<(String, Timer)>)
    ensures
        spec_timer_names(ts).len() == ts.len(),
        forall|i: int| 0 <= i < ts.len() ==> #[trigger] spec_timer_names(ts)[i] == ts[i].0@,
    decreases ts,
{
    if ts.len() > 0 {
        lemma_timer_names(ts.drop_first());
    }
}

/// A registry of running timers, one per name; starting a name again
/// restarts it.
pub struct PerformanceMonitor {
    timers: Vec<(String, Timer)>,
}

impl PerformanceMonitor {
    /// The names of the running timers.
    pub closed spec fn names(self) -> Seq<Seq<char>> {
        spec_timer_names(self.timers@)
    }

    /// Each name runs at most one timer.
    pub open spec fn wf(self) -> bool {
        forall|i: int, j: int|
            0 <= i < j < self.names().len() ==> self.names()[i] != self.names()[j]
    }

    /// A fresh monitor with no timers.
    pub fn new() -> (r: PerformanceMonitor)
        ensures
            r.names() == Seq::<Seq<char>>::empty(),
            r.wf(),
    {
        let r = PerformanceMonitor { timers: Vec::new() };
        proof {
            assert(spec_timer_names(r.timers@) =~= Seq::<Seq<char>>::empty());
        }
        r
    }

    /// The position of the timer under `name`, if one runs.
    fn find_pos(&self, key: &String) -> (r: Option<usize>)
        ensures
            match r {
                Some(p) => p < self.names().len() && self.names()[p as int] == key@,
                None => !seq_contains(self.names(), key@),
            },
    {
        let ghost nm = spec_timer_names(self.timers@);
        proof {
            lemma_timer_names(self.timers@);
        }
        let mut i: usize = 0;
        while i < self.timers.len()
            invariant
                i <= self.timers@.len(),
                nm == spec_timer_names(self.timers@),
                nm.len() == self.timers@.len(),
                forall|k: int|
                    0 <= k < self.timers@.len() ==> #[trigger] nm[k] == self.timers@[k].0@,
                forall|k: int| 0 <= k < i ==> nm[k] != key@,
            decreases self.timers@.len() - i,
        {
            if self.timers[i].0 == *key {
                return Some(i);
            }
            i = i + 1;
        }
        None
    }

    /// Removes the timer under `name`, if any; afterwards no timer runs
    /// under that name, and every other name is untouched.
    fn remove_name(&mut self, name: &str) -> (r: Option<Timer>)
        requires
            old(self).wf(),
        ensures
            final(self).wf(),
            !seq_contains(final(self).names(), name@),
            forall|x: Seq<char>|
                x != name@ ==> (seq_contains(final(self).names(), x) <==> seq_contains(
                    old(self).names(),
                    x,
                )),
            (r is Some) <==> seq_contains(old(self).names(), name@),
    {
        let key = <String as StringExecFns>::from_str(name);
        let pos = match self.find_pos(&key) {
            Some(p) => p,
            None => {
                proof {
                    assert(forall|x: Seq<char>|
                        seq_contains(final(self).names(), x) <==> seq_contains(
                            old(self).names(),
                            x,
                        ));
                }
                return None;
            },
        };
        let ghost nm_old = spec_timer_names(self.timers@);
        proof {
            lemma_timer_names(self.timers@);
        }
        let (_, t) = self.timers.remove(pos);
        proof {
            lemma_timer_names(self.timers@);
            let nm_new = spec_timer_names(self.timers@);
            assert(nm_new =~= nm_old.remove(pos as int)) by {
                lemma_timer_names(self.timers@);
            }
            assert forall|x: Seq<char>|
                x != name@ implies (seq_contains(nm_new, x) <==> seq_contains(
                nm_old,
                x,
            )) by {
                if seq_contains(nm_new, x) {
                    let k = choose|k: int| 0 <= k < nm_new.len() && nm_new[k] == x;
                    if k < pos {
                        assert(nm_old[k] == x);
                    } else {
                        assert(nm_old[k + 1] == x);
                    }
                }
                if seq_contains(nm_old, x) {
                    let k = choose|k: int| 0 <= k < nm_old.len() && nm_old[k] == x;
                    if k < pos {
                        assert(nm_new[k] == x);
                    } else {
                        assert(k != pos);
                        assert(nm_new[k - 1] == x);
                    }
                }
            }
            assert(!seq_contains(nm_new, name@)) by {
                if seq_contains(nm_new, name@) {
                    let k = choose|k: int| 0 <= k < nm_new.len() && nm_new[k] == name@;
                    if k < pos {
                        assert(nm_old[k] == name@ && nm_old[pos as int] == name@);
                    } else {
                        assert(nm_old[k + 1] == name@ && nm_old[pos as int] == name@);
                    }
                }
            }
            assert forall|i: int, j: int|
                0 <= i < j < nm_new.len() implies nm_new[i] != nm_new[j] by {
                let oi: int = if i < pos {
                    i
                } else {
                    i + 1
                };
                let oj: int = if j < pos {
                    j
                } else {
                    j + 1
                };
                assert(nm_new[i] == nm_old[oi]);
                assert(nm_new[j] == nm_old[oj]);
            }
        }
        Some(t)
    }

    /// Starts, or restarts, the timer under `name`.
    pub fn start_timer(&mut self, name: &str)
        requires
            old(self).wf(),
        ensures
            final(self).wf(),
            seq_contains(final(self).names(), name@),
            forall|x: Seq<char>|
                x != name@ ==> (seq_contains(final(self).names(), x) <==> seq_contains(
                    old(self).names(),
                    x,
                )),
    {
        let _ = self.remove_name(name);
        let ghost nm_mid = spec_timer_names(self.timers@);
        let key = <String as StringExecFns>::from_str(name);
        let t = Timer::new(name);
        proof {
            lemma_timer_names(self.timers@.push((key, t)));
            lemma_timer_names(self.timers@);
            assert(spec_timer_names(self.timers@.push((key, t))) =~~= spec_timer_names(
                self.timers@,
            ).push(key@));
        }
        self.timers.push((key, t));
        proof {
            let nm_new = spec_timer_names(self.timers@);
            assert(nm_new[nm_new.len() - 1] == name@);
            assert forall|x: Seq<char>|
                x != name@ implies (seq_contains(nm_new, x) <==> seq_contains(
                nm_mid,
                x,
            )) by {
                if seq_contains(nm_new, x) {
                    let k = choose|k: int| 0 <= k < nm_new.len() && nm_new[k] == x;
                    assert(k < nm_mid.len());
                    assert(nm_mid[k] == x);
                }
                if seq_contains(nm_mid, x) {
                    let k = choose|k: int| 0 <= k < nm_mid.len() && nm_mid[k] == x;
                    assert(nm_new[k] == x);
                }
            }
            assert forall|i: int, j: int|
                0 <= i < j < nm_new.len() implies nm_new[i] != nm_new[j] by {
                if j == nm_new.len() - 1 {
                    assert(nm_new[i] == nm_mid[i]);
                    assert(seq_contains(nm_mid, nm_mid[i]) || true);
                    if nm_new[i] == name@ {
                        assert(seq_contains(nm_mid, name@));
                    }
                }
            }
        }
    }

    /// Stops the timer under `name` and reports its elapsed milliseconds;
    /// nothing if no such timer runs. The reported time is the clock's.
    pub fn stop_timer(&mut self, name: &str) -> (r: Option<u64>)
        requires
            old(self).wf(),
        ensures
            final(self).wf(),
            !seq_contains(final(self).names(), name@),
            forall|x: Seq<char>|
                x != name@ ==> (seq_contains(final(self).names(), x) <==> seq_contains(
                    old(self).names(),
                    x,
                )),
            (r is Some) <==> seq_contains(old(self).names(), name@),
    {
        match self.remove_name(name) {
            Some(t) => Some(t.elapsed_ms()),
            None => None,
        }
    }

    /// Reports the elapsed milliseconds of the timer under `name` without
    /// stopping it; nothing if no such timer runs.
    pub fn get_metrics(&self, name: &str) -> (r: Option<u64>)
        ensures
            (r is Some) <==> seq_contains(self.names(), name@),
    {
        let key = <String as StringExecFns>::from_str(name);
        match self.find_pos(&key) {
            Some(p) => {
                proof {
                    lemma_timer_names(self.timers@);
                }
                let ms = self.timers[p].1.elapsed_ms();
                Some(ms)
            },
            None => None,
        }
    }
}

/// Relies on `DefaultHasher`: hashes the content with the standard
/// library's default hasher. Within one build of the standard library equal
/// strings hash alike, but the value is not stable across builds, so no
/// determinism is promised of it.
#[verifier::external_body]
pub fn simple_hash(content: &str) -> u64 {
    let mut hasher = DefaultHasher::new();
    content.hash(&mut hasher);
    hasher.finish()
}

} // verus!
