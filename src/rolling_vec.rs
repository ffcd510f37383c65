//! A time series bounded by age: entries older than the window are dropped
//! lazily, when the series is read. Times are milliseconds on the caller's
//! clock.
use vstd::prelude::*;

verus! {

/// How long ago `ts` was at `now`; a clock that went back counts as no time.
pub open spec fn age(ts: int, now: int) -> int {
    if now >= ts {
        now - ts
    } else {
        0
    }
}

/// The entries younger than `window` at `now`, in order.
pub open spec fn fresh<T>(s: Seq<(int, T)>, now: int, window: int) -> Seq<(int, T)>
    decreases s.len(),
{
    if s.len() == 0 {
        Seq::<(int, T)>::empty()
    } else if age(s.last().0, now) < window {
        fresh(s.drop_last(), now, window).push(s.last())
    } else {
        fresh(s.drop_last(), now, window)
    }
}

/// The values of a series, without their times.
pub open spec fn values<T>(s: Seq<(int, T)>) -> Seq<T> {
    Seq::new(s.len(), |i: int| s[i].1)
}

/// One sample and when it was taken.
#[derive(Debug, Clone, Copy)]
pub struct RollingVecEntry<T> {
    timestamp: u64,
    entry: T,
}

impl<T: Copy> RollingVecEntry<T> {
    pub fn new(entry: T, now: u64) -> (r: Self)
        ensures
            r.model() == (now as int, entry),
    {
        RollingVecEntry { timestamp: now, entry }
    }

    pub closed spec fn model(&self) -> (int, T) {
        (self.timestamp as int, self.entry)
    }
}

/// Samples of the last `duration_ms` milliseconds.
#[derive(Debug, Clone)]
pub struct RollingVec<T> {
    entries: Vec<RollingVecEntry<T>>,
    duration_ms: u64,
}

impl<T: Copy> View for RollingVec<T> {
    type V = Seq<(int, T)>;

    closed spec fn view(&self) -> Seq<(int, T)> {
        Seq::new(self.entries@.len(), |i: int| self.entries@[i].model())
    }
}

impl<T: Copy> RollingVec<T> {
    pub closed spec fn window(&self) -> int {
        self.duration_ms as int
    }

    /// An empty series keeping `duration_ms` milliseconds of samples.
    pub fn new(duration_ms: u64) -> (r: Self)
        ensures
            r@ == Seq::<(int, T)>::empty(),
            r.window() == duration_ms,
    {
        let r = RollingVec { entries: Vec::new(), duration_ms };
        proof {
            assert(r@ =~= Seq::<(int, T)>::empty());
        }
        r
    }

    /// Drops the samples that are no longer younger than the window.
    pub fn flush(&mut self, now: u64)
        ensures
            final(self)@ == fresh(old(self)@, now as int, old(self).window()),
            final(self).window() == old(self).window(),
    {
        let ghost s = self@;
        let mut kept: Vec<RollingVecEntry<T>> = Vec::new();
        let mut i: usize = 0;
        while i < self.entries.len()
            invariant
                i <= self.entries@.len(),
                s == self@,
                Seq::new(kept@.len(), |k: int| kept@[k].model()) == fresh(
                    s.subrange(0, i as int),
                    now as int,
                    self.window(),
                ),
            decreases self.entries@.len() - i,
        {
            let e = self.entries[i];
            let ghost pre = s.subrange(0, i as int);
            let ghost prev = kept@;
            proof {
                let t = s.subrange(0, i + 1);
                assert(t.drop_last() =~= pre);
                assert(t.last() == e.model());
            }
            let a = if now >= e.timestamp {
                now - e.timestamp
            } else {
                0
            };
            if a < self.duration_ms {
                kept.push(e);
                proof {
                    assert(Seq::new(kept@.len(), |k: int| kept@[k].model()) =~= Seq::new(
                        prev.len(),
                        |k: int| prev[k].model(),
                    ).push(e.model()));
                }
            }
            i = i + 1;
        }
        proof {
            assert(s.subrange(0, s.len() as int) =~= s);
        }
        self.entries = kept;
    }

    /// Appends a sample taken at `now`.
    pub fn add(&mut self, element: T, now: u64)
        ensures
            final(self)@ == old(self)@.push((now as int, element)),
            final(self).window() == old(self).window(),
    {
        self.entries.push(RollingVecEntry::new(element, now));
        proof {
            assert(self@ =~= old(self)@.push((now as int, element)));
        }
    }

    /// The newest sample still in the window, after dropping the old ones.
    pub fn get_latest(&mut self, now: u64) -> (r: Option<T>)
        ensures
            final(self)@ == fresh(old(self)@, now as int, old(self).window()),
            final(self).window() == old(self).window(),
            r == (if final(self)@.len() == 0 {
                None
            } else {
                Some(final(self)@.last().1)
            }),
    {
        self.flush(now);
        let n = self.entries.len();
        if n == 0 {
            None
        } else {
            Some(self.entries[n - 1].entry)
        }
    }

    /// Every sample still in the window, oldest first, after dropping the
    /// old ones.
    pub fn get_all(&mut self, now: u64) -> (r: Vec<T>)
        ensures
            final(self)@ == fresh(old(self)@, now as int, old(self).window()),
            final(self).window() == old(self).window(),
            r@ == values(final(self)@),
    {
        self.flush(now);
        self.values_now()
    }

    /// The values of the samples still in the window at `now`, oldest
    /// first, leaving the series as it is.
    pub fn fresh_values(&self, now: u64) -> (r: Vec<T>)
        ensures
            r@ == values(fresh(self@, now as int, self.window())),
    {
        let ghost s = self@;
        let mut out: Vec<T> = Vec::new();
        let mut i: usize = 0;
        while i < self.entries.len()
            invariant
                i <= self.entries@.len(),
                s == self@,
                out@ == values(fresh(s.subrange(0, i as int), now as int, self.window())),
            decreases self.entries@.len() - i,
        {
            let e = self.entries[i];
            let ghost pre = s.subrange(0, i as int);
            proof {
                let t = s.subrange(0, i + 1);
                assert(t.drop_last() =~= pre);
                assert(t.last() == e.model());
            }
            let a = if now >= e.timestamp {
                now - e.timestamp
            } else {
                0
            };
            if a < self.duration_ms {
                out.push(e.entry);
                proof {
                    let f = fresh(pre, now as int, self.window());
                    assert(values(f.push(e.model())) =~= values(f).push(e.entry));
                }
            }
            i = i + 1;
        }
        proof {
            assert(s.subrange(0, s.len() as int) =~= s);
        }
        out
    }

    /// The values of the samples held, oldest first.
    pub fn values_now(&self) -> (r: Vec<T>)
        ensures
            r@ == values(self@),
    {
        let mut out: Vec<T> = Vec::new();
        let mut i: usize = 0;
        while i < self.entries.len()
            invariant
                i <= self.entries@.len(),
                out@ =~= values(self@).subrange(0, i as int),
            decreases self.entries@.len() - i,
        {
            out.push(self.entries[i].entry);
            i = i + 1;
        }
        out
    }
}

} // verus!
