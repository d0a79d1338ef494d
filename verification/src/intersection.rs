//! Ordered collection of ray-surface hits, nearest first.
//!
//! A hit is stamped with the time `t` at which the ray meets the surface.
//! The renderer computes `t` as an IEEE-754 double; this module carries it
//! as the double's 64-bit pattern. For every non-negative double (zero,
//! normal, subnormal or infinity) the unsigned order of bit patterns agrees
//! with the numeric order of the values, and a double is strictly positive
//! exactly when its bit pattern lies in `1..=INFINITY_BITS`; `NaN` and every
//! negative value fall outside that range. All ordering contracts below are
//! therefore stated, and proved, over the plain `u64` keys.
//!
//! The collection retains only entries with positive time (a surface behind
//! the ray's origin, or exactly at it, is no hit) and yields them smallest
//! time first.

use vstd::prelude::*;
use vstd::seq_lib::to_multiset_insert;
use vstd::seq_lib::to_multiset_build;

verus! {

/// Bit pattern of the IEEE-754 double `+infinity`: the largest key a
/// retained hit can carry.
pub const INFINITY_BITS: u64 = 0x7FF0_0000_0000_0000;

/// Whether `time` is the bit pattern of a strictly positive double
/// (including `+infinity`). Zero times, negative times and `NaN` are not
/// hit times: the surface is at or behind the ray's origin, or the
/// intersection is degenerate.
pub open spec fn is_hit_time(time: u64) -> bool {
    0 < time <= INFINITY_BITS
}

/// One ray-surface hit: the time key and the index of the scene object that
/// was hit, into the caller's object list.
#[derive(Copy, Clone, Debug, PartialEq, Eq, Structural)]
pub struct Intersection {
    pub time: u64,
    pub object: usize,
}

impl Intersection {
    pub fn new(time: u64, object: usize) -> (r: Intersection)
        ensures
            r.time == time,
            r.object == object,
    {
        Intersection { time, object }
    }
}

/// The entries of a candidate list that a collection retains: exactly those
/// with positive hit times, in the order they appear.
pub open spec fn retained(list: Seq<Intersection>) -> Seq<Intersection>
    decreases list.len(),
{
    if list.len() == 0 {
        Seq::empty()
    } else if is_hit_time(list.last().time) {
        retained(list.drop_last()).push(list.last())
    } else {
        retained(list.drop_last())
    }
}

/// The retained hits of one ray against a scene, in nearest-first order.
pub struct Intersections {
    entries: Vec<Intersection>,
}

impl View for Intersections {
    type V = Seq<Intersection>;

    closed spec fn view(&self) -> Seq<Intersection> {
        self.entries@
    }
}

impl Intersections {
    /// Every retained entry has a positive time, and the entries stand in
    /// non-decreasing time order.
    pub open spec fn wf(self) -> bool {
        &&& forall|i: int| 0 <= i < self@.len() ==> is_hit_time(#[trigger] self@[i].time)
        &&& forall|i: int, j: int|
            0 <= i <= j < self@.len() ==> #[trigger] self@[i].time <= #[trigger] self@[j].time
    }

    pub fn new() -> (r: Intersections)
        ensures
            r.wf(),
            r@ == Seq::<Intersection>::empty(),
    {
        Intersections { entries: Vec::new() }
    }

    /// How many hits are retained.
    pub fn count(&self) -> (n: usize)
        ensures
            n == self@.len(),
    {
        self.entries.len()
    }

    /// Add one hit candidate. A candidate whose time is not a positive hit
    /// time is silently discarded; one that is enters at its place in the
    /// time order.
    pub fn insert(&mut self, x: Intersection)
        requires
            old(self).wf(),
        ensures
            final(self).wf(),
            is_hit_time(x.time) ==> final(self)@.to_multiset() == old(self)@.to_multiset().insert(
                x,
            ),
            !is_hit_time(x.time) ==> final(self)@ == old(self)@,
    {
        if 0 < x.time && x.time <= INFINITY_BITS {
            let mut i: usize = 0;
            while i < self.entries.len() && self.entries[i].time < x.time
                invariant
                    self.entries@ == old(self)@,
                    old(self).wf(),
                    i <= self.entries@.len(),
                    forall|k: int| 0 <= k < i ==> #[trigger] self.entries@[k].time < x.time,
                decreases self.entries@.len() - i,
            {
                i += 1;
            }
            assert forall|k: int|
                i <= k < self.entries@.len() implies x.time <= #[trigger] self.entries@[k].time by {
                assert(self.entries@[i as int].time <= self.entries@[k].time);
            }
            self.entries.insert(i, x);
            proof {
                broadcast use to_multiset_insert;

                old(self)@.insert_ensures(i as int, x);
                let new = self.entries@;
                assert forall|p: int, q: int|
                    0 <= p <= q < new.len() implies #[trigger] new[p].time
                    <= #[trigger] new[q].time by {
                    if p < i && q < i {
                        assert(new[p] == old(self)@[p] && new[q] == old(self)@[q]);
                    } else if p < i && q == i {
                        assert(new[p] == old(self)@[p]);
                    } else if p < i && q > i {
                        assert(new[p] == old(self)@[p] && new[q] == old(self)@[q - 1]);
                        assert(old(self)@[p].time <= old(self)@[q - 1].time);
                    } else if p == i && q > i {
                        assert(new[q] == old(self)@[q - 1]);
                    } else if p > i && q > i {
                        assert(new[p] == old(self)@[p - 1] && new[q] == old(self)@[q - 1]);
                        assert(old(self)@[p - 1].time <= old(self)@[q - 1].time);
                    }
                }
                assert forall|k: int| 0 <= k < new.len() implies is_hit_time(
                    #[trigger] new[k].time,
                ) by {
                    if k < i {
                        assert(new[k] == old(self)@[k]);
                    } else if k > i {
                        assert(new[k] == old(self)@[k - 1]);
                    }
                }
            }
        }
    }

    /// The nearest hit, without removing it: the retained entry with the
    /// smallest time, or `None` if no hit was retained.
    pub fn closest(&self) -> (r: Option<Intersection>)
        requires
            self.wf(),
        ensures
            match r {
                Some(x) => {
                    &&& self@.len() > 0
                    &&& x == self@[0]
                    &&& forall|k: int|
                        0 <= k < self@.len() ==> x.time <= #[trigger] self@[k].time
                },
                None => self@.len() == 0,
            },
    {
        if self.entries.len() > 0 {
            Some(self.entries[0])
        } else {
            None
        }
    }

    /// Remove and return the nearest hit, or `None` if no hit was retained.
    pub fn pop(&mut self) -> (r: Option<Intersection>)
        requires
            old(self).wf(),
        ensures
            final(self).wf(),
            match r {
                Some(x) => {
                    &&& old(self)@.len() > 0
                    &&& x == old(self)@[0]
                    &&& final(self)@ == old(self)@.drop_first()
                    &&& forall|k: int|
                        0 <= k < old(self)@.len() ==> x.time <= #[trigger] old(self)@[k].time
                },
                None => {
                    &&& old(self)@.len() == 0
                    &&& final(self)@ == old(self)@
                },
            },
    {
        if self.entries.len() > 0 {
            let x = self.entries.remove(0);
            proof {
                assert(final(self)@ =~= old(self)@.drop_first());
            }
            Some(x)
        } else {
            None
        }
    }

    /// Gather a whole candidate list: exactly the candidates with positive
    /// hit times are retained, in time order.
    pub fn with(list: Vec<Intersection>) -> (r: Intersections)
        ensures
            r.wf(),
            r@.to_multiset() == retained(list@).to_multiset(),
            r@.len() == retained(list@).len(),
    {
        let mut r = Intersections::new();
        proof {
            assert(list@.take(0) =~= Seq::<Intersection>::empty());
        }
        let mut i: usize = 0;
        while i < list.len()
            invariant
                i <= list@.len(),
                r.wf(),
                r@.to_multiset() == retained(list@.take(i as int)).to_multiset(),
            decreases list@.len() - i,
        {
            let x = list[i];
            r.insert(x);
            proof {
                broadcast use to_multiset_build;

                assert(list@.take(i + 1).drop_last() =~= list@.take(i as int));
                assert(list@.take(i + 1).last() == list@[i as int]);
            }
            i += 1;
        }
        proof {
            assert(list@.take(list@.len() as int) =~= list@);
            r@.to_multiset_ensures();
            retained(list@).to_multiset_ensures();
        }
        r
    }
}

/// Law: an intersection collection never retains an entry whose time is at
/// or behind the ray's origin; every retained time key is a positive hit
/// time.
pub proof fn lemma_retains_only_hit_times(s: Intersections, k: int)
    requires
        s.wf(),
        0 <= k < s@.len(),
    ensures
        is_hit_time(s@[k].time),
{
}

/// Law: a candidate list none of whose entries has a positive hit time
/// retains nothing, so a collection gathered from it is empty and `closest`
/// on it returns `None`.
pub proof fn lemma_no_hit_times_no_hits(s: Intersections, list: Seq<Intersection>)
    requires
        s@.to_multiset() == retained(list).to_multiset(),
        forall|k: int| 0 <= k < list.len() ==> !is_hit_time(#[trigger] list[k].time),
    ensures
        s@.len() == 0,
{
    lemma_all_discarded_retains_nothing(list);
    s@.to_multiset_ensures();
    retained(list).to_multiset_ensures();
}

/// A candidate list with no positive hit time retains nothing.
proof fn lemma_all_discarded_retains_nothing(list: Seq<Intersection>)
    requires
        forall|k: int| 0 <= k < list.len() ==> !is_hit_time(#[trigger] list[k].time),
    ensures
        retained(list).len() == 0,
    decreases list.len(),
{
    if list.len() > 0 {
        lemma_all_discarded_retains_nothing(list.drop_last());
    }
}

} // verus!
