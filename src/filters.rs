//! Sliding-window median and mean filters over `i32` samples.
use vstd::prelude::*;
use vstd::relations::{sorted_by, total_ordering};
use vstd::seq_lib::lemma_sorted_unique;

verus! {

/// Largest window length that either filter accepts.
pub const MAX_WINDOW: usize = 8;

/// The order by which a median window is sorted.
pub open spec fn le_i32() -> spec_fn(i32, i32) -> bool {
    |a: i32, b: i32| a <= b
}

/// The window after `v` arrives: `v` is appended and, once more than `n`
/// samples are held, the oldest one is evicted.
pub open spec fn slide(w: Seq<i32>, v: i32, n: nat) -> Seq<i32> {
    let p = w.push(v);
    if p.len() > n {
        p.drop_first()
    } else {
        p
    }
}

/// The median of a window: its middle element once sorted (the upper one
/// of the two middle elements for an even number of samples).
pub open spec fn median_of(w: Seq<i32>) -> i32 {
    w.sort_by(le_i32())[w.len() as int / 2]
}

/// Sum of a window.
pub open spec fn sum_of(w: Seq<i32>) -> int
    decreases w.len(),
{
    if w.len() == 0 {
        0
    } else {
        sum_of(w.drop_last()) + w.last()
    }
}

/// Integer division rounding toward zero, as Rust's `/` on signed integers does.
pub open spec fn div_trunc(n: int, d: int) -> int {
    let an = if n >= 0 { n } else { -n };
    let ad = if d >= 0 { d } else { -d };
    if (n >= 0) == (d > 0) {
        an / ad
    } else {
        -(an / ad)
    }
}

/// The arithmetic mean of a window, truncated toward zero.
pub open spec fn mean_of(w: Seq<i32>) -> int {
    div_trunc(sum_of(w), w.len() as int)
}

/// Every sample of `w` lies in `lo..=hi`.
pub open spec fn within(w: Seq<i32>, lo: int, hi: int) -> bool {
    forall|i: int| 0 <= i < w.len() ==> lo <= #[trigger] w[i] <= hi
}

pub proof fn lemma_le_i32_total()
    ensures
        total_ordering(le_i32()),
{
    assert forall|a: i32, b: i32, c: i32|
        #[trigger] le_i32()(a, b) && #[trigger] le_i32()(b, c) implies le_i32()(a, c) by {}
}

/// The median of a non-empty window is one of its samples.
pub proof fn lemma_median_in_window(w: Seq<i32>)
    requires
        w.len() > 0,
    ensures
        w.contains(median_of(w)),
{
    lemma_le_i32_total();
    w.lemma_sort_by_ensures(le_i32());
    let s = w.sort_by(le_i32());
    assert(s.to_multiset().len() == w.to_multiset().len());
    s.to_multiset_ensures();
    w.to_multiset_ensures();
    assert(s.contains(s[w.len() as int / 2]));
}

/// Samples that lie in a range keep their median in it.
pub proof fn lemma_median_within(w: Seq<i32>, lo: int, hi: int)
    requires
        w.len() > 0,
        within(w, lo, hi),
    ensures
        lo <= median_of(w) <= hi,
{
    lemma_median_in_window(w);
}

proof fn lemma_sum_bounds(w: Seq<i32>, lo: int, hi: int)
    requires
        within(w, lo, hi),
    ensures
        w.len() * lo <= sum_of(w) <= w.len() * hi,
    decreases w.len(),
{
    if w.len() > 0 {
        let d = w.drop_last();
        assert(within(d, lo, hi)) by {
            assert forall|i: int| 0 <= i < d.len() implies lo <= #[trigger] d[i] <= hi by {
                assert(d[i] == w[i]);
            }
        }
        lemma_sum_bounds(d, lo, hi);
        assert(lo <= w.last() <= hi) by {
            assert(w.last() == w[w.len() - 1]);
        }
        assert(w.len() * lo == d.len() * lo + lo) by (nonlinear_arith)
            requires w.len() == d.len() + 1;
        assert(w.len() * hi == d.len() * hi + hi) by (nonlinear_arith)
            requires w.len() == d.len() + 1;
    } else {
        assert(w.len() * lo == 0 && w.len() * hi == 0) by (nonlinear_arith)
            requires w.len() == 0;
    }
}

pub proof fn lemma_div_floor_bounds(s: int, n: int, lo: int, hi: int)
    requires
        n > 0,
        n * lo <= s <= n * hi,
    ensures
        lo <= s / n <= hi,
{
    vstd::arithmetic::div_mod::lemma_div_is_ordered(n * lo, s, n);
    vstd::arithmetic::div_mod::lemma_div_is_ordered(s, n * hi, n);
    vstd::arithmetic::div_mod::lemma_div_multiples_vanish(lo, n);
    vstd::arithmetic::div_mod::lemma_div_multiples_vanish(hi, n);
}

/// Samples that lie in a range keep their mean in it.
pub proof fn lemma_mean_within(w: Seq<i32>, lo: int, hi: int)
    requires
        w.len() > 0,
        within(w, lo, hi),
    ensures
        lo <= mean_of(w) <= hi,
{
    let n = w.len() as int;
    let s = sum_of(w);
    lemma_sum_bounds(w, lo, hi);
    if s >= 0 {
        assert(n * lo <= s && s <= n * hi);
        if lo <= 0 {
            lemma_div_floor_bounds(s, n, 0, hi);
        } else {
            lemma_div_floor_bounds(s, n, lo, hi);
        }
    } else {
        let ns = -s;
        assert(n * (-hi) <= ns <= n * (-lo)) by (nonlinear_arith)
            requires n * lo <= s <= n * hi, ns == -s;
        if hi >= 0 {
            lemma_div_floor_bounds(ns, n, 0, -lo);
        } else {
            lemma_div_floor_bounds(ns, n, -hi, -lo);
        }
    }
}

/// Sorts a copy of a window.
fn sorted_copy(w: &Vec<i32>) -> (r: Vec<i32>)
    ensures
        r@ == w@.sort_by(le_i32()),
        r@.len() == w@.len(),
{
    let mut r: Vec<i32> = Vec::new();
    let mut i: usize = 0;
    assert(w@.take(0) =~= r@);
    while i < w.len()
        invariant
            i <= w.len(),
            sorted_by(r@, le_i32()),
            r@.to_multiset() == w@.take(i as int).to_multiset(),
        decreases w.len() - i,
    {
        let v = w[i];
        let mut j: usize = 0;
        while j < r.len() && r[j] <= v
            invariant
                j <= r.len(),
                forall|k: int| 0 <= k < j ==> r@[k] <= v,
            decreases r.len() - j,
        {
            j += 1;
        }
        let ghost before = r@;
        r.insert(j, v);
        proof {
            assert forall|a: int, b: int| 0 <= a < b < r@.len() implies #[trigger] le_i32()(
                r@[a],
                r@[b],
            ) by {
                if b < j {
                    assert(le_i32()(before[a], before[b]));
                } else if b == j {
                    assert(r@[a] == before[a]);
                } else if a == j {
                    assert(j < before.len());
                    assert(!(before[j as int] <= v));
                    if b - 1 > j {
                        assert(le_i32()(before[j as int], before[b - 1]));
                    }
                } else if a < j {
                    assert(before[a] <= v);
                    assert(j < before.len());
                    assert(le_i32()(before[a], before[b - 1]));
                } else {
                    assert(le_i32()(before[a - 1], before[b - 1]));
                }
            }
            vstd::seq_lib::to_multiset_insert(before, j as int, v);
            assert(w@.take(i as int + 1) =~= w@.take(i as int).push(v));
            vstd::seq_lib::to_multiset_build(w@.take(i as int), v);
        }
        i += 1;
    }
    proof {
        assert(w@.take(w@.len() as int) =~= w@);
        lemma_le_i32_total();
        w@.lemma_sort_by_ensures(le_i32());
        lemma_sorted_unique(r@, w@.sort_by(le_i32()), le_i32());
        vstd::seq_lib::to_multiset_len(r@);
        vstd::seq_lib::to_multiset_len(w@);
    }
    r
}

/// Median filter over the most recent samples: rejects single-sample spikes.
pub struct Median {
    window: Vec<i32>,
    len: usize,
}

impl Median {
    /// The samples held, oldest first.
    pub closed spec fn samples(&self) -> Seq<i32> {
        self.window@
    }

    /// How many samples the window holds at most.
    pub closed spec fn capacity(&self) -> nat {
        self.len as nat
    }

    pub closed spec fn wf(&self) -> bool {
        1 <= self.len <= MAX_WINDOW && self.window@.len() <= self.len
    }

    /// An empty filter whose window holds `len` samples.
    pub fn new(len: usize) -> (r: Median)
        requires
            1 <= len <= MAX_WINDOW,
        ensures
            r.wf(),
            r.samples() == Seq::<i32>::empty(),
            r.capacity() == len,
    {
        Median { window: Vec::new(), len }
    }

    /// Takes in a sample and returns the median of the window that then holds.
    pub fn update(&mut self, v: i32) -> (r: i32)
        requires
            old(self).wf(),
        ensures
            final(self).wf(),
            final(self).capacity() == old(self).capacity(),
            final(self).samples() == slide(old(self).samples(), v, old(self).capacity()),
            r == median_of(final(self).samples()),
    {
        self.window.push(v);
        if self.window.len() > self.len {
            self.window.remove(0);
            assert(self.window@ =~= slide(old(self).samples(), v, old(self).capacity()));
        }
        let sorted = sorted_copy(&self.window);
        sorted[self.window.len() / 2]
    }

    /// Discards every sample held.
    pub fn clear(&mut self)
        requires
            old(self).wf(),
        ensures
            final(self).wf(),
            final(self).capacity() == old(self).capacity(),
            final(self).samples() == Seq::<i32>::empty(),
    {
        self.window.clear();
    }
}

/// Moving-average filter over the most recent samples: smooths residual jitter.
pub struct Mean {
    window: Vec<i32>,
    len: usize,
}

impl Mean {
    /// The samples held, oldest first.
    pub closed spec fn samples(&self) -> Seq<i32> {
        self.window@
    }

    /// How many samples the window holds at most.
    pub closed spec fn capacity(&self) -> nat {
        self.len as nat
    }

    pub closed spec fn wf(&self) -> bool {
        1 <= self.len <= MAX_WINDOW && self.window@.len() <= self.len
    }

    /// An empty filter whose window holds `len` samples.
    pub fn new(len: usize) -> (r: Mean)
        requires
            1 <= len <= MAX_WINDOW,
        ensures
            r.wf(),
            r.samples() == Seq::<i32>::empty(),
            r.capacity() == len,
    {
        Mean { window: Vec::new(), len }
    }

    /// Takes in a sample and returns the mean of the window that then holds,
    /// truncated toward zero.
    pub fn update(&mut self, v: i32) -> (r: i32)
        requires
            old(self).wf(),
        ensures
            final(self).wf(),
            final(self).capacity() == old(self).capacity(),
            final(self).samples() == slide(old(self).samples(), v, old(self).capacity()),
            r as int == mean_of(final(self).samples()),
    {
        self.window.push(v);
        if self.window.len() > self.len {
            self.window.remove(0);
            assert(self.window@ =~= slide(old(self).samples(), v, old(self).capacity()));
        }
        let n = self.window.len();
        let mut acc: i64 = 0;
        let mut i: usize = 0;
        while i < n
            invariant
                n == self.window@.len(),
                1 <= n <= MAX_WINDOW,
                i <= n,
                acc as int == sum_of(self.window@.take(i as int)),
                i * i32::MIN <= acc <= i * i32::MAX,
            decreases n - i,
        {
            proof {
                let t = self.window@.take(i as int + 1);
                assert(t.drop_last() =~= self.window@.take(i as int));
                assert(t.last() == self.window@[i as int]);
            }
            acc = acc + self.window[i] as i64;
            i += 1;
        }
        assert(self.window@.take(n as int) =~= self.window@);
        proof {
            assert(within(self.window@, i32::MIN as int, i32::MAX as int));
            lemma_mean_within(self.window@, i32::MIN as int, i32::MAX as int);
        }
        let mag: u64 = if acc >= 0 {
            acc as u64
        } else {
            (-acc) as u64
        };
        let q: u64 = mag / (n as u64);
        if acc >= 0 {
            q as i32
        } else {
            -(q as i64) as i32
        }
    }

    /// Discards every sample held.
    pub fn clear(&mut self)
        requires
            old(self).wf(),
        ensures
            final(self).wf(),
            final(self).capacity() == old(self).capacity(),
            final(self).samples() == Seq::<i32>::empty(),
    {
        self.window.clear();
    }
}

} // verus!
