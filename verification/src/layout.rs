//! The layout engine: a rectangle and an ordered list of axis constraints
//! are turned into the ordered sub-rectangles that partition the rectangle
//! along one axis. Fixed, minimum, maximum, percentage and ratio demands
//! are served first, clipped left to right when the rectangle is too small;
//! the space left over is then distributed over the flexible constraints
//! (fills by weight, minimums growing without bound, maximums up to their
//! cap), so that with any flexible constraint present the pieces tile the
//! rectangle exactly.

use vstd::prelude::*;
use vstd::arithmetic::div_mod::{lemma_div_pos_is_pos, lemma_div_nonincreasing};

verus! {

/// A rectangle of character cells.
#[derive(PartialEq, Eq, Structural, Clone, Copy, Debug)]
pub struct Rect {
    pub x: u16,
    pub y: u16,
    pub width: u16,
    pub height: u16,
}

impl Rect {
    /// The far edges stay representable.
    pub open spec fn wf(&self) -> bool {
        self.x + self.width <= u16::MAX && self.y + self.height <= u16::MAX
    }
}

/// One demand on the size of a piece along the split axis.
#[derive(PartialEq, Eq, Structural, Clone, Copy, Debug)]
pub enum Constraint {
    /// Exactly this many cells.
    Length(u16),
    /// At least this many cells; grows to absorb leftover space.
    Min(u16),
    /// At most this many cells, grown from zero out of leftover space.
    Max(u16),
    /// This percentage of the whole extent, clamped to one hundred.
    Percentage(u16),
    /// This fraction of the whole extent, capped at the whole.
    Ratio(u32, u32),
    /// A share of the leftover space, proportional to the weight.
    Fill(u16),
}

/// The axis along which a rectangle is split.
#[derive(PartialEq, Eq, Structural, Clone, Copy, Debug)]
pub enum Direction {
    Horizontal,
    Vertical,
}

/// The smaller of two integers.
pub open spec fn min_i(a: int, b: int) -> int {
    if a <= b {
        a
    } else {
        b
    }
}

/// The sum of a sequence of integers.
pub open spec fn seq_sum(s: Seq<int>) -> int
    decreases s.len(),
{
    if s.len() == 0 {
        0
    } else {
        s[0] + seq_sum(s.subrange(1, s.len() as int))
    }
}

/// The space a constraint demands up front, before leftover distribution.
pub open spec fn base_size(c: Constraint, total: int) -> int {
    match c {
        Constraint::Length(l) => l as int,
        Constraint::Min(m) => m as int,
        Constraint::Max(_) => 0,
        Constraint::Percentage(p) => total * min_i(p as int, 100) / 100,
        Constraint::Ratio(n, d) => if d == 0 {
            0
        } else {
            min_i(total * (n as int) / (d as int), total)
        },
        Constraint::Fill(_) => 0,
    }
}

/// The up-front allocation of each constraint, served left to right and
/// clipped to the space still available.
pub open spec fn base_allocs(cs: Seq<Constraint>, total: int, avail: int) -> Seq<int>
    decreases cs.len(),
{
    if cs.len() == 0 {
        Seq::empty()
    } else {
        let a = min_i(base_size(cs[0], total), avail);
        seq![a] + base_allocs(cs.subrange(1, cs.len() as int), total, avail - a)
    }
}

/// The weight with which a constraint takes part in leftover distribution.
pub open spec fn grow_weight(c: Constraint) -> int {
    match c {
        Constraint::Fill(w) => w as int,
        Constraint::Min(_) => 1,
        _ => 0,
    }
}

/// The summed grow weight of a constraint list.
pub open spec fn total_weight(cs: Seq<Constraint>) -> int
    decreases cs.len(),
{
    if cs.len() == 0 {
        0
    } else {
        grow_weight(cs[0]) + total_weight(cs.subrange(1, cs.len() as int))
    }
}

/// The leftover space granted to each constraint: a maximum takes greedily
/// up to its cap, and the weighted growers divide the pool proportionally,
/// the running division leaving no remainder behind the last grower.
pub open spec fn extras(cs: Seq<Constraint>, pool: int, weight: int) -> Seq<int>
    decreases cs.len(),
{
    if cs.len() == 0 {
        Seq::empty()
    } else {
        let e = match cs[0] {
            Constraint::Max(x) => min_i(x as int, pool),
            Constraint::Fill(w) => if weight <= 0 {
                0
            } else {
                min_i(pool * (w as int) / weight, pool)
            },
            Constraint::Min(_) => if weight <= 0 {
                0
            } else {
                min_i(pool / weight, pool)
            },
            _ => 0,
        };
        seq![e] + extras(cs.subrange(1, cs.len() as int), pool - e, weight - grow_weight(cs[0]))
    }
}

/// The size of each piece a constraint list cuts out of `total` cells.
pub open spec fn split_sizes(cs: Seq<Constraint>, total: int) -> Seq<int> {
    let base = base_allocs(cs, total, total);
    let pool = total - seq_sum(base);
    let ext = extras(cs, pool, total_weight(cs));
    Seq::new(cs.len(), |i: int| base[i] + ext[i])
}

/// A base demand is never negative.
pub proof fn lemma_base_size_nonneg(c: Constraint, total: int)
    requires
        total >= 0,
    ensures
        base_size(c, total) >= 0,
{
    match c {
        Constraint::Percentage(p) => {
            assert(total * min_i(p as int, 100) >= 0) by (nonlinear_arith)
                requires
                    total >= 0,
            ;
            lemma_div_pos_is_pos(total * min_i(p as int, 100), 100);
        },
        Constraint::Ratio(n, d) => {
            if d != 0 {
                assert(total * (n as int) >= 0) by (nonlinear_arith)
                    requires
                        total >= 0,
                ;
                lemma_div_pos_is_pos(total * (n as int), d as int);
            }
        },
        _ => {},
    }
}

/// Up-front allocations are never negative, never exceed the space, and
/// leave a non-negative remainder.
pub proof fn lemma_base_allocs_bounds(cs: Seq<Constraint>, total: int, avail: int)
    requires
        total >= 0,
        avail >= 0,
    ensures
        base_allocs(cs, total, avail).len() == cs.len(),
        forall|i: int|
            0 <= i < cs.len() ==> 0 <= #[trigger] base_allocs(cs, total, avail)[i] <= avail,
        0 <= seq_sum(base_allocs(cs, total, avail)) <= avail,
    decreases cs.len(),
{
    if cs.len() == 0 {
    } else {
        let a = min_i(base_size(cs[0], total), avail);
        lemma_base_size_nonneg(cs[0], total);
        let tail = cs.subrange(1, cs.len() as int);
        lemma_base_allocs_bounds(tail, total, avail - a);
        let b = base_allocs(cs, total, avail);
        let bt = base_allocs(tail, total, avail - a);
        assert(b =~= seq![a] + bt);
        assert(b.subrange(1, b.len() as int) =~= bt);
        assert(seq_sum(b) == a + seq_sum(bt));
    }
}

/// Grow weights sum to something non-negative.
pub proof fn lemma_total_weight_nonneg(cs: Seq<Constraint>)
    ensures
        total_weight(cs) >= 0,
    decreases cs.len(),
{
    if cs.len() > 0 {
        lemma_total_weight_nonneg(cs.subrange(1, cs.len() as int));
    }
}

/// Leftover grants are never negative, fit in the pool piece by piece and
/// in sum, and with a positive total weight the whole pool is handed out.
pub proof fn lemma_extras_bounds(cs: Seq<Constraint>, pool: int)
    requires
        pool >= 0,
    ensures
        extras(cs, pool, total_weight(cs)).len() == cs.len(),
        forall|i: int|
            0 <= i < cs.len() ==> 0 <= #[trigger] extras(cs, pool, total_weight(cs))[i] <= pool,
        0 <= seq_sum(extras(cs, pool, total_weight(cs))) <= pool,
        total_weight(cs) > 0 ==> seq_sum(extras(cs, pool, total_weight(cs))) == pool,
    decreases cs.len(),
{
    if cs.len() == 0 {
    } else {
        let weight = total_weight(cs);
        let tail = cs.subrange(1, cs.len() as int);
        lemma_total_weight_nonneg(tail);
        lemma_total_weight_nonneg(cs);
        let e = match cs[0] {
            Constraint::Max(x) => min_i(x as int, pool),
            Constraint::Fill(w) => if weight <= 0 {
                0
            } else {
                min_i(pool * (w as int) / weight, pool)
            },
            Constraint::Min(_) => if weight <= 0 {
                0
            } else {
                min_i(pool / weight, pool)
            },
            _ => 0,
        };
        match cs[0] {
            Constraint::Fill(w) => {
                if weight > 0 {
                    assert(pool * (w as int) >= 0) by (nonlinear_arith)
                        requires
                            pool >= 0,
                    ;
                    lemma_div_pos_is_pos(pool * (w as int), weight);
                }
            },
            Constraint::Min(_) => {
                if weight > 0 {
                    lemma_div_pos_is_pos(pool, weight);
                }
            },
            _ => {},
        }
        assert(0 <= e <= pool);
        lemma_extras_bounds(tail, pool - e);
        let ex = extras(cs, pool, weight);
        let et = extras(tail, pool - e, weight - grow_weight(cs[0]));
        assert(weight - grow_weight(cs[0]) == total_weight(tail));
        assert(ex =~= seq![e] + et);
        assert(ex.subrange(1, ex.len() as int) =~= et);
        assert(seq_sum(ex) == e + seq_sum(et));
        if weight > 0 {
            if total_weight(tail) > 0 {
                assert(seq_sum(et) == pool - e);
            } else {
                // the head is the last grower, so it drains the pool
                match cs[0] {
                    Constraint::Fill(w) => {
                        if w as int == weight {
                            assert(pool * (w as int) / weight == pool) by (nonlinear_arith)
                                requires
                                    weight > 0,
                                    w as int == weight,
                                    pool >= 0,
                            ;
                        } else {
                            assert(grow_weight(cs[0]) + total_weight(tail) == weight);
                            assert(w as int == weight);
                        }
                    },
                    Constraint::Min(_) => {
                        assert(weight == 1);
                        assert(pool / 1 == pool);
                    },
                    Constraint::Max(_) => {
                        assert(grow_weight(cs[0]) == 0);
                        assert(total_weight(tail) == weight);
                        assert(false);
                    },
                    _ => {
                        assert(grow_weight(cs[0]) == 0);
                        assert(false);
                    },
                }
                assert(e == pool);
                assert(seq_sum(et) == 0);
            }
        }
    }
}

/// Piece sizes are non-negative, bounded by the whole, and sum to at most
/// the whole — exactly the whole as soon as any flexible constraint is
/// present.
pub proof fn lemma_split_sizes_bounds(cs: Seq<Constraint>, total: int)
    requires
        total >= 0,
    ensures
        split_sizes(cs, total).len() == cs.len(),
        forall|i: int| 0 <= i < cs.len() ==> 0 <= #[trigger] split_sizes(cs, total)[i] <= total,
        0 <= seq_sum(split_sizes(cs, total)) <= total,
        total_weight(cs) > 0 ==> seq_sum(split_sizes(cs, total)) == total,
{
    let base = base_allocs(cs, total, total);
    lemma_base_allocs_bounds(cs, total, total);
    let pool = total - seq_sum(base);
    lemma_extras_bounds(cs, pool);
    let ext = extras(cs, pool, total_weight(cs));
    let sizes = split_sizes(cs, total);
    lemma_seq_sum_pointwise(base, ext);
    assert(sizes == Seq::new(cs.len(), |i: int| base[i] + ext[i]));
    assert(seq_sum(sizes) == seq_sum(base) + seq_sum(ext));
    lemma_seq_sum_elem_bound(base);
    assert forall|i: int| 0 <= i < cs.len() implies 0 <= #[trigger] sizes[i] <= total by {
        assert(base[i] <= seq_sum(base));
        assert(ext[i] <= pool);
    }
}

/// Summation distributes over a pointwise sum.
pub proof fn lemma_seq_sum_pointwise(a: Seq<int>, b: Seq<int>)
    requires
        a.len() == b.len(),
    ensures
        seq_sum(Seq::new(a.len(), |i: int| a[i] + b[i])) == seq_sum(a) + seq_sum(b),
    decreases a.len(),
{
    if a.len() == 0 {
    } else {
        let z = Seq::new(a.len(), |i: int| a[i] + b[i]);
        let at = a.subrange(1, a.len() as int);
        let bt = b.subrange(1, b.len() as int);
        lemma_seq_sum_pointwise(at, bt);
        assert(z.subrange(1, z.len() as int) =~= Seq::new(at.len(), |i: int| at[i] + bt[i]));
        assert(seq_sum(z) == z[0] + seq_sum(z.subrange(1, z.len() as int)));
    }
}

/// In a sequence of non-negative integers, each element is at most the sum.
pub proof fn lemma_seq_sum_elem_bound(s: Seq<int>)
    requires
        forall|i: int| 0 <= i < s.len() ==> s[i] >= 0,
    ensures
        seq_sum(s) >= 0,
        forall|i: int| 0 <= i < s.len() ==> #[trigger] s[i] <= seq_sum(s),
    decreases s.len(),
{
    if s.len() == 0 {
    } else {
        let t = s.subrange(1, s.len() as int);
        lemma_seq_sum_elem_bound(t);
        assert forall|i: int| 0 <= i < s.len() implies #[trigger] s[i] <= seq_sum(s) by {
            if i >= 1 {
                assert(s[i] == t[i - 1]);
                assert(t[i - 1] <= seq_sum(t));
            }
        }
    }
}

/// The sizes the constraint list cuts out of `total` cells, as `split_sizes`
/// prescribes them.
pub fn split_lengths(cs: &Vec<Constraint>, total: u16) -> (r: Vec<u16>)
    ensures
        r@.len() == cs@.len(),
        forall|i: int|
            0 <= i < r@.len() ==> #[trigger] r@[i] as int == split_sizes(cs@, total as int)[i],
{
    let n = cs.len();
    let ghost ti = total as int;

    // first pass: the up-front allocations, clipped to what is left
    let mut base: Vec<u16> = Vec::new();
    let mut avail: u16 = total;
    let mut k: usize = 0;
    proof {
        assert(cs@.subrange(0, n as int) =~= cs@);
        assert(base@.map_values(|u: u16| u as int) =~= Seq::<int>::empty());
        assert(Seq::<int>::empty() + base_allocs(cs@, ti, ti) =~= base_allocs(cs@, ti, ti));
    }
    while k < n
        invariant
            k <= n,
            n == cs@.len(),
            ti == total as int,
            base@.len() == k,
            avail <= total,
            avail as int == ti - seq_sum(base@.map_values(|u: u16| u as int)),
            base_allocs(cs@, ti, ti) == base@.map_values(|u: u16| u as int) + base_allocs(
                cs@.subrange(k as int, n as int),
                ti,
                avail as int,
            ),
        decreases n - k,
    {
        let ghost suffix = cs@.subrange(k as int, n as int);
        let c = cs[k];
        let bs: u16 = match c {
            Constraint::Length(l) => if l <= avail {
                l
            } else {
                avail
            },
            Constraint::Min(m) => if m <= avail {
                m
            } else {
                avail
            },
            Constraint::Max(_) => 0,
            Constraint::Percentage(p) => {
                let p2: u16 = if p <= 100 {
                    p
                } else {
                    100
                };
                assert((total as int) * (p2 as int) <= 6553500) by (nonlinear_arith)
                    requires
                        total <= 65535,
                        p2 <= 100,
                ;
                let q: u32 = (total as u32) * (p2 as u32) / 100;
                if q <= avail as u32 {
                    q as u16
                } else {
                    avail
                }
            },
            Constraint::Ratio(nn, dd) => {
                if dd == 0 {
                    0
                } else {
                    assert((total as int) * (nn as int) < 0x1000000000000) by (nonlinear_arith)
                        requires
                            total <= 65535,
                            nn <= 0xffffffffu32,
                    ;
                    let q: u64 = (total as u64) * (nn as u64) / (dd as u64);
                    if q <= avail as u64 {
                        q as u16
                    } else {
                        avail
                    }
                }
            },
            Constraint::Fill(_) => 0,
        };
        proof {
            lemma_base_size_nonneg(c, ti);
            assert(bs as int == min_i(base_size(c, ti), avail as int));
            assert(suffix[0] == c);
            assert(suffix.subrange(1, suffix.len() as int) =~= cs@.subrange(k + 1, n as int));
            assert(base_allocs(suffix, ti, avail as int) == seq![bs as int] + base_allocs(
                cs@.subrange(k + 1, n as int),
                ti,
                avail as int - bs as int,
            ));
        }
        let ghost pref = base@.map_values(|u: u16| u as int);
        base.push(bs);
        avail = avail - bs;
        proof {
            assert(base@.map_values(|u: u16| u as int) =~= pref.push(bs as int));
            lemma_seq_sum_push(pref, bs as int);
            assert((pref + (seq![bs as int] + base_allocs(
                cs@.subrange(k + 1, n as int),
                ti,
                avail as int,
            ))) =~= (pref.push(bs as int) + base_allocs(
                cs@.subrange(k + 1, n as int),
                ti,
                avail as int,
            )));
        }
        k = k + 1;
    }
    proof {
        assert(cs@.subrange(n as int, n as int) =~= Seq::<Constraint>::empty());
        assert(base@.map_values(|u: u16| u as int) + base_allocs(
            Seq::<Constraint>::empty(),
            ti,
            avail as int,
        ) =~= base@.map_values(|u: u16| u as int));
        assert(base@.map_values(|u: u16| u as int) == base_allocs(cs@, ti, ti));
        lemma_base_allocs_bounds(cs@, ti, ti);
    }

    // second pass: the summed grow weight, taken from the back so that the
    // running value is always the weight of the untouched suffix
    let mut wsum: u128 = 0;
    let mut k2: usize = n;
    while k2 > 0
        invariant
            k2 <= n,
            n == cs@.len(),
            wsum as int == total_weight(cs@.subrange(k2 as int, n as int)),
            wsum as int <= 0xffff * ((n - k2) as int),
        decreases k2,
    {
        proof {
            assert(cs@.subrange(k2 as int, n as int).len() == n - k2);
        }
        k2 = k2 - 1;
        let gw: u16 = match cs[k2] {
            Constraint::Fill(w) => w,
            Constraint::Min(_) => 1,
            _ => 0,
        };
        proof {
            let suf = cs@.subrange(k2 as int, n as int);
            assert(suf[0] == cs@[k2 as int]);
            assert(suf.subrange(1, suf.len() as int) =~= cs@.subrange(k2 + 1, n as int));
            assert(gw as int == grow_weight(cs@[k2 as int]));
        }
        wsum = wsum + gw as u128;
    }
    proof {
        assert(cs@.subrange(0, n as int) =~= cs@);
    }

    // third pass: hand out the pool and combine
    let ghost base_ints = base@.map_values(|u: u16| u as int);
    let ghost pool0 = avail as int;
    let ghost w0 = wsum as int;
    let mut out: Vec<u16> = Vec::new();
    let mut pool: u16 = avail;
    let mut wrem: u128 = wsum;
    let mut k3: usize = 0;
    let ghost mut epref: Seq<int> = Seq::empty();
    proof {
        assert(epref + extras(cs@, pool0, w0) =~= extras(cs@, pool0, w0));
    }
    while k3 < n
        invariant
            k3 <= n,
            n == cs@.len(),
            out@.len() == k3,
            epref.len() == k3,
            pool as int <= pool0,
            base@.len() == n,
            base_ints == base@.map_values(|u: u16| u as int),
            base_ints == base_allocs(cs@, ti, ti),
            pool0 == ti - seq_sum(base_ints),
            w0 == total_weight(cs@),
            ti == total as int,
            wrem as int == total_weight(cs@.subrange(k3 as int, n as int)),
            extras(cs@, pool0, w0) == epref + extras(
                cs@.subrange(k3 as int, n as int),
                pool as int,
                wrem as int,
            ),
            forall|j: int| 0 <= j < k3 ==> #[trigger] out@[j] as int == base_ints[j] + epref[j],
        decreases n - k3,
    {
        let ghost suffix = cs@.subrange(k3 as int, n as int);
        let c = cs[k3];
        let e: u16 = match c {
            Constraint::Max(x) => if x <= pool {
                x
            } else {
                pool
            },
            Constraint::Fill(w) => {
                if wrem == 0 {
                    0
                } else {
                    assert((pool as int) * (w as int) < 0x100000000) by (nonlinear_arith)
                        requires
                            pool <= 65535,
                            w <= 65535,
                    ;
                    let q: u128 = (pool as u128) * (w as u128) / wrem;
                    if q <= pool as u128 {
                        q as u16
                    } else {
                        pool
                    }
                }
            },
            Constraint::Min(_) => {
                if wrem == 0 {
                    0
                } else {
                    let q: u128 = (pool as u128) / wrem;
                    if q <= pool as u128 {
                        q as u16
                    } else {
                        pool
                    }
                }
            },
            _ => 0,
        };
        let gw: u16 = match c {
            Constraint::Fill(w) => w,
            Constraint::Min(_) => 1,
            _ => 0,
        };
        proof {
            assert(suffix[0] == c);
            assert(suffix.subrange(1, suffix.len() as int) =~= cs@.subrange(k3 + 1, n as int));
            lemma_total_weight_nonneg(cs@.subrange(k3 + 1, n as int));
            assert(gw as int == grow_weight(c));
            assert(gw as u128 <= wrem);
            assert(e as int == (match c {
                Constraint::Max(x) => min_i(x as int, pool as int),
                Constraint::Fill(w) => if wrem as int <= 0 {
                    0
                } else {
                    min_i((pool as int) * (w as int) / (wrem as int), pool as int)
                },
                Constraint::Min(_) => if wrem as int <= 0 {
                    0
                } else {
                    min_i((pool as int) / (wrem as int), pool as int)
                },
                _ => 0,
            }));
            assert(extras(suffix, pool as int, wrem as int) == seq![e as int] + extras(
                cs@.subrange(k3 + 1, n as int),
                pool as int - e as int,
                wrem as int - gw as int,
            ));
            lemma_split_sizes_bounds(cs@, ti);
            assert(extras(cs@, pool0, w0)[k3 as int] == e as int);
            assert(split_sizes(cs@, ti)[k3 as int] == base_ints[k3 as int] + e as int);
            assert(base_ints[k3 as int] == base@[k3 as int] as int);
            assert(base_ints[k3 as int] + e as int <= ti);
        }
        let size: u16 = base[k3] + e;
        out.push(size);
        pool = pool - e;
        wrem = wrem - gw as u128;
        proof {
            let ghost epref2 = epref.push(e as int);
            assert((epref + (seq![e as int] + extras(
                cs@.subrange(k3 + 1, n as int),
                pool as int,
                wrem as int,
            ))) =~= (epref2 + extras(cs@.subrange(k3 + 1, n as int), pool as int, wrem as int)));
            epref = epref2;
        }
        k3 = k3 + 1;
    }
    proof {
        assert(cs@.subrange(n as int, n as int) =~= Seq::<Constraint>::empty());
        assert(epref + extras(Seq::<Constraint>::empty(), pool as int, wrem as int) =~= epref);
        assert(epref == extras(cs@, pool0, w0));
        assert forall|i: int| 0 <= i < n implies #[trigger] out@[i] as int == split_sizes(
            cs@,
            ti,
        )[i] by {
            assert(out@[i] as int == base_ints[i] + epref[i]);
        }
    }
    out
}

/// The extent of a rectangle along the split axis.
pub open spec fn axis_extent(area: Rect, dir: Direction) -> int {
    match dir {
        Direction::Vertical => area.height as int,
        Direction::Horizontal => area.width as int,
    }
}

/// The near edge of a rectangle along the split axis.
pub open spec fn axis_start(area: Rect, dir: Direction) -> int {
    match dir {
        Direction::Vertical => area.y as int,
        Direction::Horizontal => area.x as int,
    }
}

/// One piece of a split: the full cross extent, `size` cells along the
/// axis, starting at `offset`.
pub open spec fn piece_rect(area: Rect, dir: Direction, offset: int, size: int) -> Rect {
    match dir {
        Direction::Vertical => Rect {
            x: area.x,
            y: offset as u16,
            width: area.width,
            height: size as u16,
        },
        Direction::Horizontal => Rect {
            x: offset as u16,
            y: area.y,
            width: size as u16,
            height: area.height,
        },
    }
}

/// The pieces of given sizes laid out consecutively from `offset`.
pub open spec fn placed_rects(area: Rect, dir: Direction, sizes: Seq<int>, offset: int) -> Seq<
    Rect,
>
    decreases sizes.len(),
{
    if sizes.len() == 0 {
        Seq::empty()
    } else {
        seq![piece_rect(area, dir, offset, sizes[0])] + placed_rects(
            area,
            dir,
            sizes.subrange(1, sizes.len() as int),
            offset + sizes[0],
        )
    }
}

/// The sub-rectangles a constraint list cuts out of `area` along `dir`.
pub open spec fn split_rects_spec(area: Rect, dir: Direction, cs: Seq<Constraint>) -> Seq<Rect> {
    placed_rects(area, dir, split_sizes(cs, axis_extent(area, dir)), axis_start(area, dir))
}

/// Split `area` along `dir` as the constraints prescribe. The pieces sit
/// consecutively, keep the full cross extent, and are well-formed.
pub fn split_rect(area: Rect, dir: Direction, cs: &Vec<Constraint>) -> (r: Vec<Rect>)
    requires
        area.wf(),
    ensures
        r@ == split_rects_spec(area, dir, cs@),
        r@.len() == cs@.len(),
        forall|i: int| 0 <= i < r@.len() ==> (#[trigger] r@[i]).wf(),
{
    let total: u16 = match dir {
        Direction::Vertical => area.height,
        Direction::Horizontal => area.width,
    };
    let start: u16 = match dir {
        Direction::Vertical => area.y,
        Direction::Horizontal => area.x,
    };
    let sizes = split_lengths(cs, total);
    let ghost sz = split_sizes(cs@, total as int);
    proof {
        lemma_split_sizes_bounds(cs@, total as int);
        assert(sz.subrange(0, sz.len() as int) =~= sz);
        assert(Seq::<Rect>::empty() + placed_rects(area, dir, sz, start as int) =~= placed_rects(
            area,
            dir,
            sz,
            start as int,
        ));
        lemma_seq_sum_elem_bound(sz);
    }
    let n = cs.len();
    let mut out: Vec<Rect> = Vec::new();
    let mut offset: u16 = start;
    let mut k: usize = 0;
    while k < n
        invariant
            k <= n,
            n == cs@.len(),
            area.wf(),
            total as int == axis_extent(area, dir),
            start as int == axis_start(area, dir),
            sz == split_sizes(cs@, total as int),
            sz.len() == n,
            sizes@.len() == n,
            forall|j: int| 0 <= j < n ==> #[trigger] sizes@[j] as int == sz[j],
            forall|j: int| 0 <= j < n ==> 0 <= #[trigger] sz[j] <= total,
            0 <= seq_sum(sz) <= total,
            out@.len() == k,
            offset as int + seq_sum(sz.subrange(k as int, n as int)) == start as int + seq_sum(sz),
            start + total <= u16::MAX,
            placed_rects(area, dir, sz, start as int) == out@ + placed_rects(
                area,
                dir,
                sz.subrange(k as int, n as int),
                offset as int,
            ),
            forall|j: int| 0 <= j < k ==> (#[trigger] out@[j]).wf(),
        decreases n - k,
    {
        let ghost suffix = sz.subrange(k as int, n as int);
        proof {
            assert(suffix[0] == sz[k as int]);
            assert(suffix.subrange(1, suffix.len() as int) =~= sz.subrange(k + 1, n as int));
            assert forall|j: int| 0 <= j < sz.subrange(k + 1, n as int).len() implies #[trigger] sz
                .subrange(k + 1, n as int)[j] >= 0 by {
                assert(sz.subrange(k + 1, n as int)[j] == sz[k + 1 + j]);
            }
            lemma_seq_sum_elem_bound(sz.subrange(k + 1, n as int));
            assert(seq_sum(suffix) == sz[k as int] + seq_sum(sz.subrange(k + 1, n as int)));
        }
        let size: u16 = sizes[k];
        let rect = match dir {
            Direction::Vertical => Rect { x: area.x, y: offset, width: area.width, height: size },
            Direction::Horizontal => Rect { x: offset, y: area.y, width: size, height: area.height },
        };
        proof {
            assert(rect == piece_rect(area, dir, offset as int, sz[k as int]));
            assert(rect.wf());
            assert(placed_rects(area, dir, suffix, offset as int) == seq![rect] + placed_rects(
                area,
                dir,
                sz.subrange(k + 1, n as int),
                offset as int + sz[k as int],
            ));
        }
        let ghost out0 = out@;
        out.push(rect);
        offset = offset + size;
        proof {
            assert((out0 + (seq![rect] + placed_rects(
                area,
                dir,
                sz.subrange(k + 1, n as int),
                offset as int,
            ))) =~= (out0.push(rect) + placed_rects(
                area,
                dir,
                sz.subrange(k + 1, n as int),
                offset as int,
            )));
            assert(out@ =~= out0.push(rect));
        }
        k = k + 1;
    }
    proof {
        assert(sz.subrange(n as int, n as int) =~= Seq::<int>::empty());
        assert(out@ + placed_rects(area, dir, Seq::<int>::empty(), offset as int) =~= out@);
    }
    out
}

/// The root vertical split: a fixed title row, the growing body, a fixed
/// footer row.
pub open spec fn root_constraints() -> Seq<Constraint> {
    seq![Constraint::Length(2), Constraint::Min(0), Constraint::Length(2)]
}

/// The horizontal body framing: flexible fillers centre a fixed-width
/// content column.
pub open spec fn body_frame_constraints() -> Seq<Constraint> {
    seq![Constraint::Fill(1), Constraint::Length(60), Constraint::Fill(1)]
}

/// The vertical content split: a bounded status header over bounded
/// details.
pub open spec fn body_constraints() -> Seq<Constraint> {
    seq![Constraint::Max(12), Constraint::Max(25)]
}

/// The detail columns: countries and cities, half and half.
pub open spec fn details_constraints() -> Seq<Constraint> {
    seq![Constraint::Percentage(50), Constraint::Percentage(50)]
}

/// The title bar region of the frame.
pub open spec fn title_region(area: Rect) -> Rect {
    split_rects_spec(area, Direction::Vertical, root_constraints())[0]
}

/// The body region of the frame, between title and footer.
pub open spec fn body_region(area: Rect) -> Rect {
    split_rects_spec(area, Direction::Vertical, root_constraints())[1]
}

/// The footer region of the frame.
pub open spec fn footer_region(area: Rect) -> Rect {
    split_rects_spec(area, Direction::Vertical, root_constraints())[2]
}

/// The filler to the left of the centred content column.
pub open spec fn left_filler_region(area: Rect) -> Rect {
    split_rects_spec(body_region(area), Direction::Horizontal, body_frame_constraints())[0]
}

/// The centred content column of the body.
pub open spec fn content_region(area: Rect) -> Rect {
    split_rects_spec(body_region(area), Direction::Horizontal, body_frame_constraints())[1]
}

/// The filler to the right of the centred content column.
pub open spec fn right_filler_region(area: Rect) -> Rect {
    split_rects_spec(body_region(area), Direction::Horizontal, body_frame_constraints())[2]
}

/// The status header inside the content column.
pub open spec fn header_region(area: Rect) -> Rect {
    split_rects_spec(content_region(area), Direction::Vertical, body_constraints())[0]
}

/// The details block inside the content column.
pub open spec fn details_region(area: Rect) -> Rect {
    split_rects_spec(content_region(area), Direction::Vertical, body_constraints())[1]
}

/// The country column of the details block.
pub open spec fn country_region(area: Rect) -> Rect {
    split_rects_spec(details_region(area), Direction::Horizontal, details_constraints())[0]
}

/// The city column of the details block.
pub open spec fn city_region(area: Rect) -> Rect {
    split_rects_spec(details_region(area), Direction::Horizontal, details_constraints())[1]
}

/// The named regions of one frame, all recomputed from the rectangle at
/// hand, so that a resize between frames can never leave them stale.
pub struct Ui {
    pub area: Rect,
}

impl Ui {
    /// Capture the frame rectangle.
    pub fn init(area: Rect) -> (r: Ui)
        requires
            area.wf(),
        ensures
            r.area == area,
    {
        Ui { area }
    }

    /// The root split of the frame.
    fn root_split(&self) -> (r: Vec<Rect>)
        requires
            self.area.wf(),
        ensures
            r@ == split_rects_spec(self.area, Direction::Vertical, root_constraints()),
            r@.len() == 3,
            forall|i: int| 0 <= i < r@.len() ==> (#[trigger] r@[i]).wf(),
    {
        let mut cs: Vec<Constraint> = Vec::new();
        cs.push(Constraint::Length(2));
        cs.push(Constraint::Min(0));
        cs.push(Constraint::Length(2));
        proof {
            assert(cs@ =~= root_constraints());
        }
        split_rect(self.area, Direction::Vertical, &cs)
    }

    /// The body framed between the horizontal fillers, as the ordered
    /// triple filler, content, filler.
    fn frame_split(&self) -> (r: Vec<Rect>)
        requires
            self.area.wf(),
        ensures
            r@ == split_rects_spec(body_region(self.area), Direction::Horizontal,
                body_frame_constraints()),
            r@.len() == 3,
            forall|i: int| 0 <= i < r@.len() ==> (#[trigger] r@[i]).wf(),
    {
        let root = self.root_split();
        let mut cs: Vec<Constraint> = Vec::new();
        cs.push(Constraint::Fill(1));
        cs.push(Constraint::Length(60));
        cs.push(Constraint::Fill(1));
        proof {
            assert(cs@ =~= body_frame_constraints());
        }
        split_rect(root[1], Direction::Horizontal, &cs)
    }

    /// The content column split into status header and details block.
    fn content_split(&self) -> (r: Vec<Rect>)
        requires
            self.area.wf(),
        ensures
            r@ == split_rects_spec(content_region(self.area), Direction::Vertical,
                body_constraints()),
            r@.len() == 2,
            forall|i: int| 0 <= i < r@.len() ==> (#[trigger] r@[i]).wf(),
    {
        let frame = self.frame_split();
        let mut cs: Vec<Constraint> = Vec::new();
        cs.push(Constraint::Max(12));
        cs.push(Constraint::Max(25));
        proof {
            assert(cs@ =~= body_constraints());
        }
        split_rect(frame[1], Direction::Vertical, &cs)
    }

    /// The details block split into the two place columns.
    fn details_split(&self) -> (r: Vec<Rect>)
        requires
            self.area.wf(),
        ensures
            r@ == split_rects_spec(details_region(self.area), Direction::Horizontal,
                details_constraints()),
            r@.len() == 2,
            forall|i: int| 0 <= i < r@.len() ==> (#[trigger] r@[i]).wf(),
    {
        let content = self.content_split();
        let mut cs: Vec<Constraint> = Vec::new();
        cs.push(Constraint::Percentage(50));
        cs.push(Constraint::Percentage(50));
        proof {
            assert(cs@ =~= details_constraints());
        }
        split_rect(content[1], Direction::Horizontal, &cs)
    }

    /// The title bar region.
    pub fn get_title(&self) -> (r: Rect)
        requires
            self.area.wf(),
        ensures
            r == title_region(self.area),
    {
        let v = self.root_split();
        v[0]
    }

    /// The status header region.
    pub fn get_header(&self) -> (r: Rect)
        requires
            self.area.wf(),
        ensures
            r == header_region(self.area),
            r.wf(),
    {
        let v = self.content_split();
        v[0]
    }

    /// The footer region.
    pub fn get_footer(&self) -> (r: Rect)
        requires
            self.area.wf(),
        ensures
            r == footer_region(self.area),
    {
        let v = self.root_split();
        v[2]
    }

    /// The country column.
    pub fn get_country(&self) -> (r: Rect)
        requires
            self.area.wf(),
        ensures
            r == country_region(self.area),
    {
        let v = self.details_split();
        v[0]
    }

    /// The city column.
    pub fn get_city(&self) -> (r: Rect)
        requires
            self.area.wf(),
        ensures
            r == city_region(self.area),
    {
        let v = self.details_split();
        v[1]
    }
}

/// A rectangle of the wanted size centred in `r` by flexible flanks on
/// both axes.
pub open spec fn popup_region(w: u16, h: u16, r: Rect) -> Rect {
    let row = split_rects_spec(
        r,
        Direction::Vertical,
        seq![Constraint::Fill(1), Constraint::Length(h), Constraint::Fill(1)],
    )[1];
    split_rects_spec(
        row,
        Direction::Horizontal,
        seq![Constraint::Fill(1), Constraint::Length(w), Constraint::Fill(1)],
    )[1]
}

/// The centred overlay rectangle for a popup of the wanted size.
pub fn popup(x: u16, y: u16, r: Rect) -> (res: Rect)
    requires
        r.wf(),
    ensures
        res == popup_region(x, y, r),
        res.wf(),
{
    let mut cs: Vec<Constraint> = Vec::new();
    cs.push(Constraint::Fill(1));
    cs.push(Constraint::Length(y));
    cs.push(Constraint::Fill(1));
    proof {
        assert(cs@ =~= seq![Constraint::Fill(1), Constraint::Length(y), Constraint::Fill(1)]);
    }
    let rows = split_rect(r, Direction::Vertical, &cs);
    let mut cs2: Vec<Constraint> = Vec::new();
    cs2.push(Constraint::Fill(1));
    cs2.push(Constraint::Length(x));
    cs2.push(Constraint::Fill(1));
    proof {
        assert(cs2@ =~= seq![Constraint::Fill(1), Constraint::Length(x), Constraint::Fill(1)]);
    }
    let cols = split_rect(rows[1], Direction::Horizontal, &cs2);
    cols[1]
}

/// The status line over the labelled field columns.
pub open spec fn status_top_constraints() -> Seq<Constraint> {
    seq![Constraint::Length(3), Constraint::Min(0)]
}

/// The three stacked labelled fields of one column.
pub open spec fn status_cells_constraints() -> Seq<Constraint> {
    seq![Constraint::Length(3), Constraint::Length(3), Constraint::Length(3)]
}

/// The status line across the top of the header.
pub open spec fn status_line_region(header: Rect) -> Rect {
    split_rects_spec(header, Direction::Vertical, status_top_constraints())[0]
}

/// The left or right field column under the status line.
pub open spec fn status_column_region(header: Rect, side: int) -> Rect {
    let rest = split_rects_spec(header, Direction::Vertical, status_top_constraints())[1];
    split_rects_spec(rest, Direction::Horizontal, details_constraints())[side]
}

/// One of the three labelled cells of a field column.
pub open spec fn status_cell_region(column: Rect, row: int) -> Rect {
    split_rects_spec(column, Direction::Vertical, status_cells_constraints())[row]
}

/// The seven boxes of the status panel.
pub struct StatusRegions {
    pub status_line: Rect,
    pub country: Rect,
    pub city: Rect,
    pub uptime: Rect,
    pub ip: Rect,
    pub download: Rect,
    pub upload: Rect,
}

/// Cut the status header into its status line and the two three-cell field
/// columns: country, city and uptime on the left; IP and the two transfer
/// counters on the right.
pub fn status_regions(header: Rect) -> (r: StatusRegions)
    requires
        header.wf(),
    ensures
        r.status_line == status_line_region(header),
        r.country == status_cell_region(status_column_region(header, 0), 0),
        r.city == status_cell_region(status_column_region(header, 0), 1),
        r.uptime == status_cell_region(status_column_region(header, 0), 2),
        r.ip == status_cell_region(status_column_region(header, 1), 0),
        r.download == status_cell_region(status_column_region(header, 1), 1),
        r.upload == status_cell_region(status_column_region(header, 1), 2),
{
    let mut top: Vec<Constraint> = Vec::new();
    top.push(Constraint::Length(3));
    top.push(Constraint::Min(0));
    proof {
        assert(top@ =~= status_top_constraints());
    }
    let rows = split_rect(header, Direction::Vertical, &top);

    let mut half: Vec<Constraint> = Vec::new();
    half.push(Constraint::Percentage(50));
    half.push(Constraint::Percentage(50));
    proof {
        assert(half@ =~= details_constraints());
    }
    let columns = split_rect(rows[1], Direction::Horizontal, &half);

    let mut cells: Vec<Constraint> = Vec::new();
    cells.push(Constraint::Length(3));
    cells.push(Constraint::Length(3));
    cells.push(Constraint::Length(3));
    proof {
        assert(cells@ =~= status_cells_constraints());
    }
    let left = split_rect(columns[0], Direction::Vertical, &cells);
    let right = split_rect(columns[1], Direction::Vertical, &cells);

    StatusRegions {
        status_line: rows[0],
        country: left[0],
        city: left[1],
        uptime: left[2],
        ip: right[0],
        download: right[1],
        upload: right[2],
    }
}

/// Law: on a frame at least 120 cells wide and 30 tall, the five root
/// regions — title, left filler, content, right filler, footer — tile the
/// frame with no gap or overlap: the fixed rows keep exactly their
/// prescribed heights whatever the frame size, the body rows sit flush
/// between them, and the three body columns cover the body row edge to
/// edge.
pub proof fn lemma_root_regions_tile(area: Rect)
    requires
        area.wf(),
        area.width >= 120,
        area.height >= 30,
    ensures
        title_region(area) == (Rect { x: area.x, y: area.y, width: area.width, height: 2u16 }),
        body_region(area) == (Rect {
            x: area.x,
            y: (area.y + 2) as u16,
            width: area.width,
            height: (area.height - 4) as u16,
        }),
        footer_region(area) == (Rect {
            x: area.x,
            y: (area.y + area.height - 2) as u16,
            width: area.width,
            height: 2u16,
        }),
        title_region(area).height + body_region(area).height + footer_region(area).height
            == area.height,
        body_region(area).y == title_region(area).y + title_region(area).height,
        footer_region(area).y == body_region(area).y + body_region(area).height,
        left_filler_region(area) == (Rect {
            x: area.x,
            y: (area.y + 2) as u16,
            width: ((area.width - 60) / 2) as u16,
            height: (area.height - 4) as u16,
        }),
        content_region(area) == (Rect {
            x: (area.x + (area.width - 60) / 2) as u16,
            y: (area.y + 2) as u16,
            width: 60u16,
            height: (area.height - 4) as u16,
        }),
        right_filler_region(area) == (Rect {
            x: (area.x + (area.width - 60) / 2 + 60) as u16,
            y: (area.y + 2) as u16,
            width: (area.width - 60 - (area.width - 60) / 2) as u16,
            height: (area.height - 4) as u16,
        }),
        left_filler_region(area).width + content_region(area).width + right_filler_region(
            area,
        ).width == area.width,
        content_region(area).x == left_filler_region(area).x + left_filler_region(area).width,
        right_filler_region(area).x == content_region(area).x + content_region(area).width,
{
    let h = area.height as int;
    let w = area.width as int;
    let xx = area.x as int;
    let yy = area.y as int;
    assert(seq_sum(Seq::<int>::empty()) == 0);

    // the vertical root split
    let cs = root_constraints();
    let t1 = cs.subrange(1, 3);
    let t2 = t1.subrange(1, 2);
    let t3 = t2.subrange(1, 1);
    assert(t1 =~= seq![Constraint::Min(0), Constraint::Length(2)]);
    assert(t2 =~= seq![Constraint::Length(2)]);
    assert(t3 =~= Seq::<Constraint>::empty());

    let b = base_allocs(cs, h, h);
    assert(b == seq![2int] + base_allocs(t1, h, h - 2));
    assert(base_allocs(t1, h, h - 2) == seq![0int] + base_allocs(t2, h, h - 2));
    assert(base_allocs(t2, h, h - 2) == seq![2int] + base_allocs(t3, h, h - 4));
    assert(base_allocs(t3, h, h - 4) =~= Seq::<int>::empty());
    assert(b =~= seq![2int, 0, 2]);

    assert(seq![2int, 0, 2].subrange(1, 3) =~= seq![0int, 2]);
    assert(seq![0int, 2].subrange(1, 2) =~= seq![2int]);
    assert(seq![2int].subrange(1, 1) =~= Seq::<int>::empty());
    assert(seq_sum(seq![2int]) == 2);
    assert(seq_sum(seq![0int, 2]) == 2);
    assert(seq_sum(b) == 4);

    assert(total_weight(t2) == 0 + total_weight(t3));
    assert(total_weight(t1) == 1 + total_weight(t2));
    assert(total_weight(cs) == 0 + total_weight(t1));
    assert(total_weight(cs) == 1);

    let pool = h - 4;
    let ex = extras(cs, pool, 1);
    assert(ex == seq![0int] + extras(t1, pool, 1));
    assert(pool / 1 == pool);
    assert(extras(t1, pool, 1) == seq![pool] + extras(t2, 0, 0));
    assert(extras(t2, 0, 0) == seq![0int] + extras(t3, 0, 0));
    assert(extras(t3, 0, 0) =~= Seq::<int>::empty());
    assert(ex =~= seq![0int, pool, 0]);

    let sz = split_sizes(cs, h);
    assert(sz =~= seq![2int, h - 4, 2]);

    let pr = placed_rects(area, Direction::Vertical, sz, yy);
    assert(sz.subrange(1, 3) =~= seq![h - 4, 2int]);
    assert(seq![h - 4, 2int].subrange(1, 2) =~= seq![2int]);
    assert(pr == seq![piece_rect(area, Direction::Vertical, yy, 2)] + placed_rects(
        area,
        Direction::Vertical,
        seq![h - 4, 2int],
        yy + 2,
    ));
    assert(placed_rects(area, Direction::Vertical, seq![h - 4, 2int], yy + 2) == seq![
        piece_rect(area, Direction::Vertical, yy + 2, h - 4),
    ] + placed_rects(area, Direction::Vertical, seq![2int], yy + h - 2));
    assert(placed_rects(area, Direction::Vertical, seq![2int], yy + h - 2) == seq![
        piece_rect(area, Direction::Vertical, yy + h - 2, 2),
    ] + placed_rects(area, Direction::Vertical, Seq::<int>::empty(), yy + h));
    assert(placed_rects(area, Direction::Vertical, Seq::<int>::empty(), yy + h) =~= Seq::<
        Rect,
    >::empty());
    assert(pr =~= seq![
        piece_rect(area, Direction::Vertical, yy, 2),
        piece_rect(area, Direction::Vertical, yy + 2, h - 4),
        piece_rect(area, Direction::Vertical, yy + h - 2, 2),
    ]);
    assert(split_rects_spec(area, Direction::Vertical, cs) == pr);
    let body = body_region(area);
    assert(body == piece_rect(area, Direction::Vertical, yy + 2, h - 4));

    // the horizontal body framing
    let cs2 = body_frame_constraints();
    let u1 = cs2.subrange(1, 3);
    let u2 = u1.subrange(1, 2);
    let u3 = u2.subrange(1, 1);
    assert(u1 =~= seq![Constraint::Length(60), Constraint::Fill(1)]);
    assert(u2 =~= seq![Constraint::Fill(1)]);
    assert(u3 =~= Seq::<Constraint>::empty());

    let b2 = base_allocs(cs2, w, w);
    assert(b2 == seq![0int] + base_allocs(u1, w, w));
    assert(base_allocs(u1, w, w) == seq![60int] + base_allocs(u2, w, w - 60));
    assert(base_allocs(u2, w, w - 60) == seq![0int] + base_allocs(u3, w, w - 60));
    assert(base_allocs(u3, w, w - 60) =~= Seq::<int>::empty());
    assert(b2 =~= seq![0int, 60, 0]);

    assert(seq![0int, 60, 0].subrange(1, 3) =~= seq![60int, 0]);
    assert(seq![60int, 0].subrange(1, 2) =~= seq![0int]);
    assert(seq![0int].subrange(1, 1) =~= Seq::<int>::empty());
    assert(seq_sum(seq![0int]) == 0);
    assert(seq_sum(seq![60int, 0]) == 60);
    assert(seq_sum(b2) == 60);

    assert(total_weight(u2) == 1 + total_weight(u3));
    assert(total_weight(u1) == 0 + total_weight(u2));
    assert(total_weight(cs2) == 1 + total_weight(u1));
    assert(total_weight(cs2) == 2);

    let pool2 = w - 60;
    let q = pool2 / 2;
    lemma_div_pos_is_pos(pool2, 2);
    lemma_div_nonincreasing(pool2, 2);
    assert(0 <= q <= pool2);
    let ex2 = extras(cs2, pool2, 2);
    assert(pool2 * 1 == pool2);
    assert(ex2 == seq![q] + extras(u1, pool2 - q, 1));
    assert(extras(u1, pool2 - q, 1) == seq![0int] + extras(u2, pool2 - q, 1));
    assert((pool2 - q) * 1 == pool2 - q);
    assert((pool2 - q) / 1 == pool2 - q);
    assert(extras(u2, pool2 - q, 1) == seq![pool2 - q] + extras(u3, 0, 0));
    assert(extras(u3, 0, 0) =~= Seq::<int>::empty());
    assert(ex2 =~= seq![q, 0, pool2 - q]);

    let sz2 = split_sizes(cs2, w);
    assert(sz2 =~= seq![q, 60int, pool2 - q]);

    let pr2 = placed_rects(body, Direction::Horizontal, sz2, xx);
    assert(sz2.subrange(1, 3) =~= seq![60int, pool2 - q]);
    assert(seq![60int, pool2 - q].subrange(1, 2) =~= seq![pool2 - q]);
    assert(seq![pool2 - q].subrange(1, 1) =~= Seq::<int>::empty());
    assert(pr2 == seq![piece_rect(body, Direction::Horizontal, xx, q)] + placed_rects(
        body,
        Direction::Horizontal,
        seq![60int, pool2 - q],
        xx + q,
    ));
    assert(placed_rects(body, Direction::Horizontal, seq![60int, pool2 - q], xx + q) == seq![
        piece_rect(body, Direction::Horizontal, xx + q, 60),
    ] + placed_rects(body, Direction::Horizontal, seq![pool2 - q], xx + q + 60));
    assert(placed_rects(body, Direction::Horizontal, seq![pool2 - q], xx + q + 60) == seq![
        piece_rect(body, Direction::Horizontal, xx + q + 60, pool2 - q),
    ] + placed_rects(body, Direction::Horizontal, Seq::<int>::empty(), xx + w));
    assert(placed_rects(body, Direction::Horizontal, Seq::<int>::empty(), xx + w) =~= Seq::<
        Rect,
    >::empty());
    assert(pr2 =~= seq![
        piece_rect(body, Direction::Horizontal, xx, q),
        piece_rect(body, Direction::Horizontal, xx + q, 60),
        piece_rect(body, Direction::Horizontal, xx + q + 60, pool2 - q),
    ]);
    assert(split_rects_spec(body, Direction::Horizontal, cs2) == pr2);
}

/// Appending one element adds its value to the sum.
pub proof fn lemma_seq_sum_push(s: Seq<int>, v: int)
    ensures
        seq_sum(s.push(v)) == seq_sum(s) + v,
    decreases s.len(),
{
    if s.len() == 0 {
        assert(s.push(v) =~= seq![v]);
        assert(seq_sum(seq![v]) == v + seq_sum(seq![v].subrange(1, 1)));
        assert(seq![v].subrange(1, 1) =~= Seq::<int>::empty());
    } else {
        lemma_seq_sum_push(s.subrange(1, s.len() as int), v);
        assert(s.push(v).subrange(1, s.push(v).len() as int) =~= s.subrange(1, s.len() as int).push(
            v,
        ));
        assert(seq_sum(s.push(v)) == s[0] + seq_sum(s.subrange(1, s.len() as int).push(v)));
    }
}

} // verus!
