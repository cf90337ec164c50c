//! The proportional space-allocation algorithm.
//!
//! Given an available extent and children with optional minimum and
//! maximum sizes, [`allocate_space`] assigns integer sizes in three
//! passes: every child first gets its minimum (one when none is declared);
//! if room remains, each child grows by an equal share of it, capped at
//! its maximum; what the caps left unused is then split among the children
//! without a maximum, with a one-unit bonus to the first few so the whole
//! extent is consumed whenever an unconstrained child exists. When the
//! minimums alone meet or exceed the extent, every child is pinned at its
//! minimum — the engine never shrinks a child below its declared minimum.

use vstd::arithmetic::div_mod::{lemma_div_pos_is_pos, lemma_fundamental_div_mod};
use vstd::prelude::*;

verus! {

/// Optional minimum and maximum extents for one child along the layout
/// axis.
#[derive(Default, Debug, Clone, Copy, PartialEq, Eq, Structural)]
pub struct SizeConstraint {
    pub min: Option<u16>,
    pub max: Option<u16>,
}

impl SizeConstraint {
    /// No constraint at all.
    pub fn new() -> (r: Self)
        ensures
            r == (SizeConstraint { min: None, max: None }),
    {
        Self { min: None, max: None }
    }

    /// Exactly `size` cells: minimum and maximum both pinned there.
    pub fn fixed(size: u16) -> (r: Self)
        ensures
            r == (SizeConstraint { min: Some(size), max: Some(size) }),
    {
        Self { min: Some(size), max: Some(size) }
    }

    pub fn with_min(self, min: u16) -> (r: Self)
        ensures
            r == (SizeConstraint { min: Some(min), ..self }),
    {
        Self { min: Some(min), ..self }
    }

    pub fn with_max(self, max: u16) -> (r: Self)
        ensures
            r == (SizeConstraint { max: Some(max), ..self }),
    {
        Self { max: Some(max), ..self }
    }
}

/// The minimum a child is owed: its declared minimum, or one.
pub open spec fn spec_min(c: SizeConstraint) -> int {
    match c.min {
        Some(m) => m as int,
        None => 1,
    }
}

/// The most a child may grow past its minimum in the equal-share pass.
pub open spec fn spec_incr(c: SizeConstraint, share: int) -> int {
    match c.max {
        Some(mx) => {
            let headroom = if mx >= spec_min(c) {
                mx - spec_min(c)
            } else {
                0
            };
            if headroom <= share {
                headroom
            } else {
                share
            }
        },
        None => share,
    }
}

/// The sum of the children's minimums.
pub open spec fn sum_mins(s: Seq<SizeConstraint>) -> int
    decreases s.len(),
{
    if s.len() == 0 {
        0
    } else {
        sum_mins(s.drop_last()) + spec_min(s.last())
    }
}

/// The sum of the children's equal-share increments.
pub open spec fn sum_incrs(s: Seq<SizeConstraint>, share: int) -> int
    decreases s.len(),
{
    if s.len() == 0 {
        0
    } else {
        sum_incrs(s.drop_last(), share) + spec_incr(s.last(), share)
    }
}

/// The sum of assigned sizes.
pub open spec fn sum_sizes(s: Seq<u16>) -> int
    decreases s.len(),
{
    if s.len() == 0 {
        0
    } else {
        sum_sizes(s.drop_last()) + s.last()
    }
}

/// How many children have no maximum.
pub open spec fn count_nomax(s: Seq<SizeConstraint>) -> int
    decreases s.len(),
{
    if s.len() == 0 {
        0
    } else {
        count_nomax(s.drop_last()) + (if s.last().max is None {
            1int
        } else {
            0int
        })
    }
}

/// The number of unconstrained children standing before index `i`.
pub open spec fn nomax_rank(s: Seq<SizeConstraint>, i: int) -> int {
    count_nomax(s.subrange(0, i))
}

/// `(y + 1) * w == y * w + w`.
proof fn lemma_mul_succ(y: int, w: int)
    ensures
        (y + 1) * w == y * w + w,
{
    assert((y + 1) * w == y * w + w) by (nonlinear_arith);
}

/// A sum of sizes is at least each of its elements.
proof fn lemma_sum_sizes_ge_element(s: Seq<u16>, i: int)
    requires
        0 <= i < s.len(),
    ensures
        sum_sizes(s) >= s[i],
        sum_sizes(s) >= 0,
    decreases s.len(),
{
    if s.len() > 0 {
        if i < s.len() - 1 {
            lemma_sum_sizes_ge_element(s.drop_last(), i);
        } else if s.len() >= 2 {
            lemma_sum_sizes_ge_element(s.drop_last(), 0);
        }
    }
}

/// The count of unconstrained children never exceeds the child count.
proof fn lemma_count_nomax_le_len(s: Seq<SizeConstraint>)
    ensures
        0 <= count_nomax(s) <= s.len(),
    decreases s.len(),
{
    if s.len() > 0 {
        lemma_count_nomax_le_len(s.drop_last());
    }
}

/// The minimum pass: assigns every child its minimum and reports their
/// sum.
pub fn allocate_min(constraints: &Vec<SizeConstraint>, sizes: &mut Vec<u16>) -> (total: u64)
    requires
        constraints@.len() <= 0xFFFF,
    ensures
        final(sizes)@.len() == constraints@.len(),
        forall|i: int|
            0 <= i < constraints@.len() ==> final(sizes)@[i] == spec_min(constraints@[i]),
        total == sum_mins(constraints@),
        total <= 0xFFFF * 0xFFFF,
{
    sizes.clear();
    let n = constraints.len();
    let mut total: u64 = 0;
    let mut i: usize = 0;
    while i < n
        invariant
            n == constraints@.len(),
            n <= 0xFFFF,
            i <= n,
            sizes@.len() == i,
            forall|j: int| 0 <= j < i ==> sizes@[j] == spec_min(constraints@[j]),
            total == sum_mins(constraints@.subrange(0, i as int)),
            total <= i * 0xFFFF,
        decreases n - i,
    {
        let m: u16 = match constraints[i].min {
            Some(m) => m,
            None => 1,
        };
        sizes.push(m);
        proof {
            assert(constraints@.subrange(0, i + 1).drop_last() =~= constraints@.subrange(
                0,
                i as int,
            ));
            lemma_mul_succ(i as int, 0xFFFF);
        }
        total = total + m as u64;
        i += 1;
    }
    proof {
        assert(constraints@.subrange(0, n as int) =~= constraints@);
        assert(n * 0xFFFF <= 0xFFFF * 0xFFFF) by (nonlinear_arith)
            requires
                0 <= n <= 0xFFFF,
        ;
    }
    total
}

/// The equal-share pass: when the minimums leave room, every child grows
/// by an equal integer share of the remainder, capped at its maximum;
/// the unused remainder is reported for the third pass.
pub fn allocate_max(
    constraints: &Vec<SizeConstraint>,
    sizes: &mut Vec<u16>,
    available: u16,
    min_required: u64,
) -> (leftover: u16)
    requires
        0 < constraints@.len() <= 0xFFFF,
        old(sizes)@.len() == constraints@.len(),
        forall|i: int| 0 <= i < constraints@.len() ==> old(sizes)@[i] == spec_min(constraints@[i]),
        min_required == sum_mins(constraints@),
        min_required < available,
    ensures
        final(sizes)@.len() == constraints@.len(),
        ({
            let share = (available - min_required) / (constraints@.len() as int);
            &&& forall|i: int|
                0 <= i < constraints@.len() ==> final(sizes)@[i] == spec_min(constraints@[i])
                    + spec_incr(constraints@[i], share)
            &&& sum_sizes(final(sizes)@) == min_required + sum_incrs(constraints@, share)
            &&& leftover == (available - min_required) - sum_incrs(constraints@, share)
            &&& min_required + sum_incrs(constraints@, share) + leftover == available
        }),
{
    let n = constraints.len();
    let remainder = available - (min_required as u16);
    let share: u16 = remainder / (n as u16);
    let ghost share_g = (available - min_required) / (constraints@.len() as int);
    proof {
        assert(share == share_g);
        lemma_fundamental_div_mod(remainder as int, n as int);
    }
    let mut total_incr: u64 = 0;
    let mut i: usize = 0;
    while i < n
        invariant
            n == constraints@.len(),
            0 < n <= 0xFFFF,
            i <= n,
            sizes@.len() == n,
            share == share_g,
            share_g == (available - min_required) / (constraints@.len() as int),
            min_required == sum_mins(constraints@),
            min_required < available,
            remainder == available - min_required,
            (n as int) * (share as int) <= remainder,
            forall|j: int|
                0 <= j < i ==> sizes@[j] == spec_min(constraints@[j]) + spec_incr(
                    constraints@[j],
                    share_g,
                ),
            forall|j: int| i <= j < n ==> sizes@[j] == spec_min(constraints@[j]),
            total_incr == sum_incrs(constraints@.subrange(0, i as int), share_g),
            total_incr <= i * (share as int),
        decreases n - i,
    {
        let min_i: u16 = match constraints[i].min {
            Some(m) => m,
            None => 1,
        };
        let incr: u16 = match constraints[i].max {
            Some(mx) => {
                let headroom = if mx >= min_i {
                    mx - min_i
                } else {
                    0
                };
                if headroom <= share {
                    headroom
                } else {
                    share
                }
            },
            None => share,
        };
        proof {
            lemma_sum_mins_ge_element(constraints@, i as int);
            assert((i as int) * (share as int) <= (n as int) * (share as int)) by (nonlinear_arith)
                requires
                    0 <= i <= n,
                    0 <= share,
            ;
        }
        let cur = sizes[i];
        sizes.set(i, cur + incr);
        proof {
            assert(constraints@.subrange(0, i + 1).drop_last() =~= constraints@.subrange(
                0,
                i as int,
            ));
            lemma_mul_succ(i as int, share as int);
        }
        total_incr = total_incr + incr as u64;
        i += 1;
    }
    proof {
        assert(constraints@.subrange(0, n as int) =~= constraints@);
        lemma_sum_sizes_from_pointwise(constraints@, sizes@, share_g);
    }
    remainder - (total_incr as u16)
}

/// A sum of minimums is at least each single minimum, and minimums are
/// never negative.
proof fn lemma_sum_mins_ge_element(s: Seq<SizeConstraint>, i: int)
    requires
        0 <= i < s.len(),
    ensures
        sum_mins(s) >= spec_min(s[i]),
        sum_mins(s) >= 0,
    decreases s.len(),
{
    if s.len() > 0 {
        if i < s.len() - 1 {
            lemma_sum_mins_ge_element(s.drop_last(), i);
        } else if s.len() >= 2 {
            lemma_sum_mins_ge_element(s.drop_last(), 0);
        }
    }
}

/// When every size is its child's minimum plus its increment, the sizes
/// sum to the minimums plus the increments.
proof fn lemma_sum_sizes_from_pointwise(s: Seq<SizeConstraint>, sizes: Seq<u16>, share: int)
    requires
        sizes.len() == s.len(),
        forall|i: int| 0 <= i < s.len() ==> sizes[i] == spec_min(s[i]) + spec_incr(s[i], share),
    ensures
        sum_sizes(sizes) == sum_mins(s) + sum_incrs(s, share),
    decreases s.len(),
{
    if s.len() > 0 {
        assert(sizes.drop_last().len() == s.drop_last().len());
        lemma_sum_sizes_from_pointwise(s.drop_last(), sizes.drop_last(), share);
    }
}

/// The remainder pass: distributes what the caps left unused among the
/// children without a maximum — equal integer shares, plus a one-unit
/// bonus to the first `leftover mod count` of them.
pub fn allocate_remainder(constraints: &Vec<SizeConstraint>, sizes: &mut Vec<u16>, leftover: u16)
    requires
        constraints@.len() <= 0xFFFF,
        old(sizes)@.len() == constraints@.len(),
        sum_sizes(old(sizes)@) + leftover <= 0xFFFF,
        sum_sizes(old(sizes)@) >= 0,
    ensures
        final(sizes)@.len() == constraints@.len(),
        count_nomax(constraints@) == 0 ==> final(sizes)@ == old(sizes)@,
        count_nomax(constraints@) > 0 ==> ({
            let count = count_nomax(constraints@);
            let share = (leftover as int) / count;
            let bonus = (leftover as int) % count;
            &&& sum_sizes(final(sizes)@) == sum_sizes(old(sizes)@) + leftover
            &&& forall|i: int|
                0 <= i < constraints@.len() ==> final(sizes)@[i] == (if constraints@[i].max
                    is None {
                    old(sizes)@[i] + share + (if nomax_rank(constraints@, i) < bonus {
                        1int
                    } else {
                        0int
                    })
                } else {
                    old(sizes)@[i] as int
                })
        }),
{
    let n = constraints.len();
    let mut count: u16 = 0;
    let mut i: usize = 0;
    while i < n
        invariant
            n == constraints@.len(),
            n <= 0xFFFF,
            i <= n,
            count == count_nomax(constraints@.subrange(0, i as int)),
            count <= i,
        decreases n - i,
    {
        proof {
            assert(constraints@.subrange(0, i + 1).drop_last() =~= constraints@.subrange(
                0,
                i as int,
            ));
        }
        if constraints[i].max.is_none() {
            count = count + 1;
        }
        i += 1;
    }
    proof {
        assert(constraints@.subrange(0, n as int) =~= constraints@);
    }
    if count == 0 {
        return ;
    }
    let share: u16 = leftover / count;
    let bonus: u16 = leftover % count;
    proof {
        lemma_fundamental_div_mod(leftover as int, count as int);
    }
    let mut rem: u16 = bonus;
    let ghost start_sizes = sizes@;
    let mut i: usize = 0;
    while i < n
        invariant
            n == constraints@.len(),
            n <= 0xFFFF,
            i <= n,
            sizes@.len() == n,
            start_sizes.len() == n,
            0 < count == count_nomax(constraints@),
            share == (leftover as int) / (count as int),
            bonus == (leftover as int) % (count as int),
            (count as int) * (share as int) + bonus == leftover,
            0 <= bonus < count,
            sum_sizes(start_sizes) + leftover <= 0xFFFF,
            sum_sizes(start_sizes) >= 0,
            0 <= nomax_rank(constraints@, i as int) <= count,
            rem == bonus - (if nomax_rank(constraints@, i as int) < bonus {
                nomax_rank(constraints@, i as int)
            } else {
                bonus as int
            }),
            forall|j: int|
                0 <= j < i ==> sizes@[j] == (if constraints@[j].max is None {
                    start_sizes[j] + share + (if nomax_rank(constraints@, j) < bonus {
                        1int
                    } else {
                        0int
                    })
                } else {
                    start_sizes[j] as int
                }),
            forall|j: int| i <= j < n ==> sizes@[j] == start_sizes[j],
            sum_sizes(sizes@.subrange(0, i as int)) == sum_sizes(start_sizes.subrange(0, i as int))
                + nomax_rank(constraints@, i as int) * (share as int) + (if nomax_rank(
                constraints@,
                i as int,
            ) < bonus {
                nomax_rank(constraints@, i as int)
            } else {
                bonus as int
            }),
        decreases n - i,
    {
        proof {
            assert(constraints@.subrange(0, i + 1).drop_last() =~= constraints@.subrange(
                0,
                i as int,
            ));
            assert(sizes@.subrange(0, i + 1).drop_last() =~= sizes@.subrange(0, i as int));
            assert(start_sizes.subrange(0, i + 1).drop_last() =~= start_sizes.subrange(
                0,
                i as int,
            ));
            lemma_sum_sizes_ge_element(start_sizes, i as int);
            lemma_sum_sizes_prefix_le(start_sizes, i as int);
            let rank = nomax_rank(constraints@, i as int);
            assert(rank * (share as int) <= (count as int) * (share as int)) by (nonlinear_arith)
                requires
                    0 <= rank <= count,
                    0 <= share,
            ;
            assert((count as int) * (share as int) >= (share as int)) by (nonlinear_arith)
                requires
                    1 <= count,
                    0 <= share,
            ;
            lemma_mul_succ(rank, share as int);
        }
        let ghost before_sizes = sizes@;
        if constraints[i].max.is_none() {
            let cur = sizes[i];
            let add: u16 = if rem > 0 {
                rem = rem - 1;
                share + 1
            } else {
                share
            };
            sizes.set(i, cur + add);
        }
        proof {
            lemma_count_nomax_prefix_le(constraints@, i + 1);
            assert(sizes@.subrange(0, i as int) =~= before_sizes.subrange(0, i as int));
            assert(sizes@.subrange(0, i + 1).drop_last() =~= sizes@.subrange(0, i as int));
            assert(sizes@.subrange(0, i + 1).last() == sizes@[i as int]);
        }
        i += 1;
    }
    proof {
        assert(sizes@.subrange(0, n as int) =~= sizes@);
        assert(start_sizes.subrange(0, n as int) =~= start_sizes);
    }
}

/// A prefix count of unconstrained children never exceeds the whole
/// count.
proof fn lemma_count_nomax_prefix_le(s: Seq<SizeConstraint>, i: int)
    requires
        0 <= i <= s.len(),
    ensures
        0 <= count_nomax(s.subrange(0, i)) <= count_nomax(s),
    decreases s.len() - i,
{
    lemma_count_nomax_le_len(s.subrange(0, i));
    if i == s.len() {
        assert(s.subrange(0, i) =~= s);
    } else {
        lemma_count_nomax_prefix_le(s, i + 1);
        assert(s.subrange(0, i + 1).drop_last() =~= s.subrange(0, i));
        assert(s.subrange(0, i + 1).last() == s[i]);
    }
}

/// A prefix sum of sizes never exceeds the whole sum.
proof fn lemma_sum_sizes_prefix_le(s: Seq<u16>, i: int)
    requires
        0 <= i <= s.len(),
    ensures
        sum_sizes(s.subrange(0, i)) <= sum_sizes(s),
        sum_sizes(s.subrange(0, i)) >= 0,
    decreases s.len() - i,
{
    lemma_sum_sizes_nonneg(s.subrange(0, i));
    if i == s.len() {
        assert(s.subrange(0, i) =~= s);
    } else {
        lemma_sum_sizes_prefix_le(s, i + 1);
        assert(s.subrange(0, i + 1).drop_last() =~= s.subrange(0, i));
        assert(s.subrange(0, i + 1).last() == s[i]);
    }
}

/// A sum of sizes is never negative.
proof fn lemma_sum_sizes_nonneg(s: Seq<u16>)
    ensures
        sum_sizes(s) >= 0,
    decreases s.len(),
{
    if s.len() > 0 {
        lemma_sum_sizes_nonneg(s.drop_last());
    }
}

/// The largest size a constrained child may be assigned: its maximum,
/// raised to its minimum when the two conflict (the minimum always wins).
pub open spec fn spec_eff_max(c: SizeConstraint) -> int {
    match c.max {
        Some(mx) => if mx >= spec_min(c) {
            mx as int
        } else {
            spec_min(c)
        },
        None => 0xFFFF,
    }
}

/// The sum of the children's effective maximums.
pub open spec fn sum_eff_max(s: Seq<SizeConstraint>) -> int
    decreases s.len(),
{
    if s.len() == 0 {
        0
    } else {
        sum_eff_max(s.drop_last()) + spec_eff_max(s.last())
    }
}

/// With no unconstrained child counted, every child has a maximum.
proof fn lemma_count_nomax_zero(s: Seq<SizeConstraint>)
    requires
        count_nomax(s) == 0,
    ensures
        forall|i: int| 0 <= i < s.len() ==> (#[trigger] s[i].max) is Some,
    decreases s.len(),
{
    if s.len() > 0 {
        lemma_count_nomax_le_len(s.drop_last());
        lemma_count_nomax_zero(s.drop_last());
        assert forall|i: int| 0 <= i < s.len() implies (#[trigger] s[i].max) is Some by {
            if i < s.len() - 1 {
                assert(s.drop_last()[i].max is Some);
            }
        }
    }
}

/// When a child's increment is its full headroom, the increments sum to
/// the gap between the effective maximums and the minimums.
proof fn lemma_sum_incrs_saturated(s: Seq<SizeConstraint>, share: int)
    requires
        0 <= share,
        forall|i: int|
            0 <= i < s.len() ==> (#[trigger] s[i].max) is Some && spec_eff_max(s[i]) - spec_min(
                s[i],
            ) <= share,
    ensures
        sum_incrs(s, share) == sum_eff_max(s) - sum_mins(s),
    decreases s.len(),
{
    if s.len() > 0 {
        lemma_sum_incrs_saturated(s.drop_last(), share);
    }
}

/// The size the three passes assign to child `i`: its minimum when the
/// minimums already fill the extent; otherwise its minimum plus its capped
/// equal share, plus — for a child without a maximum — its equal cut of
/// what the caps left unused, with a one-unit bonus to the first
/// `leftover mod count` unconstrained children.
pub open spec fn spec_assigned_size(cs: Seq<SizeConstraint>, available: int, i: int) -> int {
    let n = cs.len() as int;
    let ms = sum_mins(cs);
    if ms >= available {
        spec_min(cs[i])
    } else {
        let share = (available - ms) / n;
        let base = spec_min(cs[i]) + spec_incr(cs[i], share);
        let count = count_nomax(cs);
        if count == 0 {
            base
        } else {
            let leftover = (available - ms) - sum_incrs(cs, share);
            let share2 = leftover / count;
            let bonus = leftover % count;
            if cs[i].max is None {
                base + share2 + (if nomax_rank(cs, i) < bonus {
                    1int
                } else {
                    0int
                })
            } else {
                base
            }
        }
    }
}

/// Assigns sizes to the children in three passes. Every child receives at
/// least its minimum and no constrained child exceeds its effective
/// maximum; when the minimums leave room and an unconstrained child
/// exists, the sizes consume the extent exactly; when the minimums meet or
/// exceed the extent, every child is pinned at its minimum.
pub fn allocate_space(constraints: &Vec<SizeConstraint>, available: u16) -> (sizes: Vec<u16>)
    requires
        constraints@.len() <= 0xFFFF,
    ensures
        sizes@.len() == constraints@.len(),
        forall|i: int|
            0 <= i < constraints@.len() ==> sizes@[i] == spec_assigned_size(
                constraints@,
                available as int,
                i,
            ),
        forall|i: int| 0 <= i < constraints@.len() ==> sizes@[i] >= spec_min(constraints@[i]),
        forall|i: int|
            0 <= i < constraints@.len() && constraints@[i].max is Some ==> sizes@[i]
                <= spec_eff_max(constraints@[i]),
        sum_mins(constraints@) >= available ==> forall|i: int|
            0 <= i < constraints@.len() ==> sizes@[i] == spec_min(constraints@[i]),
        (sum_mins(constraints@) < available && count_nomax(constraints@) > 0) ==> sum_sizes(
            sizes@,
        ) == available,
        (sum_mins(constraints@) < available && count_nomax(constraints@) == 0 && (forall|i: int|
            0 <= i < constraints@.len() ==> spec_eff_max(#[trigger] constraints@[i]) - spec_min(
                constraints@[i],
            ) <= (available - sum_mins(constraints@)) / (constraints@.len() as int))) ==> sum_sizes(
            sizes@,
        ) == sum_eff_max(constraints@),
{
    let mut sizes: Vec<u16> = Vec::new();
    if constraints.len() == 0 {
        return sizes;
    }
    let min_required = allocate_min(constraints, &mut sizes);
    if min_required < available as u64 {
        let ghost share = (available - min_required) / (constraints@.len() as int);
        let leftover = allocate_max(constraints, &mut sizes, available, min_required);
        proof {
            lemma_sum_sizes_nonneg(sizes@);
        }
        let ghost mid_sizes = sizes@;
        allocate_remainder(constraints, &mut sizes, leftover);
        proof {
            if count_nomax(constraints@) == 0 && (forall|i: int|
                0 <= i < constraints@.len() ==> spec_eff_max(#[trigger] constraints@[i])
                    - spec_min(constraints@[i]) <= share) {
                lemma_div_pos_is_pos(available - min_required, constraints@.len() as int);
                lemma_count_nomax_zero(constraints@);
                lemma_sum_incrs_saturated(constraints@, share);
            }
            assert forall|i: int|
                0 <= i < constraints@.len() implies sizes@[i] >= spec_min(constraints@[i]) && (
            constraints@[i].max is Some ==> sizes@[i] <= spec_eff_max(constraints@[i]))
                && sizes@[i] == spec_assigned_size(constraints@, available as int, i) by {
                lemma_div_pos_is_pos(available - min_required, constraints@.len() as int);
                lemma_count_nomax_le_len(constraints@);
                assert(mid_sizes[i] == spec_min(constraints@[i]) + spec_incr(
                    constraints@[i],
                    share,
                ));
                if count_nomax(constraints@) > 0 {
                    lemma_div_pos_is_pos(leftover as int, count_nomax(constraints@));
                    assert(sizes@[i] >= mid_sizes[i]);
                } else {
                    assert(sizes@[i] == mid_sizes[i]);
                }
            }
        }
    } else {
        proof {
            assert forall|i: int|
                0 <= i < constraints@.len() implies sizes@[i] == spec_assigned_size(
                constraints@,
                available as int,
                i,
            ) by {
                assert(sizes@[i] == spec_min(constraints@[i]));
            }
        }
    }
    sizes
}

} // verus!
