use vstd::prelude::*;
use vstd::arithmetic::div_mod::{
    lemma_add_mod_noop, lemma_fundamental_div_mod, lemma_mod_multiples_vanish, lemma_mod_self_0,
    lemma_small_mod,
};

verus! {

/// The point after point `index` on a closed path of `count` points: the
/// last point is followed by the first.
pub open spec fn spec_next_index(index: int, count: int) -> int {
    (index + 1) % count
}

/// The point before point `index` on a closed path of `count` points: the
/// first point is preceded by the last.
pub open spec fn spec_previous_index(index: int, count: int) -> int {
    (count + index - 1) % count
}

/// How many segments a stroke over `count` points has: one per point when
/// the path is closed into a loop, one less when it is left open.
pub open spec fn spec_segment_count(count: int, close_loop: bool) -> int {
    if close_loop {
        count
    } else {
        count - 1
    }
}

/// The point after `index`, wrapping at `count`.
pub fn next_index(index: usize, count: usize) -> (next: usize)
    requires
        count > 0,
    ensures
        next == spec_next_index(index as int, count as int),
        next < count,
{
    let within = index % count;
    proof {
        lemma_add_mod_noop(index as int, 1, count as int);
        if count == 1 {
            lemma_mod_self_0(1);
        } else {
            lemma_small_mod(1, count as nat);
        }
        if within + 1 == count {
            lemma_mod_self_0(count as int);
        } else {
            lemma_small_mod((within + 1) as nat, count as nat);
        }
    }
    if within + 1 == count {
        0
    } else {
        within + 1
    }
}

/// The point before `index`, wrapping at `count`.
pub fn previous_index(index: usize, count: usize) -> (previous: usize)
    requires
        count > 0,
    ensures
        previous == spec_previous_index(index as int, count as int),
        previous < count,
{
    let within = index % count;
    proof {
        let c = count as int;
        let i = index as int;
        lemma_fundamental_div_mod(i, c);
        // count + index - 1 == count * (index / count) + (count + within - 1)
        if within == 0 {
            lemma_mod_multiples_vanish(i / c, c - 1, c);
            assert(c * (i / c) + (c - 1) == c + i - 1);
            lemma_small_mod((c - 1) as nat, c as nat);
        } else {
            lemma_mod_multiples_vanish(i / c + 1, within - 1, c);
            assert(c * (i / c + 1) + (within - 1) == c + i - 1) by (nonlinear_arith)
                requires
                    i == c * (i / c) + within,
            ;
            lemma_small_mod((within - 1) as nat, c as nat);
        }
    }
    if within == 0 {
        count - 1
    } else {
        within - 1
    }
}

/// The number of segments to draw over `count` points.
pub fn segment_count(count: usize, close_loop: bool) -> (segments: usize)
    requires
        count > 0,
    ensures
        segments == spec_segment_count(count as int, close_loop),
{
    if close_loop {
        count
    } else {
        count - 1
    }
}

} // verus!
