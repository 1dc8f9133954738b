//! A declarative GPU scene interpreter: given a graph of named resource
//! descriptions and named command jobs, it plans the device objects to create,
//! resolves every cross-reference by name, records command plans that execute
//! graphics and transfer work, orders submissions so initialization always
//! comes first, and supports row-indexed read-back of image contents.
//!
//! The graphics device itself is an external collaborator: this library makes
//! every decision (name resolution, barrier planning, pitch arithmetic,
//! submission ordering) and emits plans of device commands; a thin outer layer
//! replays those plans against a real device.
use vstd::prelude::*;

pub mod builder;
pub mod desc;
pub mod errors;
pub mod fetch;
pub mod record;
pub mod scene;
pub mod resources;
pub mod table;

verus! {

/// Rounds `x` up to the next multiple of a required alignment `y`.
///
/// Zero in either argument leaves `x` unchanged: an alignment of zero means
/// no constraint, and zero bytes need no padding.
pub open spec fn align_spec(x: int, y: int) -> int {
    if x > 0 && y > 0 {
        ((x - 1) / y + 1) * y
    } else {
        x
    }
}

/// `align_spec(x, y)` is a multiple of `y` no smaller than `x`, and less
/// than `x + y`.
pub proof fn lemma_align_properties(x: int, y: int)
    requires
        x > 0,
        y > 0,
    ensures
        align_spec(x, y) >= x,
        align_spec(x, y) % y == 0,
        align_spec(x, y) < x + y,
{
    let q = (x - 1) / y;
    let r = (x - 1) % y;
    vstd::arithmetic::div_mod::lemma_fundamental_div_mod(x - 1, y);
    assert(x - 1 == q * y + r);
    vstd::arithmetic::div_mod::lemma_mod_bound(x - 1, y);
    assert((q + 1) * y == q * y + y) by (nonlinear_arith);
    vstd::arithmetic::div_mod::lemma_mod_multiples_basic(q + 1, y);
}

/// Among the multiples of `y` that are at least `x`, `align_spec(x, y)` is
/// the smallest: no other such multiple lies below it.
pub proof fn lemma_align_smallest(x: int, y: int, m: int)
    requires
        x > 0,
        y > 0,
        m % y == 0,
        m >= x,
    ensures
        m >= align_spec(x, y),
{
    lemma_align_properties(x, y);
    let a = align_spec(x, y);
    if m < a {
        let d = a - m;
        vstd::arithmetic::div_mod::lemma_sub_mod_noop(a, m, y);
        assert((a % y - m % y) % y == d % y);
        vstd::arithmetic::div_mod::lemma_small_mod(0nat, y as nat);
        assert(d % y == 0);
        assert(0 < d < y);
        vstd::arithmetic::div_mod::lemma_small_mod(d as nat, y as nat);
        assert(false);
    }
}

/// Rounds a byte size `x` up to the required pitch alignment `y`; returns
/// `x` unchanged when either is zero.
pub fn align(x: usize, y: usize) -> (r: usize)
    requires
        align_spec(x as int, y as int) <= usize::MAX,
    ensures
        r == align_spec(x as int, y as int),
{
    if x > 0 && y > 0 {
        proof {
            lemma_align_properties(x as int, y as int);
            let q = (x as int - 1) / (y as int);
            vstd::arithmetic::div_mod::lemma_div_pos_is_pos(x as int - 1, y as int);
            assert((q + 1) * (y as int) >= q + 1) by (nonlinear_arith)
                requires
                    q >= 0,
                    y >= 1,
            ;
        }
        ((x - 1) / y + 1) * y
    } else {
        x
    }
}

} // verus!
