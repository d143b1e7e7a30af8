use vstd::prelude::*;

verus! {

/// Step between successive GREASE values.
pub const GREASE_STEP: u64 = 0x7f;

/// The smallest GREASE value (N = 0).
pub const GREASE_BASE: u64 = 0x9d;

/// The `n`-th GREASE value, `0x7f * n + 0x9D`.
pub open spec fn grease_nth(n: nat) -> int {
    GREASE_STEP * n + GREASE_BASE
}

/// `value` is `0x7f * N + 0x9D` for some non-negative `N`.
pub open spec fn spec_is_grease(value: u64) -> bool {
    exists|n: nat| value == #[trigger] grease_nth(n)
}

/// Returns true if `value` is a reserved GREASE value, i.e. `0x7f * N + 0x9D`
/// for some non-negative `N`. Receivers treat such values like any other
/// unknown value: ignore, never fatal.
pub fn is_grease(value: u64) -> (b: bool)
    ensures
        b == spec_is_grease(value),
{
    let b = value >= GREASE_BASE && (value - GREASE_BASE) % GREASE_STEP == 0;
    proof {
        if b {
            let d = (value - GREASE_BASE) as int;
            let n = (d / (GREASE_STEP as int)) as nat;
            vstd::arithmetic::div_mod::lemma_fundamental_div_mod(d, GREASE_STEP as int);
            assert(value == grease_nth(n));
        } else if spec_is_grease(value) {
            let n = choose|n: nat| value == #[trigger] grease_nth(n);
            vstd::arithmetic::div_mod::lemma_mod_multiples_basic(n as int, GREASE_STEP as int);
            assert((value - GREASE_BASE) % (GREASE_STEP as int) == 0);
        }
    }
    b
}

/// The `n`-th GREASE value, `0x7f * n + 0x9D`, or `None` if it would not fit
/// in a `u64` (the pattern is capped at `0x3fffffffffffffde`).
pub fn grease_value(n: u64) -> (r: Option<u64>)
    ensures
        GREASE_STEP * n + GREASE_BASE <= u64::MAX ==> r == Some((GREASE_STEP * n + GREASE_BASE) as u64),
        GREASE_STEP * n + GREASE_BASE > u64::MAX ==> r is None,
{
    match GREASE_STEP.checked_mul(n) {
        Some(m) => m.checked_add(GREASE_BASE),
        None => None,
    }
}

/// Every value `grease_value` produces is recognized by `is_grease`.
pub proof fn lemma_grease_value_is_grease(n: u64)
    requires
        GREASE_STEP * n + GREASE_BASE <= u64::MAX,
    ensures
        spec_is_grease((GREASE_STEP * n + GREASE_BASE) as u64),
{
    assert((GREASE_STEP * n + GREASE_BASE) as u64 == grease_nth(n as nat));
}

} // verus!
