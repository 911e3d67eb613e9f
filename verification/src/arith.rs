//! Powers of two and the facts about them that the size arithmetic uses.
use vstd::prelude::*;

verus! {

/// `2^n`.
pub open spec fn pow2n(n: nat) -> nat
    decreases n,
{
    if n == 0 {
        1
    } else {
        2 * pow2n((n - 1) as nat)
    }
}

pub proof fn lemma_pow2n_pos(n: nat)
    ensures
        pow2n(n) >= 1,
    decreases n,
{
    if n > 0 {
        lemma_pow2n_pos((n - 1) as nat);
    }
}

pub proof fn lemma_pow2n_add(a: nat, b: nat)
    ensures
        pow2n(a + b) == pow2n(a) * pow2n(b),
    decreases a,
{
    if a > 0 {
        let a1 = (a - 1) as nat;
        lemma_pow2n_add(a1, b);
        assert((a + b - 1) as nat == a1 + b);
        assert(pow2n(a + b) == 2 * pow2n(a1 + b));
        assert(pow2n(a) == 2 * pow2n(a1));
        let x = pow2n(a1);
        let y = pow2n(b);
        assert(2 * (x * y) == (2 * x) * y) by (nonlinear_arith);
    } else {
        assert(pow2n(a) == 1);
    }
}

pub proof fn lemma_pow2n_mono(a: nat, b: nat)
    requires
        a <= b,
    ensures
        pow2n(a) <= pow2n(b),
    decreases b,
{
    if a < b {
        lemma_pow2n_mono(a, (b - 1) as nat);
        lemma_pow2n_pos((b - 1) as nat);
    }
}

pub proof fn lemma_pow2n_values()
    ensures
        pow2n(10) == 1024,
        pow2n(20) == 1048576,
        pow2n(30) == 1073741824,
        pow2n(40) == 1099511627776,
        pow2n(50) == 1125899906842624,
        pow2n(52) == 4503599627370496,
        pow2n(53) == 9007199254740992,
        pow2n(55) == 36028797018963968,
        pow2n(60) == 1152921504606846976,
        pow2n(64) == 18446744073709551616,
{
    reveal_with_fuel(pow2n, 65);
}

} // verus!
