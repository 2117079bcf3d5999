//! Rounding to multiples of an alignment, and power-of-two facts, used by
//! the allocator's contracts and proofs.

use vstd::prelude::*;
use vstd::arithmetic::div_mod::{
    lemma_fundamental_div_mod, lemma_fundamental_div_mod_converse,
    lemma_mod_division_less_than_divisor, lemma_mod_multiples_basic,
};
use vstd::arithmetic::mul::{lemma_mul_is_associative, lemma_mul_is_commutative};
use vstd::arithmetic::power::{lemma_pow_adds, lemma_pow_strictly_increases, pow};
use vstd::arithmetic::power2::{is_pow2, is_pow2_equiv, is_pow2_exists, lemma_pow2, pow2};

verus! {

/// The least multiple of `align` that is at least `pos`.
pub open spec fn round_up(pos: int, align: int) -> int
    recommends
        1 <= align,
{
    ((pos + align - 1) / align) * align
}

/// The greatest multiple of `align` that is at most `pos`.
pub open spec fn round_down(pos: int, align: int) -> int
    recommends
        1 <= align,
{
    (pos / align) * align
}

pub proof fn lemma_round_down_props(pos: int, align: int)
    requires
        1 <= align,
    ensures
        round_down(pos, align) % align == 0,
        round_down(pos, align) <= pos,
        pos < round_down(pos, align) + align,
        pos % align == 0 ==> round_down(pos, align) == pos,
{
    lemma_fundamental_div_mod(pos, align);
    lemma_mod_division_less_than_divisor(pos, align);
    lemma_mod_multiples_basic(pos / align, align);
    lemma_mul_is_commutative(align, pos / align);
}

pub proof fn lemma_round_up_props(pos: int, align: int)
    requires
        0 <= pos,
        1 <= align,
    ensures
        round_up(pos, align) % align == 0,
        pos <= round_up(pos, align),
        round_up(pos, align) < pos + align,
        pos % align == 0 ==> round_up(pos, align) == pos,
        pos % align != 0 ==> round_up(pos, align) == pos + align - pos % align,
{
    let s = pos + align - 1;
    lemma_fundamental_div_mod(pos, align);
    lemma_mod_division_less_than_divisor(pos, align);
    lemma_mul_is_commutative(align, pos / align);
    if pos % align == 0 {
        assert(s == (pos / align) * align + (align - 1));
        lemma_fundamental_div_mod_converse(s, align, pos / align, align - 1);
    } else {
        assert((pos / align + 1) * align == (pos / align) * align + align) by (nonlinear_arith);
        assert(s == (pos / align + 1) * align + (pos % align - 1));
        lemma_fundamental_div_mod_converse(s, align, pos / align + 1, pos % align - 1);
    }
    lemma_fundamental_div_mod(s, align);
    lemma_mod_multiples_basic(s / align, align);
}

/// A power of two is positive.
pub proof fn lemma_is_pow2_pos(n: int)
    requires
        is_pow2(n),
    ensures
        1 <= n,
{
    reveal(is_pow2);
}

/// Unfolding step of the recursive power-of-two predicate.
pub proof fn lemma_is_pow2_unfold(n: int)
    requires
        2 <= n,
    ensures
        is_pow2(n) == (n % 2 == 0 && is_pow2(n / 2)),
{
    reveal(is_pow2);
}

/// Base cases of the power-of-two predicate.
pub proof fn lemma_is_pow2_base()
    ensures
        is_pow2(1),
        !is_pow2(0),
{
    reveal(is_pow2);
}

/// The smaller of two powers of two divides the larger.
pub proof fn lemma_pow2_divides(a: int, b: int)
    requires
        is_pow2(a),
        is_pow2(b),
        a <= b,
    ensures
        b % a == 0,
{
    is_pow2_equiv(a);
    is_pow2_equiv(b);
    let i = choose|i: nat| pow(2, i) == a;
    let j = choose|j: nat| pow(2, j) == b;
    lemma_is_pow2_pos(a);
    if j < i {
        lemma_pow_strictly_increases(2, j, i);
        assert(false);
    }
    lemma_pow_adds(2, i, (j - i) as nat);
    lemma_mul_is_commutative(a, pow(2, (j - i) as nat));
    assert(b == pow(2, (j - i) as nat) * a);
    lemma_mod_multiples_basic(pow(2, (j - i) as nat), a);
}

/// Two to any power satisfies the power-of-two predicate.
pub proof fn lemma_pow2_is_pow2(e: nat)
    ensures
        is_pow2(pow2(e) as int),
{
    lemma_pow2(e);
    assert(pow(2, e) == pow2(e) as int);
    assert(is_pow2_exists(pow2(e) as int));
    is_pow2_equiv(pow2(e) as int);
}

/// Divisibility is transitive: if `a` divides `b` and `b` divides `c`,
/// then `a` divides `c`.
pub proof fn lemma_divides_transitive(a: int, b: int, c: int)
    requires
        1 <= a,
        1 <= b,
        b % a == 0,
        c % b == 0,
    ensures
        c % a == 0,
{
    lemma_fundamental_div_mod(c, b);
    lemma_fundamental_div_mod(b, a);
    lemma_mul_is_commutative(b, c / b);
    lemma_mul_is_commutative(a, b / a);
    assert(c == (c / b) * b);
    assert(b == (b / a) * a);
    assert(c == ((c / b) * (b / a)) * a) by {
        lemma_mul_is_associative(c / b, b / a, a);
        assert((c / b) * ((b / a) * a) == c) by (nonlinear_arith)
            requires
                c == (c / b) * b,
                b == (b / a) * a,
        ;
    };
    lemma_mod_multiples_basic((c / b) * (b / a), a);
}

/// Decides whether `x` is a power of two.
pub fn is_power_of_two(x: usize) -> (b: bool)
    ensures
        b == is_pow2(x as int),
{
    if x == 0 {
        proof {
            lemma_is_pow2_base();
        }
        return false;
    }
    let mut n: usize = x;
    while n > 1 && n % 2 == 0
        invariant
            1 <= n,
            is_pow2(x as int) == is_pow2(n as int),
        decreases n,
    {
        proof {
            lemma_is_pow2_unfold(n as int);
        }
        n = n / 2;
    }
    proof {
        lemma_is_pow2_base();
        if n > 1 {
            lemma_is_pow2_unfold(n as int);
        }
    }
    n == 1
}

} // verus!
