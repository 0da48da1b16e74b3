//! Task numbers: handed out one by one.
use vstd::arithmetic::div_mod::{
    lemma_fundamental_div_mod, lemma_fundamental_div_mod_converse, lemma_small_mod,
};
use vstd::prelude::*;

verus! {

/// The number behind `id`; behind the largest comes zero.
pub open spec fn following(id: usize) -> usize {
    if id == usize::MAX {
        0
    } else {
        (id + 1) as usize
    }
}

/// The number behind `id`.
pub fn next_id(id: usize) -> (next: usize)
    ensures
        next == following(id),
{
    if id == usize::MAX {
        0
    } else {
        id + 1
    }
}

/// The number handed out after `n` others, the first of which was `first`.
pub open spec fn nth_id(first: usize, n: nat) -> usize
    decreases n,
{
    if n == 0 {
        first
    } else {
        following(nth_id(first, (n - 1) as nat))
    }
}

/// Counting up wraps around.
proof fn lemma_nth_id(first: usize, n: nat)
    ensures
        nth_id(first, n) == (first + n) % (usize::MAX + 1),
    decreases n,
{
    let m = usize::MAX + 1;
    if n > 0 {
        lemma_nth_id(first, (n - 1) as nat);
        let a = first + n - 1;
        lemma_fundamental_div_mod(a, m);
        if a % m + 1 < m {
            lemma_fundamental_div_mod_converse(a + 1, m, a / m, a % m + 1);
        } else {
            assert(m * (a / m) + m == m * (a / m + 1)) by (nonlinear_arith);
            lemma_fundamental_div_mod_converse(a + 1, m, a / m + 1, 0);
        }
    } else {
        lemma_small_mod(first as nat, m as nat);
    }
}

/// No number comes twice among as many tasks as there are numbers.
pub proof fn law_ids_never_repeat(first: usize, i: nat, j: nat)
    requires
        i < j <= i + usize::MAX,
    ensures
        nth_id(first, i) != nth_id(first, j),
{
    lemma_nth_id(first, i);
    lemma_nth_id(first, j);
    let m = usize::MAX + 1;
    let a = first + i;
    let b = first + j;
    if a % m == b % m {
        lemma_fundamental_div_mod(a as int, m as int);
        lemma_fundamental_div_mod(b as int, m as int);
        let q = b / m - a / m;
        assert(b - a == m * q) by (nonlinear_arith)
            requires
                a == m * (a / m) + a % m,
                b == m * (b / m) + b % m,
                a % m == b % m,
                q == b / m - a / m,
        ;
        assert(q > 0) by (nonlinear_arith)
            requires
                m * q > 0,
                m > 0,
        ;
        assert(m * q >= m) by (nonlinear_arith)
            requires
                q >= 1,
                m > 0,
        ;
    }
}

/// Numbers go up by one.
pub proof fn law_numbers_go_up_by_one(first: usize, n: nat)
    requires
        first + n <= usize::MAX,
    ensures
        nth_id(first, n) == first + n,
    decreases n,
{
    if n > 0 {
        law_numbers_go_up_by_one(first, (n - 1) as nat);
    }
}

} // verus!
