//! Fibonacci numbers, computed three ways.
//!
//! The three functions share one contract — each returns the Fibonacci number
//! of its argument — and differ only in mechanism: naive double recursion, an
//! accumulating fold, and a materialized sequence summed with its own
//! one-step shift.

use vstd::prelude::*;

verus! {

/// The Fibonacci number of `n`.
pub open spec fn spec_fib(n: nat) -> nat
    decreases n,
{
    if n == 0 {
        0
    } else if n == 1 {
        1
    } else {
        spec_fib((n - 1) as nat) + spec_fib((n - 2) as nat)
    }
}

/// Whether the Fibonacci number of `n` fits the machine word that carries it.
pub open spec fn fib_fits_u128(n: nat) -> bool {
    spec_fib(n) <= u128::MAX
}

/// Fibonacci numbers never shrink as the index grows.
pub proof fn lemma_fib_monotonic(i: nat, j: nat)
    requires
        i <= j,
    ensures
        spec_fib(i) <= spec_fib(j),
    decreases j,
{
    if i < j && j >= 2 {
        lemma_fib_monotonic(i, (j - 1) as nat);
    }
}

/// Fibonacci by naive double recursion.
pub fn fibonacci_recursion_naive(n: u8) -> (r: u128)
    requires
        fib_fits_u128(n as nat),
    ensures
        r == spec_fib(n as nat),
    decreases n,
{
    if n == 0 {
        0
    } else if n == 1 {
        1
    } else {
        proof {
            lemma_fib_monotonic((n - 1) as nat, n as nat);
            lemma_fib_monotonic((n - 2) as nat, n as nat);
        }
        fibonacci_recursion_naive(n - 1) + fibonacci_recursion_naive(n - 2)
    }
}

/// Fibonacci by an accumulating fold over the index range: the running pair
/// holds the number and its predecessor.
pub fn fibonacci_iterator_fold(n: u8) -> (r: u128)
    requires
        fib_fits_u128(n as nat),
    ensures
        r == spec_fib(n as nat),
{
    if n == 0 {
        return 0;
    }
    let mut cur: u128 = 1;
    let mut prev: u128 = 0;
    let mut i: u8 = 1;
    while i < n
        invariant
            1 <= i <= n,
            cur == spec_fib(i as nat),
            prev == spec_fib((i - 1) as nat),
            fib_fits_u128(n as nat),
        decreases n - i,
    {
        proof {
            lemma_fib_monotonic((i + 1) as nat, n as nat);
        }
        let next = cur + prev;
        prev = cur;
        cur = next;
        i += 1;
    }
    cur
}

/// Fibonacci by materializing the sequence and extending it with the sum of
/// itself and its own one-step shift — the pairing written out as a table.
pub fn fibonacci_iterator_zip_recursion(n: u8) -> (r: u128)
    requires
        fib_fits_u128(n as nat),
    ensures
        r == spec_fib(n as nat),
{
    if n == 0 {
        return 0;
    }
    if n == 1 {
        return 1;
    }
    let mut table: Vec<u128> = Vec::new();
    table.push(0);
    table.push(1);
    let mut i: usize = 2;
    while i <= n as usize
        invariant
            2 <= i <= n as usize + 1,
            table@.len() == i,
            forall|k: int| 0 <= k < i ==> table@[k] == spec_fib(k as nat),
            fib_fits_u128(n as nat),
        decreases n as usize + 1 - i,
    {
        proof {
            lemma_fib_monotonic(i as nat, n as nat);
        }
        let next = table[i - 1] + table[i - 2];
        table.push(next);
        i += 1;
    }
    table[n as usize]
}

} // verus!
