//! Fibonacci numbers over 32-bit arithmetic, with overflow detected.

use vstd::prelude::*;

verus! {

/// The Fibonacci sequence: 0, 1, 1, 2, 3, 5, ...
pub open spec fn fib(n: nat) -> nat
    decreases n,
{
    if n == 0 {
        0
    } else if n == 1 {
        1
    } else {
        fib((n - 2) as nat) + fib((n - 1) as nat)
    }
}

/// The sequence never decreases.
pub proof fn lemma_fib_monotonic(i: nat, j: nat)
    requires
        i <= j,
    ensures
        fib(i) <= fib(j),
    decreases j,
{
    if i < j && j >= 2 {
        lemma_fib_monotonic(i, (j - 1) as nat);
    }
}

/// The `n`-th Fibonacci number, or `None` when it does not fit in 32 bits.
/// The first value that no longer fits is reached at rank 48.
pub fn fibo(n: u32) -> (r: Option<u32>)
    requires
        n <= 48,
    ensures
        fib(n as nat) <= u32::MAX ==> r == Some(fib(n as nat) as u32),
        fib(n as nat) > u32::MAX ==> r == None::<u32>,
{
    if n == 0 {
        return Some(0);
    }
    if n == 1 {
        return Some(1);
    }
    let mut former_val: u32 = 0;
    let mut new_val: u32 = 1;
    let mut i: u32 = 1;
    while i < n
        invariant
            1 <= i <= n,
            new_val == fib(i as nat),
            former_val == fib((i - 1) as nat),
        decreases n - i,
    {
        let next = match new_val.checked_add(former_val) {
            Some(v) => v,
            None => {
                proof {
                    lemma_fib_monotonic(i as nat + 1, n as nat);
                }
                return None;
            },
        };
        former_val = new_val;
        new_val = next;
        i = i + 1;
    }
    Some(new_val)
}

} // verus!
