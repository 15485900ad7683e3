use vstd::prelude::*;

verus! {

/// `Some(val)` when `cond` holds, `None` otherwise.
pub fn option<T>(cond: bool, val: T) -> (r: Option<T>)
    ensures
        cond ==> r == Some(val),
        !cond ==> r is None,
{
    if cond {
        Some(val)
    } else {
        None
    }
}

/// The Fibonacci numbers: 0, 1, 1, 2, 3, 5, ...
pub open spec fn spec_fib(n: nat) -> nat
    decreases n,
{
    if n < 2 {
        n
    } else {
        spec_fib((n - 1) as nat) + spec_fib((n - 2) as nat)
    }
}

proof fn lemma_fib_monotone(i: nat, j: nat)
    requires
        i <= j,
    ensures
        spec_fib(i) <= spec_fib(j),
    decreases j,
{
    if i < j {
        lemma_fib_monotone(i, (j - 1) as nat);
        if j >= 2 {
            assert(spec_fib(j) == spec_fib((j - 1) as nat) + spec_fib((j - 2) as nat));
        }
    }
}

/// The `n`th Fibonacci number, computed by the defining recursion.
pub fn fib(n: u64) -> (r: u64)
    requires
        spec_fib(n as nat) <= u64::MAX,
    ensures
        r == spec_fib(n as nat),
    decreases n,
{
    if n < 2 {
        n
    } else {
        proof {
            lemma_fib_monotone((n - 1) as nat, n as nat);
            lemma_fib_monotone((n - 2) as nat, n as nat);
        }
        fib(n - 1) + fib(n - 2)
    }
}

/// The `n`th Fibonacci number, or `None` when it does not fit in a `u64`.
pub fn fib_checked(n: u64) -> (r: Option<u64>)
    ensures
        spec_fib(n as nat) <= u64::MAX ==> r == Some(spec_fib(n as nat) as u64),
        spec_fib(n as nat) > u64::MAX ==> r is None,
{
    if n < 2 {
        return Some(n);
    }
    let mut a: u64 = 0;
    let mut b: u64 = 1;
    let mut i: u64 = 1;
    while i < n
        invariant
            1 <= i <= n,
            a == spec_fib((i - 1) as nat),
            b == spec_fib(i as nat),
        decreases n - i,
    {
        assert(spec_fib((i + 1) as nat) == spec_fib(i as nat) + spec_fib((i - 1) as nat));
        match b.checked_add(a) {
            Some(c) => {
                a = b;
                b = c;
                i = i + 1;
            },
            None => {
                proof {
                    lemma_fib_monotone((i + 1) as nat, n as nat);
                }
                return None;
            },
        }
    }
    Some(b)
}

} // verus!
