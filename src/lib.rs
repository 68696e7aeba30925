use vstd::prelude::*;

verus! {

/// The Fibonacci numbers: `fib(0) == 0`, `fib(1) == 1`, `fib(n) == fib(n - 1) + fib(n - 2)`.
pub open spec fn fib(n: nat) -> nat
    decreases n,
{
    if n == 0 {
        0
    } else if n == 1 {
        1
    } else {
        fib((n - 1) as nat) + fib((n - 2) as nat)
    }
}

/// The Fibonacci sequence never decreases.
pub proof fn lemma_fib_monotone(i: nat, j: nat)
    requires
        i <= j,
    ensures
        fib(i) <= fib(j),
    decreases j,
{
    if i < j {
        lemma_fib_monotone(i, (j - 1) as nat);
    }
}

/// Addition law of the Fibonacci numbers.
pub proof fn lemma_fib_add(m: nat, n: nat)
    requires
        m >= 1,
    ensures
        fib(m + n) == fib(m) * fib(n + 1) + fib((m - 1) as nat) * fib(n),
    decreases n,
{
    if n >= 2 {
        let n1 = (n - 1) as nat;
        let n2 = (n - 2) as nat;
        lemma_fib_add(m, n1);
        lemma_fib_add(m, n2);
        let a = fib(m);
        let b = fib((m - 1) as nat);
        let x = fib(n2);
        let y = fib(n1);
        let z = fib(n);
        assert(fib(m + n1) == a * z + b * y);
        assert(fib(m + n2) == a * y + b * x);
        assert(fib(m + n) == fib(m + n1) + fib(m + n2));
        assert(fib(n + 1) == z + y);
        assert(z == y + x);
        assert(a * z + b * y + (a * y + b * x) == a * (z + y) + b * (y + x)) by (nonlinear_arith);
    } else if n == 1 {
        assert(fib(2) == 1) by {
            reveal_with_fuel(fib, 3);
        }
        let (a, b) = (fib(m), fib((m - 1) as nat));
        assert(fib(m + 1) == a + b);
        assert(a * 1 + b * 1 == a + b) by (nonlinear_arith);
    } else {
        let (a, b) = (fib(m), fib((m - 1) as nat));
        assert(a * 1 + b * 0 == a) by (nonlinear_arith);
    }
}

/// Doubling step: from `fib(k - 1)`, `fib(k)`, `fib(k + 1)` to `fib(2k - 1)` up to `fib(2k + 2)`.
proof fn lemma_fib_double(k: nat, a: nat, b: nat, c: nat)
    requires
        k >= 1,
        fib((k - 1) as nat) == a,
        fib(k) == b,
        fib(k + 1) == c,
    ensures
        fib((2 * k - 1) as nat) == b * b + a * a,
        fib(2 * k) == b * c + a * b,
        fib(2 * k + 1) == c * c + b * b,
        fib(2 * k + 2) == b * c + a * b + c * c + b * b,
{
    lemma_fib_add(k, (k - 1) as nat);
    lemma_fib_add(k, k);
    lemma_fib_add(k + 1, k);
    assert(fib(2 * k + 2) == fib(2 * k + 1) + fib(2 * k));
}

/// `fib(186)` is the largest Fibonacci number that a `u128` holds.
pub proof fn lemma_u128_boundary()
    ensures
        fib(186) == 332825110087067562321196029789634457848,
        fib(187) == 538522340430300790495419781092981030533,
        fib(186) <= u128::MAX < fib(187),
{
    assert(fib(10) == 55 && fib(11) == 89 && fib(12) == 144) by {
        reveal_with_fuel(fib, 13);
    }
    lemma_fib_double(11, 55, 89, 144);
    lemma_fib_double(23, 17711, 28657, 46368);
    lemma_fib_double(46, 1134903170, 1836311903, 2971215073);
    lemma_fib_double(93, 7540113804746346429, 12200160415121876738, 19740274219868223167);
}

/// The failure of a computation: `fib(n)` for the index `n` exceeds `u128::MAX`.
#[derive(Clone, Copy, Debug, PartialEq, Eq, Structural)]
pub struct OverflowError {
    /// The index whose Fibonacci number does not fit.
    pub n: u32,
}

/// Whether `fib(n)` is representable as a `u128`.
pub open spec fn fits(n: nat) -> bool {
    fib(n) <= u128::MAX
}

/// What `compute(n)` returns: `fib(n)` where it fits, else the overflow of `n`.
pub open spec fn outcome(n: u32) -> Result<u128, OverflowError> {
    if fits(n as nat) {
        Ok(fib(n as nat) as u128)
    } else {
        Err(OverflowError { n })
    }
}

/// The `n`-th Fibonacci number, or `None` where it does not fit in a `u128`.
///
/// Performs exactly one checked addition per step up to `n`, and stops at the
/// first one that overflows.
pub fn fibonacci(n: u32) -> (r: Option<u128>)
    ensures
        r is Some <==> fits(n as nat),
        r matches Some(v) ==> v == fib(n as nat),
{
    // `prev` starts as fib(-1) == 1, so that `curr` runs through fib(0), fib(1), ...
    let mut prev: u128 = 1;
    let mut curr: u128 = 0;
    let mut i: u32 = 0;
    while i < n
        invariant
            i <= n,
            curr == fib(i as nat),
            i == 0 ==> prev == 1,
            i > 0 ==> prev == fib((i - 1) as nat),
        decreases n - i,
    {
        match prev.checked_add(curr) {
            Some(next) => {
                prev = curr;
                curr = next;
                i = i + 1;
            },
            None => {
                proof {
                    assert(fib((i + 1) as nat) == prev + curr);
                    lemma_fib_monotone((i + 1) as nat, n as nat);
                }
                return None;
            },
        }
    }
    Some(curr)
}

/// The `n`-th Fibonacci number, or an `OverflowError` naming `n` where it does not
/// fit in a `u128`.
pub fn compute(n: u32) -> (r: Result<u128, OverflowError>)
    ensures
        r == outcome(n),
{
    match fibonacci(n) {
        Some(v) => Ok(v),
        None => Err(OverflowError { n }),
    }
}

/// Every index up to 186 succeeds, with the exact Fibonacci number.
pub proof fn lemma_succeeds_up_to_186(n: u32)
    requires
        n <= 186,
    ensures
        fits(n as nat),
        outcome(n) == Ok::<u128, OverflowError>(fib(n as nat) as u128),
{
    lemma_u128_boundary();
    lemma_fib_monotone(n as nat, 186);
}

/// Every index from 187 on fails with an overflow naming that index.
pub proof fn lemma_fails_from_187(n: u32)
    requires
        n >= 187,
    ensures
        !fits(n as nat),
        outcome(n) == Err::<u128, OverflowError>(OverflowError { n }),
{
    lemma_u128_boundary();
    lemma_fib_monotone(187, n as nat);
}

/// The outcome for an index depends on that index alone: two calls with the
/// same index give the same result.
pub proof fn lemma_same_index_same_outcome(
    n: u32,
    r1: Result<u128, OverflowError>,
    r2: Result<u128, OverflowError>,
)
    requires
        r1 == outcome(n),
        r2 == outcome(n),
    ensures
        r1 == r2,
{
}

/// Once an index overflows, the next one overflows too.
pub proof fn lemma_overflow_persists(k: u32)
    requires
        k < u32::MAX,
        outcome(k) is Err,
    ensures
        outcome((k + 1) as u32) is Err,
{
    lemma_fib_monotone(k as nat, (k + 1) as nat);
}

/// A successful result is the exact Fibonacci number, between 0 and `u128::MAX`.
pub proof fn lemma_success_in_range(n: u32)
    ensures
        outcome(n) matches Ok(v) ==> 0 <= v <= u128::MAX && v == fib(n as nat),
{
}

} // verus!
