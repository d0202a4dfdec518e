use vstd::prelude::*;

verus! {

/// Whether `r` is what rounding `n` up to an odd number gives: even numbers go to the next
/// number, odd numbers stay.
pub open spec fn is_rounded_even_up(n: int, r: int) -> bool {
    if n % 2 == 0 {
        r == n + 1
    } else {
        r == n
    }
}

/// Rounds an even number up to the next (odd) number; odd numbers are returned unchanged.
pub fn round_even_up(n: u32) -> (r: u32)
    ensures
        is_rounded_even_up(n as int, r as int),
{
    if n % 2 == 0 {
        n + 1
    } else {
        n
    }
}

/// Rounding to a multiple of a step.
pub trait RoundBy: Sized {
    fn round_by(self, n: Self) -> Self;
}

/// Rounding even numbers up to the next odd number.
pub trait RoundEvenUp: Sized {
    fn round_even_up(self) -> Self;
}

impl RoundEvenUp for u32 {
    fn round_even_up(self) -> (r: u32)
        ensures
            is_rounded_even_up(self as int, r as int),
    {
        if self % 2 == 0 {
            self + 1
        } else {
            self
        }
    }
}

impl RoundEvenUp for u64 {
    fn round_even_up(self) -> (r: u64)
        ensures
            is_rounded_even_up(self as int, r as int),
    {
        if self % 2 == 0 {
            self + 1
        } else {
            self
        }
    }
}

/// Element-wise conversion of an array to `u32`, with the semantics of `as`.
pub trait AsU32<T, const N: usize> {
    fn as_u32(&self) -> [u32; N];
}

/// Element-wise conversion of an array to `i32`, with the semantics of `as`.
pub trait AsI32<T, const N: usize> {
    fn as_i32(&self) -> [i32; N];
}

impl<const N: usize> AsU32<i32, N> for [i32; N] {
    fn as_u32(&self) -> (r: [u32; N])
        ensures
            forall|i: int| 0 <= i < N ==> #[trigger] r@[i] == self@[i] as u32,
    {
        let mut array: [u32; N] = [0u32; N];
        let mut i: usize = 0;
        while i < N
            invariant
                i <= N,
                forall|j: int| 0 <= j < i ==> #[trigger] array@[j] == self@[j] as u32,
            decreases N - i,
        {
            array[i] = self[i] as u32;
            i = i + 1;
        }
        array
    }
}

impl<const N: usize> AsU32<u32, N> for [u32; N] {
    fn as_u32(&self) -> (r: [u32; N])
        ensures
            r@ == self@,
    {
        *self
    }
}

impl<const N: usize> AsI32<u32, N> for [u32; N] {
    fn as_i32(&self) -> (r: [i32; N])
        ensures
            forall|i: int| 0 <= i < N ==> #[trigger] r@[i] == self@[i] as i32,
    {
        let mut array: [i32; N] = [0i32; N];
        let mut i: usize = 0;
        while i < N
            invariant
                i <= N,
                forall|j: int| 0 <= j < i ==> #[trigger] array@[j] == self@[j] as i32,
            decreases N - i,
        {
            array[i] = self[i] as i32;
            i = i + 1;
        }
        array
    }
}

impl<const N: usize> AsI32<i32, N> for [i32; N] {
    fn as_i32(&self) -> (r: [i32; N])
        ensures
            r@ == self@,
    {
        *self
    }
}

/// Rounding an even number up gives an odd number that is at most one larger, and rounding
/// again changes nothing.
pub proof fn law_round_even_up(n: int)
    requires
        n >= 0,
    ensures
        forall|r: int| #[trigger] is_rounded_even_up(n, r) ==> r % 2 == 1 && n <= r <= n + 1
            && is_rounded_even_up(r, r),
{
}

/// The gap between neighbouring values of an IEEE 754 single-precision number around the whole
/// number `c`: 1 below 2^24, doubling at each power of two above.
pub open spec fn single_spacing(c: nat) -> nat
    decreases c,
{
    if c < 0x100_0000 {
        1
    } else {
        2 * single_spacing(c / 2)
    }
}

/// The whole number `c >= 0` rounded to the nearest value that a single-precision number holds,
/// ties to the one with an even significand.
pub open spec fn single_rounded_nat(c: nat) -> nat {
    let s = single_spacing(c);
    let q = c / s;
    let r = c % s;
    if 2 * r > s || (2 * r == s && q % 2 == 1) {
        (q + 1) * s
    } else {
        q * s
    }
}

/// The integer `c` rounded to the nearest value that a single-precision number holds, ties to
/// the one with an even significand; the sign is kept.
pub open spec fn single_rounded(c: int) -> int {
    if c >= 0 {
        single_rounded_nat(c as nat) as int
    } else {
        -(single_rounded_nat((-c) as nat) as int)
    }
}

proof fn lemma_spacing_step(c: nat, s: nat)
    requires
        s > 0,
        c / s >= 0x100_0000,
    ensures
        (c / s) / 2 == c / (s * 2),
        single_spacing((c / s) as nat) == 2 * single_spacing(c / (s * 2)),
        c / (s * 2) < c / s,
{
    vstd::arithmetic::div_mod::lemma_div_denominator(c as int, s as int, 2);
}

proof fn lemma_spacing_bound(c: u64, s: u64)
    requires
        s > 0,
        c <= 0x8000_0000,
        c / s >= 0x100_0000,
    ensures
        s <= 128,
{
    assert(s * (c / s) <= c) by (nonlinear_arith)
        requires
            s > 0,
    {
        vstd::arithmetic::div_mod::lemma_fundamental_div_mod(c as int, s as int);
    }
    assert(s * 0x100_0000 <= s * (c / s)) by (nonlinear_arith)
        requires
            s > 0,
            c / s >= 0x100_0000,
    ;
}

/// Rounds `c` to the nearest value that a single-precision number holds, as converting a 32-bit
/// integer to `f32` does.
pub fn round_to_single(c: u64) -> (r: u64)
    requires
        c <= 0x8000_0000,
    ensures
        r == single_rounded_nat(c as nat),
        r <= 0x1_0000_0000,
{
    let mut s: u64 = 1;
    while c / s >= 0x100_0000
        invariant
            1 <= s <= 256,
            c <= 0x8000_0000,
            single_spacing(c as nat) == s * single_spacing((c / s) as nat),
        decreases c / s,
    {
        proof {
            lemma_spacing_bound(c, s);
            let cn: nat = c as nat;
            let sn: nat = s as nat;
            lemma_spacing_step(cn, sn);
            let a: int = single_spacing(cn / sn) as int;
            let b: int = single_spacing(cn / (sn * 2)) as int;
            assert(sn * a == (sn * 2) * b) by (nonlinear_arith)
                requires
                    a == 2 * b,
            ;
        }
        s = s * 2;
    }
    proof {
        let k: nat = single_spacing((c / s) as nat);
        assert(k == 1);
        assert(s * k == s) by (nonlinear_arith)
            requires
                k == 1,
        ;
    }
    assert(single_spacing(c as nat) == s);
    let q = c / s;
    let r = c % s;
    assert(q * s <= 0x100_0000 * 256) by (nonlinear_arith)
        requires
            q < 0x100_0000,
            s <= 256,
    ;
    assert((q + 1) * s <= 0x100_0000 * 256) by (nonlinear_arith)
        requires
            q < 0x100_0000,
            s <= 256,
    ;
    if 2 * r > s || (2 * r == s && q % 2 == 1) {
        (q + 1) * s
    } else {
        q * s
    }
}

/// Whole numbers below 2^24 are held exactly by a single-precision number.
pub proof fn law_single_exact_below_24_bits(c: int)
    requires
        -0x100_0000 < c < 0x100_0000,
    ensures
        single_rounded(c) == c,
{
    let n: nat = if c >= 0 { c as nat } else { (-c) as nat };
    assert(single_spacing(n) == 1);
    assert(n / 1 == n && n % 1 == 0);
}

proof fn lemma_spacing_at_most(c: nat)
    requires
        c >= 1,
    ensures
        1 <= single_spacing(c) <= c,
    decreases c,
{
    if c >= 0x100_0000 {
        lemma_spacing_at_most(c / 2);
    }
}

/// Rounding to single precision keeps the sign of a whole number: only zero rounds to zero.
pub proof fn law_single_rounded_keeps_sign(c: int)
    ensures
        c > 0 ==> single_rounded(c) > 0,
        c < 0 ==> single_rounded(c) < 0,
        c == 0 ==> single_rounded(c) == 0,
{
    if c != 0 {
        let n: nat = if c > 0 { c as nat } else { (-c) as nat };
        lemma_spacing_at_most(n);
        let s = single_spacing(n);
        assert(n / s >= 1) by {
            vstd::arithmetic::div_mod::lemma_div_is_ordered(s as int, n as int, s as int);
            vstd::arithmetic::div_mod::lemma_div_by_self(s as int);
        }
        assert((n / s) * s >= s) by (nonlinear_arith)
            requires
                n / s >= 1,
                s >= 1,
        ;
        assert(((n / s) + 1) * s >= s) by (nonlinear_arith)
            requires
                n / s >= 1,
                s >= 1,
        ;
    } else {
        assert(single_spacing(0) == 1);
    }
}

/// Rounds a whole number of at most 2^31 in magnitude to the nearest value that a single-precision
/// number holds, keeping its sign.
pub fn round_to_single_signed(v: i64) -> (r: i64)
    requires
        -0x8000_0000 <= v <= 0x8000_0000,
    ensures
        r == single_rounded(v as int),
        -0x1_0000_0000 <= r <= 0x1_0000_0000,
{
    if v >= 0 {
        round_to_single(v as u64) as i64
    } else {
        let m = round_to_single((-v) as u64);
        -(m as i64)
    }
}

} // verus!
