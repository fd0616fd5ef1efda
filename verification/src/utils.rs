use vstd::prelude::*;

verus! {

/// True when `p` has a divisor in `[d, p)`. Helper for `is_prime`.
pub open spec fn has_divisor_at_least(p: int, d: int) -> bool
    decreases p - d,
{
    if d < 2 || p <= d {
        false
    } else if p % d == 0 {
        true
    } else {
        has_divisor_at_least(p, d + 1)
    }
}

/// Primality over the integers.
pub open spec fn is_prime(p: int) -> bool {
    2 <= p && !has_divisor_at_least(p, 2)
}

/// Number of primes in `[2, k]`.
pub open spec fn prime_count(k: int) -> nat
    decreases k,
{
    if k < 2 {
        0
    } else {
        prime_count(k - 1) + if is_prime(k) {
            1nat
        } else {
            0nat
        }
    }
}

proof fn lemma_divisor_witness(p: int, d: int, w: int)
    requires
        2 <= d <= w < p,
        p % w == 0,
    ensures
        has_divisor_at_least(p, d),
    decreases w - d,
{
    if d < w {
        if p % d != 0 {
            lemma_divisor_witness(p, d + 1, w);
        }
    }
}

/// Counting is monotone, and strictly increases across a prime.
pub proof fn lemma_prime_count_monotone(a: int, b: int)
    requires
        a <= b,
    ensures
        prime_count(a) <= prime_count(b),
    decreases b - a,
{
    if a < b {
        lemma_prime_count_monotone(a, b - 1);
    }
}

/// Extract `num_bits` bits of `number` starting at `start_position`.
pub fn extract_bits_from_num(number: u32, num_bits: u32, start_position: u32) -> (r: u32)
    requires
        num_bits < 32,
        start_position < 32,
    ensures
        r == (number >> start_position) & (((1u32 << num_bits) as u32 - 1) as u32),
{
    let p = 1u32 << num_bits;
    proof {
        let nb = num_bits;
        assert(nb < 32 ==> (1u32 << nb) >= 1) by (bit_vector);
    }
    let mask = p - 1;
    (number >> start_position) & mask
}

/// Check whether a value is prime by trial division.
fn is_prime_exec(p: u64) -> (r: bool)
    ensures
        r == is_prime(p as int),
{
    if p < 2 {
        proof {
            assert(!is_prime(p as int));
        }
        return false;
    }
    let mut d: u64 = 2;
    while d < p
        invariant
            2 <= d <= p,
            forall|k: int| 2 <= k < d ==> #[trigger] ((p as int) % k) != 0,
        decreases p - d,
    {
        if p % d == 0 {
            proof {
                lemma_divisor_witness(p as int, 2, d as int);
            }
            return false;
        }
        d = d + 1;
    }
    proof {
        if has_divisor_at_least(p as int, 2) {
            lemma_has_divisor_gives_witness(p as int, 2);
        }
    }
    true
}

proof fn lemma_has_divisor_gives_witness(p: int, d: int)
    requires
        2 <= d,
        has_divisor_at_least(p, d),
    ensures
        exists|w: int| d <= w < p && #[trigger] (p % w) == 0,
    decreases p - d,
{
    if p > d && p % d != 0 {
        lemma_has_divisor_gives_witness(p, d + 1);
    }
}

/// The n-th prime number, counting from one: 2 is the first. For an input of
/// zero the result is one, which is what a pointer allocation for the main
/// line multiplies by. A result of zero reports that the search space of
/// 32-bit values holds fewer than `n` primes, which cannot arise for the
/// counter values a single game can produce.
pub fn nth_prime_number(n: u32) -> (r: u32)
    ensures
        n == 0 ==> r == 1,
        n >= 1 && r != 0 ==> is_prime(r as int) && prime_count(r as int) == n,
        n >= 1 && r == 0 ==> prime_count(u32::MAX as int) < n,
{
    if n == 0 {
        return 1;
    }
    let mut candidate: u32 = 1;
    let mut count: u32 = 0;
    while count < n
        invariant
            1 <= candidate,
            count <= n,
            prime_count(candidate as int) == count,
            count == n ==> is_prime(candidate as int),
        decreases u32::MAX - candidate, n - count,
    {
        if candidate == u32::MAX {
            proof {
                lemma_prime_count_monotone(candidate as int, u32::MAX as int);
            }
            return 0;
        }
        candidate = candidate + 1;
        if is_prime_exec(candidate as u64) {
            count = count + 1;
        }
    }
    candidate
}

/// How a memory amount written as a number with a unit fails to parse.
#[derive(Debug, Clone, Copy, PartialEq, Eq, Structural)]
pub enum ParseMemoryError {
    InvalidFormat,
    UnknownUnit,
}

/// Numeric value of a digit sequence.
pub open spec fn spec_digits_value(s: Seq<u8>) -> int
    decreases s.len(),
{
    if s.len() == 0 {
        0
    } else {
        spec_digits_value(s.drop_last()) * 10 + (s.last() - 0x30)
    }
}

pub open spec fn spec_all_digits(s: Seq<u8>) -> bool {
    forall|i: int| 0 <= i < s.len() ==> 0x30 <= #[trigger] s[i] <= 0x39
}

/// Index of the first byte that is not a decimal digit.
pub open spec fn spec_first_non_digit(s: Seq<u8>, from: int) -> int
    decreases s.len() - from,
{
    if from < 0 || from >= s.len() {
        s.len() as int
    } else if 0x30 <= s[from] <= 0x39 {
        spec_first_non_digit(s, from + 1)
    } else {
        from
    }
}

/// Bytes-to-bytes multiplier for a memory unit suffix.
pub open spec fn spec_unit_factor(s: Seq<u8>) -> Option<u64> {
    if s == "G"@.map(|_i, c: char| c as u8) || s == "GB"@.map(|_i, c: char| c as u8) {
        Some(0x40000000u64)
    } else if s == "M"@.map(|_i, c: char| c as u8) || s == "MB"@.map(|_i, c: char| c as u8) {
        Some(0x100000u64)
    } else if s == "K"@.map(|_i, c: char| c as u8) || s == "KB"@.map(|_i, c: char| c as u8) {
        Some(0x400u64)
    } else {
        None
    }
}

fn unit_factor(s: &[u8]) -> (r: Option<u64>)
    ensures
        r == spec_unit_factor(s@),
{
    proof {
        reveal_strlit("G");
        reveal_strlit("GB");
        reveal_strlit("M");
        reveal_strlit("MB");
        reveal_strlit("K");
        reveal_strlit("KB");
    }
    let r = if s.len() == 1 {
        match s[0] {
            0x47 => Some(0x40000000u64),
            0x4D => Some(0x100000u64),
            0x4B => Some(0x400u64),
            _ => None,
        }
    } else if s.len() == 2 && s[1] == 0x42 {
        match s[0] {
            0x47 => Some(0x40000000u64),
            0x4D => Some(0x100000u64),
            0x4B => Some(0x400u64),
            _ => None,
        }
    } else {
        None
    };
    proof {
        let gs = "G"@.map(|_i, c: char| c as u8);
        let gbs = "GB"@.map(|_i, c: char| c as u8);
        let ms = "M"@.map(|_i, c: char| c as u8);
        let mbs = "MB"@.map(|_i, c: char| c as u8);
        let ks = "K"@.map(|_i, c: char| c as u8);
        let kbs = "KB"@.map(|_i, c: char| c as u8);
        assert(gs.len() == 1 && gs[0] == 0x47);
        assert(gbs.len() == 2 && gbs[0] == 0x47 && gbs[1] == 0x42);
        assert(ms.len() == 1 && ms[0] == 0x4D);
        assert(mbs.len() == 2 && mbs[0] == 0x4D && mbs[1] == 0x42);
        assert(ks.len() == 1 && ks[0] == 0x4B);
        assert(kbs.len() == 2 && kbs[0] == 0x4B && kbs[1] == 0x42);
        if s@.len() == 1 {
            if s@[0] == 0x47 {
                assert(s@ =~= gs);
            } else if s@[0] == 0x4D {
                assert(s@ =~= ms);
            } else if s@[0] == 0x4B {
                assert(s@ =~= ks);
            }
        } else if s@.len() == 2 && s@[1] == 0x42 {
            if s@[0] == 0x47 {
                assert(s@ =~= gbs);
            } else if s@[0] == 0x4D {
                assert(s@ =~= mbs);
            } else if s@[0] == 0x4B {
                assert(s@ =~= kbs);
            }
        }
    }
    r
}

/// Ten to the given power.
pub open spec fn pow10(n: nat) -> int
    decreases n,
{
    if n == 0 {
        1
    } else {
        10 * pow10((n - 1) as nat)
    }
}

proof fn lemma_pow10_increases(a: nat, b: nat)
    requires
        a <= b,
    ensures
        pow10(a) <= pow10(b),
        pow10(a) >= 1,
    decreases b,
{
    if a == 0 && b > 0 {
        lemma_pow10_increases(0, (b - 1) as nat);
    } else if a > 0 {
        lemma_pow10_increases((a - 1) as nat, (b - 1) as nat);
    }
}

proof fn lemma_digits_value_bound(s: Seq<u8>)
    requires
        spec_all_digits(s),
    ensures
        0 <= spec_digits_value(s),
        spec_digits_value(s) < pow10(s.len()),
    decreases s.len(),
{
    lemma_pow10_increases(0, s.len());
    if s.len() > 0 {
        lemma_digits_value_bound(s.drop_last());
    }
}

/// Parse a memory amount such as `2GB`, `512M` or `1024KB` into bytes.
/// The leading digit run (at most 15 digits) gives the number, and the rest
/// of the input must be a recognised unit; a missing unit or a missing
/// number is rejected, as is a product that does not fit in 64 bits.
pub fn parse_memory_amount(s: &[u8]) -> (r: Result<u64, ParseMemoryError>)
    ensures
        ({
            let d = spec_first_non_digit(s@, 0);
            let num = spec_digits_value(s@.take(d));
            &&& (d == 0 || d >= s@.len() || d > 15) ==> r == Err::<u64, ParseMemoryError>(
                ParseMemoryError::InvalidFormat,
            )
            &&& (0 < d < s@.len() && d <= 15) ==> match spec_unit_factor(s@.skip(d)) {
                Some(f) => if num * f <= u64::MAX {
                    r == Ok::<u64, ParseMemoryError>((num * f) as u64)
                } else {
                    r == Err::<u64, ParseMemoryError>(ParseMemoryError::InvalidFormat)
                },
                None => r == Err::<u64, ParseMemoryError>(ParseMemoryError::UnknownUnit),
            }
        }),
{
    let ghost d = spec_first_non_digit(s@, 0);
    let mut i: usize = 0;
    while i < s.len() && 0x30 <= s[i] && s[i] <= 0x39
        invariant
            0 <= i <= s@.len(),
            forall|k: int| 0 <= k < i ==> 0x30 <= #[trigger] s@[k] <= 0x39,
            spec_first_non_digit(s@, i as int) == d,
        decreases s@.len() - i,
    {
        i = i + 1;
    }
    proof {
        assert(d == i);
    }
    if i == 0 || i == s.len() || i > 15 {
        return Err(ParseMemoryError::InvalidFormat);
    }
    let mut value: u64 = 0;
    let mut j: usize = 0;
    while j < i
        invariant
            0 <= j <= i <= 15,
            i < s@.len(),
            forall|k: int| 0 <= k < i ==> 0x30 <= #[trigger] s@[k] <= 0x39,
            value == spec_digits_value(s@.take(j as int)),
            value < 0x38D7EA4C68000,  // 10^15
        decreases i - j,
    {
        proof {
            assert(s@.take(j + 1).drop_last() =~= s@.take(j as int));
            assert(s@.take(j + 1).last() == s@[j as int]);
            lemma_digits_value_bound(s@.take(j + 1));
            lemma_pow10_increases((j + 1) as nat, 15);
            reveal_with_fuel(pow10, 17);
            assert(pow10(15) == 0x38D7EA4C68000);
        }
        value = value * 10 + ((s[j] - 0x30) as u64);
        j = j + 1;
    }
    proof {
        assert(spec_all_digits(s@.take(i as int)));
    }
    let rest = vstd::slice::slice_subrange(s, i, s.len());
    assert(rest@ =~= s@.skip(i as int));
    match unit_factor(rest) {
        Some(f) => {
            if value <= u64::MAX / f {
                proof {
                    assert(value * f <= (u64::MAX / f) * f <= u64::MAX) by (nonlinear_arith)
                        requires
                            1 <= f <= 0x40000000u64,
                            value <= u64::MAX / f,
                    ;
                }
                Ok(value * f)
            } else {
                proof {
                    assert(value * f > u64::MAX) by (nonlinear_arith)
                        requires
                            1 <= f,
                            value > u64::MAX / f,
                            u64::MAX == 0xFFFF_FFFF_FFFF_FFFFu64,
                    ;
                }
                Err(ParseMemoryError::InvalidFormat)
            }
        },
        None => Err(ParseMemoryError::UnknownUnit),
    }
}

/// A digit sequence's value is never negative.
pub proof fn lemma_digits_value_nonneg(s: Seq<u8>)
    requires
        spec_all_digits(s),
    ensures
        spec_digits_value(s) >= 0,
    decreases s.len(),
{
    if s.len() > 0 {
        assert(spec_all_digits(s.drop_last()));
        lemma_digits_value_nonneg(s.drop_last());
    }
}

/// The first-non-digit position sits between `from` and the length, and
/// everything before it is a digit.
pub proof fn lemma_first_non_digit_props(s: Seq<u8>, from: int)
    requires
        0 <= from <= s.len(),
    ensures
        from <= spec_first_non_digit(s, from) <= s.len(),
        forall|k: int|
            from <= k < spec_first_non_digit(s, from) ==> 0x30 <= #[trigger] s[k] <= 0x39,
    decreases s.len() - from,
{
    if from < s.len() && 0x30 <= s[from] <= 0x39 {
        lemma_first_non_digit_props(s, from + 1);
    }
}

/// A mutable handle on one element of a vector.
pub fn vec_index_mut<T>(v: &mut Vec<T>, i: usize) -> (element: &mut T)
    requires
        i < old(v)@.len(),
    ensures
        *element == old(v)@[i as int],
        final(v)@ == old(v)@.update(i as int, *final(element)),
{
    &mut v[i]
}

} // verus!
