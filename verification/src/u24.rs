use vstd::prelude::*;

verus! {

/// Unsigned 24-bit integer: the wire representation of every encoded move or
/// pseudo-move entry. Stored as three little-endian bytes, so every value of
/// this type is valid by construction (no invariant beyond the fields).
///
/// Arithmetic is defined by widening to 32 bits, operating, and narrowing back.
/// Narrowing a 32-bit value whose top byte is non-zero is a contract violation;
/// here that check is unconditional: each operation requires that its result
/// fits in 24 bits, and `from_u32` requires a value below 2^24.
#[allow(non_camel_case_types)]
#[derive(Copy, Clone, Debug, PartialEq, Eq, PartialOrd, Ord, Structural)]
pub struct u24(pub u8, pub u8, pub u8);

impl View for u24 {
    type V = u32;

    open spec fn view(&self) -> u32 {
        (self.0 as int + self.1 as int * 0x100 + self.2 as int * 0x10000) as u32
    }
}

/// Number of ones among the low `bits` bits of `n`.
pub open spec fn spec_count_ones(n: u32, bits: nat) -> nat
    decreases bits,
{
    if bits == 0 {
        0
    } else {
        (n & 1) as nat + spec_count_ones(n >> 1, (bits - 1) as nat)
    }
}

/// Number of zeros below the lowest set bit, looking at the low `bits` bits.
pub open spec fn spec_trailing_zeros(n: u32, bits: nat) -> nat
    decreases bits,
{
    if bits == 0 {
        0
    } else if n & 1 == 1 {
        0
    } else {
        1 + spec_trailing_zeros(n >> 1, (bits - 1) as nat)
    }
}

pub proof fn lemma_count_ones_bounded(n: u32, bits: nat)
    ensures
        spec_count_ones(n, bits) <= bits,
    decreases bits,
{
    if bits > 0 {
        assert((n & 1) as nat <= 1) by (bit_vector);
        lemma_count_ones_bounded(n >> 1, (bits - 1) as nat);
    }
}

impl u24 {
    /// The value held, as a 32-bit integer with zero top byte.
    pub fn to_u32(self) -> (r: u32)
        ensures
            r == self@,
            r < 0x1000000,
    {
        self.0 as u32 + self.1 as u32 * 0x100 + self.2 as u32 * 0x10000
    }

    /// Narrow a 32-bit value. The top byte must be zero; the check is a
    /// static precondition rather than a debug assertion.
    pub fn from_u32(n: u32) -> (r: u24)
        requires
            n < 0x1000000,
        ensures
            r@ == n,
    {
        let b0 = n % 0x100;
        let q = n / 0x100;
        let b1 = q % 0x100;
        let b2 = q / 0x100;
        u24(b0 as u8, b1 as u8, b2 as u8)
    }

    /// Widening addition; the sum must fit in 24 bits.
    pub fn add(self, rhs: u24) -> (r: u24)
        requires
            self@ + rhs@ < 0x1000000,
        ensures
            r@ == self@ + rhs@,
    {
        u24::from_u32(self.to_u32() + rhs.to_u32())
    }

    /// Widening subtraction; the difference must not go below zero.
    pub fn sub(self, rhs: u24) -> (r: u24)
        requires
            rhs@ <= self@,
        ensures
            r@ == self@ - rhs@,
    {
        u24::from_u32(self.to_u32() - rhs.to_u32())
    }

    /// Widening multiplication; the product must fit in 24 bits.
    pub fn mul(self, rhs: u24) -> (r: u24)
        requires
            self@ * rhs@ < 0x1000000,
        ensures
            r@ == self@ * rhs@,
    {
        u24::from_u32(self.to_u32() * rhs.to_u32())
    }

    /// Division by a non-zero value.
    pub fn div(self, rhs: u24) -> (r: u24)
        requires
            rhs@ != 0,
        ensures
            r@ == self@ as int / rhs@ as int,
    {
        let q = self.to_u32() / rhs.to_u32();
        proof {
            assert(self@ as int / rhs@ as int <= self@ as int) by (nonlinear_arith)
                requires
                    rhs@ >= 1,
                    self@ >= 0,
            ;
        }
        u24::from_u32(q)
    }

    /// Remainder of division by a non-zero value.
    pub fn rem(self, rhs: u24) -> (r: u24)
        requires
            rhs@ != 0,
        ensures
            r@ == self@ as int % rhs@ as int,
    {
        u24::from_u32(self.to_u32() % rhs.to_u32())
    }

    /// Left shift; the shifted value must still fit in 24 bits.
    pub fn shl(self, rhs: u24) -> (r: u24)
        requires
            rhs@ < 24,
            (self@ << rhs@) < 0x1000000,
        ensures
            r@ == (self@ << rhs@),
    {
        let s = self.to_u32();
        let sh = rhs.to_u32();
        let v = s << sh;
        u24::from_u32(v)
    }

    /// Right shift by fewer than 32 positions.
    pub fn shr(self, rhs: u24) -> (r: u24)
        requires
            rhs@ < 32,
        ensures
            r@ == (self@ >> rhs@),
    {
        let s = self.to_u32();
        let sh = rhs.to_u32();
        let v = s >> sh;
        proof {
            let a = self@;
            let b = rhs@;
            assert(a < 0x1000000 && b < 32 ==> (a >> b) < 0x1000000) by (bit_vector);
        }
        u24::from_u32(v)
    }

    /// Bitwise and.
    pub fn bitand(self, rhs: u24) -> (r: u24)
        ensures
            r@ == (self@ & rhs@),
    {
        let v = self.to_u32() & rhs.to_u32();
        proof {
            let a = self@;
            let b = rhs@;
            assert(a < 0x1000000 && b < 0x1000000 ==> (a & b) < 0x1000000) by (bit_vector);
        }
        u24::from_u32(v)
    }

    /// Bitwise or.
    pub fn bitor(self, rhs: u24) -> (r: u24)
        ensures
            r@ == (self@ | rhs@),
    {
        let v = self.to_u32() | rhs.to_u32();
        proof {
            let a = self@;
            let b = rhs@;
            assert(a < 0x1000000 && b < 0x1000000 ==> (a | b) < 0x1000000) by (bit_vector);
        }
        u24::from_u32(v)
    }

    /// Bitwise exclusive or.
    pub fn bitxor(self, rhs: u24) -> (r: u24)
        ensures
            r@ == (self@ ^ rhs@),
    {
        let v = self.to_u32() ^ rhs.to_u32();
        proof {
            let a = self@;
            let b = rhs@;
            assert(a < 0x1000000 && b < 0x1000000 ==> (a ^ b) < 0x1000000) by (bit_vector);
        }
        u24::from_u32(v)
    }

    /// Bitwise complement over the 24 significant bits.
    pub fn not(self) -> (r: u24)
        ensures
            r@ == (self@ ^ 0xFFFFFF),
    {
        let v = self.to_u32() ^ 0xFFFFFF;
        proof {
            let a = self@;
            assert(a < 0x1000000 ==> (a ^ 0xFFFFFF) < 0x1000000) by (bit_vector);
        }
        u24::from_u32(v)
    }

    /// Population count over the 24 significant bits.
    pub fn count_ones(self) -> (r: u32)
        ensures
            r == spec_count_ones(self@, 24),
    {
        let mut n = self.to_u32();
        let mut count: u32 = 0;
        let mut i: u32 = 0;
        while i < 24
            invariant
                i <= 24,
                count + spec_count_ones(n, (24 - i) as nat) == spec_count_ones(self@, 24),
                count <= i,
            decreases 24 - i,
        {
            proof {
                assert((n & 1) <= 1) by (bit_vector);
            }
            count = count + (n & 1);
            n = n >> 1;
            i = i + 1;
        }
        proof {
            assert(spec_count_ones(n, 0) == 0);
        }
        count
    }

    /// Number of zero bits among the 24 significant bits.
    pub fn count_zeros(self) -> (r: u32)
        ensures
            r == 24 - spec_count_ones(self@, 24),
    {
        proof {
            lemma_count_ones_bounded(self@, 24);
        }
        24 - self.count_ones()
    }

    /// Number of zero bits below the lowest set bit; 24 for the zero value.
    pub fn trailing_zeroes(self) -> (r: u32)
        ensures
            r == spec_trailing_zeros(self@, 24),
    {
        let mut n = self.to_u32();
        let mut count: u32 = 0;
        let mut i: u32 = 0;
        while i < 24
            invariant
                i <= 24,
                count == i,
                spec_trailing_zeros(self@, 24) == if n & 1 == 1 || i == 24 {
                    count as nat
                } else {
                    count as nat + spec_trailing_zeros(n, (24 - i) as nat)
                },
            decreases 24 - i,
        {
            if n & 1 == 1 {
                return count;
            }
            n = n >> 1;
            count = count + 1;
            i = i + 1;
        }
        count
    }
}

/// Decimal digits of a value, most significant first.
pub open spec fn spec_decimal(n: int) -> Seq<u8>
    decreases n,
{
    if n < 10 {
        seq![(0x30 + if n >= 0 { n } else { 0 }) as u8]
    } else {
        spec_decimal(n / 10).push((0x30 + n % 10) as u8)
    }
}

/// The low `width` bits of a value as binary digits, most significant first.
pub open spec fn spec_bits(n: int, width: nat) -> Seq<u8>
    decreases width,
{
    if width == 0 {
        Seq::empty()
    } else {
        spec_bits(n / 2, (width - 1) as nat).push((0x30 + if n >= 0 { n % 2 } else { 0 }) as u8)
    }
}

fn push_decimal(out: &mut Vec<u8>, n: u32)
    ensures
        final(out)@ == old(out)@ + spec_decimal(n as int),
    decreases n,
{
    if n < 10 {
        out.push(0x30 + (n as u8));
        proof {
            assert(final(out)@ =~= old(out)@ + spec_decimal(n as int));
        }
    } else {
        push_decimal(out, n / 10);
        out.push(0x30 + ((n % 10) as u8));
        proof {
            assert(final(out)@ =~= old(out)@ + spec_decimal(n as int));
        }
    }
}

fn push_bits(out: &mut Vec<u8>, n: u32, width: u32)
    ensures
        final(out)@ == old(out)@ + spec_bits(n as int, width as nat),
    decreases width,
{
    if width == 0 {
        proof {
            assert(final(out)@ =~= old(out)@ + spec_bits(n as int, 0));
        }
    } else {
        push_bits(out, n / 2, width - 1);
        out.push(0x30 + ((n % 2) as u8));
        proof {
            assert(final(out)@ =~= old(out)@ + spec_bits(n as int, width as nat));
        }
    }
}

impl u24 {
    /// The value written in decimal.
    pub fn render_decimal(self) -> (r: Vec<u8>)
        ensures
            r@ == spec_decimal(self@ as int),
    {
        let mut out: Vec<u8> = Vec::new();
        push_decimal(&mut out, self.to_u32());
        proof {
            assert(Seq::<u8>::empty() + spec_decimal(self@ as int) =~= spec_decimal(
                self@ as int,
            ));
        }
        out
    }

    /// The value written in binary, all 24 bits behind a `0b` prefix.
    pub fn render_binary(self) -> (r: Vec<u8>)
        ensures
            r@ == seq![0x30u8, 0x62u8] + spec_bits(self@ as int, 24),
    {
        let mut out: Vec<u8> = Vec::new();
        out.push(0x30);
        out.push(0x62);
        proof {
            assert(out@ =~= seq![0x30u8, 0x62u8]);
        }
        push_bits(&mut out, self.to_u32(), 24);
        out
    }

    /// The four-field breakdown matching the bit layout: destination,
    /// origin, piece nibble and flags byte, space separated.
    pub fn render_fields(self) -> (r: Vec<u8>)
        ensures
            r@ == spec_bits((self@ / 0x40000) as int, 6) + seq![0x20u8] + spec_bits(
                ((self@ as int / 0x1000) % 0x40) as int,
                6,
            ) + seq![0x20u8] + spec_bits(((self@ as int / 0x100) % 0x10) as int, 4) + seq![0x20u8]
                + spec_bits((self@ % 0x100) as int, 8),
    {
        let v = self.to_u32();
        let mut out: Vec<u8> = Vec::new();
        push_bits(&mut out, v / 0x40000, 6);
        let ghost s1 = out@;
        out.push(0x20);
        push_bits(&mut out, (v / 0x1000) % 0x40, 6);
        let ghost s2 = out@;
        out.push(0x20);
        push_bits(&mut out, (v / 0x100) % 0x10, 4);
        let ghost s3 = out@;
        out.push(0x20);
        push_bits(&mut out, v % 0x100, 8);
        proof {
            assert(out@ =~= spec_bits((self@ / 0x40000) as int, 6) + seq![0x20u8] + spec_bits(
                ((self@ as int / 0x1000) % 0x40) as int,
                6,
            ) + seq![0x20u8] + spec_bits(((self@ as int / 0x100) % 0x10) as int, 4) + seq![0x20u8]
                + spec_bits((self@ % 0x100) as int, 8));
        }
        out
    }
}

impl u24 {
    /// In-place variants of the widening operations, under the same
    /// preconditions as their pure forms.
    pub fn add_assign(&mut self, rhs: u24)
        requires
            old(self)@ + rhs@ < 0x1000000,
        ensures
            final(self)@ == old(self)@ + rhs@,
    {
        *self = self.add(rhs);
    }

    pub fn sub_assign(&mut self, rhs: u24)
        requires
            rhs@ <= old(self)@,
        ensures
            final(self)@ == old(self)@ - rhs@,
    {
        *self = self.sub(rhs);
    }

    pub fn mul_assign(&mut self, rhs: u24)
        requires
            old(self)@ * rhs@ < 0x1000000,
        ensures
            final(self)@ == old(self)@ * rhs@,
    {
        *self = self.mul(rhs);
    }

    pub fn div_assign(&mut self, rhs: u24)
        requires
            rhs@ != 0,
        ensures
            final(self)@ == old(self)@ as int / rhs@ as int,
    {
        *self = self.div(rhs);
    }

    pub fn rem_assign(&mut self, rhs: u24)
        requires
            rhs@ != 0,
        ensures
            final(self)@ == old(self)@ as int % rhs@ as int,
    {
        *self = self.rem(rhs);
    }

    pub fn shl_assign(&mut self, rhs: u24)
        requires
            rhs@ < 24,
            (old(self)@ << rhs@) < 0x1000000,
        ensures
            final(self)@ == (old(self)@ << rhs@),
    {
        *self = self.shl(rhs);
    }

    pub fn shr_assign(&mut self, rhs: u24)
        requires
            rhs@ < 32,
        ensures
            final(self)@ == (old(self)@ >> rhs@),
    {
        *self = self.shr(rhs);
    }

    pub fn bitand_assign(&mut self, rhs: u24)
        ensures
            final(self)@ == (old(self)@ & rhs@),
    {
        *self = self.bitand(rhs);
    }

    pub fn bitor_assign(&mut self, rhs: u24)
        ensures
            final(self)@ == (old(self)@ | rhs@),
    {
        *self = self.bitor(rhs);
    }

    pub fn bitxor_assign(&mut self, rhs: u24)
        ensures
            final(self)@ == (old(self)@ ^ rhs@),
    {
        *self = self.bitxor(rhs);
    }
}

} // verus!
