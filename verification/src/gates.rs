//! Combinational gate primitives on 16-bit words: bit accessors, the nand
//! family, a multiplexer, and a ripple-carry adder built from full adders.

use vstd::prelude::*;

verus! {

/// Bit `i` of `w`, counting from the least significant bit.
pub open spec fn bit16(w: u16, i: u16) -> bool {
    (w >> i) & 1 == 1
}

pub fn get_bit(a: u16, i: usize) -> (r: bool)
    requires
        i < 16,
    ensures
        r == bit16(a, i as u16),
{
    let s: u16 = i as u16;
    let r = (a >> s) & 1 != 0;
    assert(((a >> s) & 1 != 0) == ((a >> s) & 1 == 1)) by (bit_vector);
    r
}

pub fn set_bit(a: u16, i: usize, value: bool) -> (r: u16)
    requires
        i < 16,
    ensures
        forall|j: u16| j < 16 ==> bit16(r, j) == if j == i as u16 { value } else { bit16(a, j) },
{
    let s: u16 = i as u16;
    if value {
        let r = a | (1u16 << s);
        assert(forall|j: u16|
            j < 16 ==> bit16(a | (1u16 << s), j) == if j == s { true } else { bit16(a, j) })
            by (bit_vector)
            requires
                s < 16,
        ;
        r
    } else {
        let r = a & !(1u16 << s);
        assert(forall|j: u16|
            j < 16 ==> bit16(a & !(1u16 << s), j) == if j == s { false } else { bit16(a, j) })
            by (bit_vector)
            requires
                s < 16,
        ;
        r
    }
}

pub fn nand16(a: u16, b: u16) -> (r: u16)
    ensures
        r == !(a & b),
{
    !(a & b)
}

pub fn not16(a: u16) -> (r: u16)
    ensures
        r == !a,
{
    let r = nand16(a, a);
    assert(!(a & a) == !a) by (bit_vector);
    r
}

pub fn and16(a: u16, b: u16) -> (r: u16)
    ensures
        r == a & b,
{
    let r = not16(nand16(a, b));
    assert(!(!(a & b)) == a & b) by (bit_vector);
    r
}

pub fn or16(a: u16, b: u16) -> (r: u16)
    ensures
        r == a | b,
{
    let r = nand16(not16(a), not16(b));
    assert(!(!a & !b) == a | b) by (bit_vector);
    r
}

pub fn xor16(a: u16, b: u16) -> (r: u16)
    ensures
        r == a ^ b,
{
    let r = nand16(nand16(nand16(a, b), a), nand16(nand16(a, b), b));
    assert(!(!(!(a & b) & a) & !(!(a & b) & b)) == a ^ b) by (bit_vector);
    r
}

/// Returns `a` when `sel` is asserted, `b` otherwise.
pub fn mux16(a: u16, b: u16, sel: bool) -> (r: u16)
    ensures
        r == if sel { a } else { b },
{
    if sel {
        a
    } else {
        b
    }
}

pub fn half_adder(a: bool, b: bool) -> (r: (bool, bool))
    ensures
        r.0 == (a != b),
        r.1 == (a && b),
{
    let sum = a ^ b;
    let carry = a && b;
    (sum, carry)
}

pub fn full_adder(a: bool, b: bool, carry_in: bool) -> (r: (bool, bool))
    ensures
        r.0 == ((a != b) != carry_in),
        r.1 == ((a && b) || (a && carry_in) || (b && carry_in)),
{
    let (sum1, carry1) = half_adder(a, b);
    let (sum2, carry2) = half_adder(sum1, carry_in);
    let carry_out = carry1 || carry2;
    (sum2, carry_out)
}

/// One step of the ripple-carry argument, over `u32` so that no intermediate
/// sum overflows: if the low `i` bits of `a` and `b` sum to `result` plus a
/// carry out of bit `i - 1`, the same holds for `i + 1` bits after one
/// full-adder step on bit `i`.
proof fn lemma_ripple_step(a: u32, b: u32, result: u32, i: u32, c: u32, sum: u32, cnext: u32)
    by (bit_vector)
    requires
        i < 16,
        a < 0x10000,
        b < 0x10000,
        result < (1u32 << i),
        c <= 1,
        (a & (((1u32 << i) - 1) as u32)) + (b & (((1u32 << i) - 1) as u32)) == result + (c << i),
        sum == (((a >> i) & 1) + ((b >> i) & 1) + c) % 2,
        cnext == (((a >> i) & 1) + ((b >> i) & 1) + c) / 2,
    ensures
        cnext <= 1,
        sum <= 1,
        sum == 0 ==> (sum << i) == 0u32,
        result + (sum << i) < (1u32 << ((i + 1) as u32)),
        result | (sum << i) == result + (sum << i),
        (a & (((1u32 << ((i + 1) as u32)) - 1) as u32)) + (b & (((1u32 << ((i + 1) as u32)) - 1) as u32)) == result + (sum << i) + (
        cnext << (i + 1)),
{
}

/// Ripple-carry addition: sixteen chained full adders. The carry out of the
/// highest bit is dropped, so the sum wraps modulo 2^16.
pub fn add16(a: u16, b: u16) -> (r: u16)
    ensures
        r == (a + b) % 0x10000,
{
    let mut carry: bool = false;
    let mut result: u16 = 0x0000;

    proof {
        let ga = a as u32;
        let gb = b as u32;
        assert((1u32 << 0u32) == 1 && (ga & (((1u32 << 0u32) - 1) as u32)) == 0 && (gb & (((1u32
            << 0u32) - 1) as u32)) == 0 && (0u32 << 0u32) == 0u32) by (bit_vector);
    }

    for i in 0..16
        invariant
            (result as u32) < (1u32 << (i as u32)),
            ((a as u32) & (((1u32 << (i as u32)) - 1) as u32)) + ((b as u32) & (((1u32 << (i as u32)) - 1) as u32))
                == (result as u32) + ((if carry {
                1u32
            } else {
                0u32
            }) << (i as u32)),
    {
        let a_bit = get_bit(a, i);
        let b_bit = get_bit(b, i);

        let (sum, carry_next) = full_adder(a_bit, b_bit, carry);

        let ghost gi = i as u32;
        let ghost gc: u32 = if carry {
            1
        } else {
            0
        };
        let ghost gabit: u32 = if a_bit {
            1
        } else {
            0
        };
        let ghost gbbit: u32 = if b_bit {
            1
        } else {
            0
        };
        let ghost gsum: u32 = if sum {
            1
        } else {
            0
        };
        let ghost gcn: u32 = if carry_next {
            1
        } else {
            0
        };
        let ghost prev = result;

        proof {
            assert(((((a as u32) >> gi) & 1) == 1) == bit16(a, i as u16) && (((a as u32) >> gi) & 1)
                <= 1 && ((((b as u32) >> gi) & 1) == 1) == bit16(b, i as u16) && (((b as u32) >> gi)
                & 1) <= 1) by (bit_vector)
                requires
                    gi < 16,
                    gi == i as u32,
                    i < 16usize,
            ;
            assert(gabit == ((a as u32) >> gi) & 1);
            assert(gbbit == ((b as u32) >> gi) & 1);
            assert(gsum == (gabit + gbbit + gc) % 2);
            assert(gcn == (gabit + gbbit + gc) / 2);
            lemma_ripple_step(a as u32, b as u32, prev as u32, gi, gc, gsum, gcn);
        }
        carry = carry_next;

        if sum {
            result = result | (1u16 << (i as u16));
            proof {
                assert((prev | (1u16 << (gi as u16))) as u32 == (prev as u32) | (1u32 << gi))
                    by (bit_vector)
                    requires
                        gi < 16,
                ;
                assert(gsum == 1 ==> (gsum << gi) == (1u32 << gi)) by (bit_vector);
            }
        }
    }
    proof {
        let ga = a as u32;
        let gb = b as u32;
        let gc: u32 = if carry {
            1
        } else {
            0
        };
        assert((ga & (((1u32 << 16) - 1) as u32)) == ga && (gb & (((1u32 << 16) - 1) as u32)) == gb && (gc << 16)
            == gc * 0x10000) by (bit_vector)
            requires
                ga < 0x10000,
                gb < 0x10000,
                gc <= 1,
        ;
        assert(result == (a + b) % 0x10000) by (nonlinear_arith)
            requires
                a + b == result + gc * 0x10000,
                result < 0x10000,
                gc <= 1,
        ;
    }
    result
}

pub fn inc16(a: u16) -> (r: u16)
    ensures
        r == (a + 1) % 0x10000,
{
    add16(a, 0b1)
}

} // verus!
