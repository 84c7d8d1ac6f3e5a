//! Arithmetic in GF(2^8) with the Rijndael reducing polynomial
//! x^8 + x^4 + x^3 + x + 1 (0x11B).
use vstd::prelude::*;

use crate::error::TpeaError;

verus! {

/// Addition: bitwise XOR.
pub open spec fn gf_add_spec(a: u8, b: u8) -> u8 {
    a ^ b
}

/// Subtraction: `a - b`, which in characteristic 2 is again bitwise XOR.
pub open spec fn gf_sub_spec(a: u8, b: u8) -> u8 {
    a ^ b
}

/// Multiplication by x: shift left and reduce by 0x11B when bit 7 overflows.
pub open spec fn xtime(x: u8) -> u8 {
    (x << 1u8) ^ (((x >> 7u8) * 0x1Bu8) as u8)
}

/// `v` when bit `i` of `b` is set, else zero.
pub open spec fn select_bit(b: u8, i: u8, v: u8) -> u8 {
    if (b >> i) & 1u8 == 1u8 {
        v
    } else {
        0u8
    }
}

/// The field product: the sum of `a * x^i` over the bits `i` set in `b`.
pub open spec fn gf_mul_spec(a: u8, b: u8) -> u8 {
    select_bit(b, 0, a)
        ^ select_bit(b, 1, xtime(a))
        ^ select_bit(b, 2, xtime(xtime(a)))
        ^ select_bit(b, 3, xtime(xtime(xtime(a))))
        ^ select_bit(b, 4, xtime(xtime(xtime(xtime(a)))))
        ^ select_bit(b, 5, xtime(xtime(xtime(xtime(xtime(a))))))
        ^ select_bit(b, 6, xtime(xtime(xtime(xtime(xtime(xtime(a)))))))
        ^ select_bit(b, 7, xtime(xtime(xtime(xtime(xtime(xtime(xtime(a))))))))
}

/// What `rounds` further rounds of shift-and-add produce from the state `(p, a, b)`.
pub open spec fn peasant(p: u8, a: u8, b: u8, rounds: nat) -> u8
    decreases rounds,
{
    if rounds == 0 {
        p
    } else {
        peasant(
            if b & 1u8 != 0 { p ^ a } else { p },
            xtime(a),
            b >> 1u8,
            (rounds - 1) as nat,
        )
    }
}

/// Square-and-multiply: `r * base^e`, in the order the loop of `gf_inv` takes.
pub open spec fn pow_acc(r: u8, base: u8, e: u8) -> u8
    decreases e,
{
    if e == 0 {
        r
    } else {
        pow_acc(
            if e % 2 == 1 { gf_mul_spec(r, base) } else { r },
            gf_mul_spec(base, base),
            e / 2,
        )
    }
}

/// `a^254`, which is the inverse of every nonzero `a` (and 0 for 0).
pub open spec fn gf_inv_spec(a: u8) -> u8 {
    pow_acc(1, a, 254)
}

/// Division: multiplication by the inverse.
pub open spec fn gf_div_spec(a: u8, b: u8) -> u8 {
    gf_mul_spec(a, gf_inv_spec(b))
}

#[verifier::rlimit(100)]
proof fn lemma_peasant_closed(a: u8, b: u8)
    ensures
        peasant(0, a, b, 8) == gf_mul_spec(a, b),
{
    reveal_with_fuel(peasant, 9);
    let p1 = if b & 1u8 != 0 { 0u8 ^ a } else { 0u8 };
    let a1 = xtime(a);
    let b1 = b >> 1u8;
    let p2 = if b1 & 1u8 != 0 { p1 ^ a1 } else { p1 };
    let a2 = xtime(a1);
    let b2 = b1 >> 1u8;
    let p3 = if b2 & 1u8 != 0 { p2 ^ a2 } else { p2 };
    let a3 = xtime(a2);
    let b3 = b2 >> 1u8;
    let p4 = if b3 & 1u8 != 0 { p3 ^ a3 } else { p3 };
    let a4 = xtime(a3);
    let b4 = b3 >> 1u8;
    let p5 = if b4 & 1u8 != 0 { p4 ^ a4 } else { p4 };
    let a5 = xtime(a4);
    let b5 = b4 >> 1u8;
    let p6 = if b5 & 1u8 != 0 { p5 ^ a5 } else { p5 };
    let a6 = xtime(a5);
    let b6 = b5 >> 1u8;
    let p7 = if b6 & 1u8 != 0 { p6 ^ a6 } else { p6 };
    let a7 = xtime(a6);
    let b7 = b6 >> 1u8;
    let p8 = if b7 & 1u8 != 0 { p7 ^ a7 } else { p7 };
    assert(peasant(0, a, b, 8) == p8);
    assert(p8 == gf_mul_spec(a, b)) by (bit_vector)
        requires
            p1 == (if b & 1u8 != 0 { 0u8 ^ a } else { 0u8 }),
            a1 == xtime(a),
            b1 == b >> 1u8,
            p2 == (if b1 & 1u8 != 0 { p1 ^ a1 } else { p1 }),
            a2 == xtime(a1),
            b2 == b1 >> 1u8,
            p3 == (if b2 & 1u8 != 0 { p2 ^ a2 } else { p2 }),
            a3 == xtime(a2),
            b3 == b2 >> 1u8,
            p4 == (if b3 & 1u8 != 0 { p3 ^ a3 } else { p3 }),
            a4 == xtime(a3),
            b4 == b3 >> 1u8,
            p5 == (if b4 & 1u8 != 0 { p4 ^ a4 } else { p4 }),
            a5 == xtime(a4),
            b5 == b4 >> 1u8,
            p6 == (if b5 & 1u8 != 0 { p5 ^ a5 } else { p5 }),
            a6 == xtime(a5),
            b6 == b5 >> 1u8,
            p7 == (if b6 & 1u8 != 0 { p6 ^ a6 } else { p6 }),
            a7 == xtime(a6),
            b7 == b6 >> 1u8,
            p8 == (if b7 & 1u8 != 0 { p7 ^ a7 } else { p7 }),
    ;
}

/// Squaring, which is linear in characteristic 2: the sum of `x^(2i)` over the
/// bits `i` set in `x`.
pub open spec fn square_lin(x: u8) -> u8 {
    select_bit(x, 0, 0x01u8) ^ select_bit(x, 1, 0x04u8) ^ select_bit(x, 2, 0x10u8) ^ select_bit(
        x,
        3,
        0x40u8,
    ) ^ select_bit(x, 4, 0x1Bu8) ^ select_bit(x, 5, 0x6Cu8) ^ select_bit(x, 6, 0xABu8)
        ^ select_bit(x, 7, 0x9Au8)
}

proof fn lemma_square_lin(x: u8)
    ensures
        gf_mul_spec(x, x) == square_lin(x),
{
    assert(gf_mul_spec(x, x) == square_lin(x)) by (bit_vector);
}

proof fn lemma_mul_one(x: u8)
    ensures
        gf_mul_spec(1u8, x) == x,
{
    assert(gf_mul_spec(1u8, x) == x) by (bit_vector);
}

/// The square-and-multiply chain for `a^254` ends in the inverse of `a`, checked
/// for eight values of `a` at a time.
#[verifier::rlimit(100)]
proof fn lemma_inverse_chain(
    a: u8,
    b1: u8,
    r1: u8,
    b2: u8,
    r2: u8,
    b3: u8,
    r3: u8,
    b4: u8,
    r4: u8,
    b5: u8,
    r5: u8,
    b6: u8,
    r6: u8,
    b7: u8,
    r7: u8,
)
    requires
        a != 0,
        b1 == square_lin(a),
        r1 == b1,
        b2 == square_lin(b1),
        r2 == gf_mul_spec(r1, b2),
        b3 == square_lin(b2),
        r3 == gf_mul_spec(r2, b3),
        b4 == square_lin(b3),
        r4 == gf_mul_spec(r3, b4),
        b5 == square_lin(b4),
        r5 == gf_mul_spec(r4, b5),
        b6 == square_lin(b5),
        r6 == gf_mul_spec(r5, b6),
        b7 == square_lin(b6),
        r7 == gf_mul_spec(r6, b7),
    ensures
        gf_mul_spec(a, r7) == 1,
{
    assert(a >> 3u8 < 32u8) by (bit_vector);
    if a >> 3u8 == 0u8 {
        assert(gf_mul_spec(a, r7) == 1u8) by (bit_vector)
            requires
                a != 0u8,
                a >> 3u8 == 0u8,
                b1 == square_lin(a),
                r1 == b1,
                b2 == square_lin(b1),
                r2 == gf_mul_spec(r1, b2),
                b3 == square_lin(b2),
                r3 == gf_mul_spec(r2, b3),
                b4 == square_lin(b3),
                r4 == gf_mul_spec(r3, b4),
                b5 == square_lin(b4),
                r5 == gf_mul_spec(r4, b5),
                b6 == square_lin(b5),
                r6 == gf_mul_spec(r5, b6),
                b7 == square_lin(b6),
                r7 == gf_mul_spec(r6, b7),
        ;
    }
    if a >> 3u8 == 1u8 {
        assert(gf_mul_spec(a, r7) == 1u8) by (bit_vector)
            requires
                a != 0u8,
                a >> 3u8 == 1u8,
                b1 == square_lin(a),
                r1 == b1,
                b2 == square_lin(b1),
                r2 == gf_mul_spec(r1, b2),
                b3 == square_lin(b2),
                r3 == gf_mul_spec(r2, b3),
                b4 == square_lin(b3),
                r4 == gf_mul_spec(r3, b4),
                b5 == square_lin(b4),
                r5 == gf_mul_spec(r4, b5),
                b6 == square_lin(b5),
                r6 == gf_mul_spec(r5, b6),
                b7 == square_lin(b6),
                r7 == gf_mul_spec(r6, b7),
        ;
    }
    if a >> 3u8 == 2u8 {
        assert(gf_mul_spec(a, r7) == 1u8) by (bit_vector)
            requires
                a != 0u8,
                a >> 3u8 == 2u8,
                b1 == square_lin(a),
                r1 == b1,
                b2 == square_lin(b1),
                r2 == gf_mul_spec(r1, b2),
                b3 == square_lin(b2),
                r3 == gf_mul_spec(r2, b3),
                b4 == square_lin(b3),
                r4 == gf_mul_spec(r3, b4),
                b5 == square_lin(b4),
                r5 == gf_mul_spec(r4, b5),
                b6 == square_lin(b5),
                r6 == gf_mul_spec(r5, b6),
                b7 == square_lin(b6),
                r7 == gf_mul_spec(r6, b7),
        ;
    }
    if a >> 3u8 == 3u8 {
        assert(gf_mul_spec(a, r7) == 1u8) by (bit_vector)
            requires
                a != 0u8,
                a >> 3u8 == 3u8,
                b1 == square_lin(a),
                r1 == b1,
                b2 == square_lin(b1),
                r2 == gf_mul_spec(r1, b2),
                b3 == square_lin(b2),
                r3 == gf_mul_spec(r2, b3),
                b4 == square_lin(b3),
                r4 == gf_mul_spec(r3, b4),
                b5 == square_lin(b4),
                r5 == gf_mul_spec(r4, b5),
                b6 == square_lin(b5),
                r6 == gf_mul_spec(r5, b6),
                b7 == square_lin(b6),
                r7 == gf_mul_spec(r6, b7),
        ;
    }
    if a >> 3u8 == 4u8 {
        assert(gf_mul_spec(a, r7) == 1u8) by (bit_vector)
            requires
                a != 0u8,
                a >> 3u8 == 4u8,
                b1 == square_lin(a),
                r1 == b1,
                b2 == square_lin(b1),
                r2 == gf_mul_spec(r1, b2),
                b3 == square_lin(b2),
                r3 == gf_mul_spec(r2, b3),
                b4 == square_lin(b3),
                r4 == gf_mul_spec(r3, b4),
                b5 == square_lin(b4),
                r5 == gf_mul_spec(r4, b5),
                b6 == square_lin(b5),
                r6 == gf_mul_spec(r5, b6),
                b7 == square_lin(b6),
                r7 == gf_mul_spec(r6, b7),
        ;
    }
    if a >> 3u8 == 5u8 {
        assert(gf_mul_spec(a, r7) == 1u8) by (bit_vector)
            requires
                a != 0u8,
                a >> 3u8 == 5u8,
                b1 == square_lin(a),
                r1 == b1,
                b2 == square_lin(b1),
                r2 == gf_mul_spec(r1, b2),
                b3 == square_lin(b2),
                r3 == gf_mul_spec(r2, b3),
                b4 == square_lin(b3),
                r4 == gf_mul_spec(r3, b4),
                b5 == square_lin(b4),
                r5 == gf_mul_spec(r4, b5),
                b6 == square_lin(b5),
                r6 == gf_mul_spec(r5, b6),
                b7 == square_lin(b6),
                r7 == gf_mul_spec(r6, b7),
        ;
    }
    if a >> 3u8 == 6u8 {
        assert(gf_mul_spec(a, r7) == 1u8) by (bit_vector)
            requires
                a != 0u8,
                a >> 3u8 == 6u8,
                b1 == square_lin(a),
                r1 == b1,
                b2 == square_lin(b1),
                r2 == gf_mul_spec(r1, b2),
                b3 == square_lin(b2),
                r3 == gf_mul_spec(r2, b3),
                b4 == square_lin(b3),
                r4 == gf_mul_spec(r3, b4),
                b5 == square_lin(b4),
                r5 == gf_mul_spec(r4, b5),
                b6 == square_lin(b5),
                r6 == gf_mul_spec(r5, b6),
                b7 == square_lin(b6),
                r7 == gf_mul_spec(r6, b7),
        ;
    }
    if a >> 3u8 == 7u8 {
        assert(gf_mul_spec(a, r7) == 1u8) by (bit_vector)
            requires
                a != 0u8,
                a >> 3u8 == 7u8,
                b1 == square_lin(a),
                r1 == b1,
                b2 == square_lin(b1),
                r2 == gf_mul_spec(r1, b2),
                b3 == square_lin(b2),
                r3 == gf_mul_spec(r2, b3),
                b4 == square_lin(b3),
                r4 == gf_mul_spec(r3, b4),
                b5 == square_lin(b4),
                r5 == gf_mul_spec(r4, b5),
                b6 == square_lin(b5),
                r6 == gf_mul_spec(r5, b6),
                b7 == square_lin(b6),
                r7 == gf_mul_spec(r6, b7),
        ;
    }
    if a >> 3u8 == 8u8 {
        assert(gf_mul_spec(a, r7) == 1u8) by (bit_vector)
            requires
                a != 0u8,
                a >> 3u8 == 8u8,
                b1 == square_lin(a),
                r1 == b1,
                b2 == square_lin(b1),
                r2 == gf_mul_spec(r1, b2),
                b3 == square_lin(b2),
                r3 == gf_mul_spec(r2, b3),
                b4 == square_lin(b3),
                r4 == gf_mul_spec(r3, b4),
                b5 == square_lin(b4),
                r5 == gf_mul_spec(r4, b5),
                b6 == square_lin(b5),
                r6 == gf_mul_spec(r5, b6),
                b7 == square_lin(b6),
                r7 == gf_mul_spec(r6, b7),
        ;
    }
    if a >> 3u8 == 9u8 {
        assert(gf_mul_spec(a, r7) == 1u8) by (bit_vector)
            requires
                a != 0u8,
                a >> 3u8 == 9u8,
                b1 == square_lin(a),
                r1 == b1,
                b2 == square_lin(b1),
                r2 == gf_mul_spec(r1, b2),
                b3 == square_lin(b2),
                r3 == gf_mul_spec(r2, b3),
                b4 == square_lin(b3),
                r4 == gf_mul_spec(r3, b4),
                b5 == square_lin(b4),
                r5 == gf_mul_spec(r4, b5),
                b6 == square_lin(b5),
                r6 == gf_mul_spec(r5, b6),
                b7 == square_lin(b6),
                r7 == gf_mul_spec(r6, b7),
        ;
    }
    if a >> 3u8 == 10u8 {
        assert(gf_mul_spec(a, r7) == 1u8) by (bit_vector)
            requires
                a != 0u8,
                a >> 3u8 == 10u8,
                b1 == square_lin(a),
                r1 == b1,
                b2 == square_lin(b1),
                r2 == gf_mul_spec(r1, b2),
                b3 == square_lin(b2),
                r3 == gf_mul_spec(r2, b3),
                b4 == square_lin(b3),
                r4 == gf_mul_spec(r3, b4),
                b5 == square_lin(b4),
                r5 == gf_mul_spec(r4, b5),
                b6 == square_lin(b5),
                r6 == gf_mul_spec(r5, b6),
                b7 == square_lin(b6),
                r7 == gf_mul_spec(r6, b7),
        ;
    }
    if a >> 3u8 == 11u8 {
        assert(gf_mul_spec(a, r7) == 1u8) by (bit_vector)
            requires
                a != 0u8,
                a >> 3u8 == 11u8,
                b1 == square_lin(a),
                r1 == b1,
                b2 == square_lin(b1),
                r2 == gf_mul_spec(r1, b2),
                b3 == square_lin(b2),
                r3 == gf_mul_spec(r2, b3),
                b4 == square_lin(b3),
                r4 == gf_mul_spec(r3, b4),
                b5 == square_lin(b4),
                r5 == gf_mul_spec(r4, b5),
                b6 == square_lin(b5),
                r6 == gf_mul_spec(r5, b6),
                b7 == square_lin(b6),
                r7 == gf_mul_spec(r6, b7),
        ;
    }
    if a >> 3u8 == 12u8 {
        assert(gf_mul_spec(a, r7) == 1u8) by (bit_vector)
            requires
                a != 0u8,
                a >> 3u8 == 12u8,
                b1 == square_lin(a),
                r1 == b1,
                b2 == square_lin(b1),
                r2 == gf_mul_spec(r1, b2),
                b3 == square_lin(b2),
                r3 == gf_mul_spec(r2, b3),
                b4 == square_lin(b3),
                r4 == gf_mul_spec(r3, b4),
                b5 == square_lin(b4),
                r5 == gf_mul_spec(r4, b5),
                b6 == square_lin(b5),
                r6 == gf_mul_spec(r5, b6),
                b7 == square_lin(b6),
                r7 == gf_mul_spec(r6, b7),
        ;
    }
    if a >> 3u8 == 13u8 {
        assert(gf_mul_spec(a, r7) == 1u8) by (bit_vector)
            requires
                a != 0u8,
                a >> 3u8 == 13u8,
                b1 == square_lin(a),
                r1 == b1,
                b2 == square_lin(b1),
                r2 == gf_mul_spec(r1, b2),
                b3 == square_lin(b2),
                r3 == gf_mul_spec(r2, b3),
                b4 == square_lin(b3),
                r4 == gf_mul_spec(r3, b4),
                b5 == square_lin(b4),
                r5 == gf_mul_spec(r4, b5),
                b6 == square_lin(b5),
                r6 == gf_mul_spec(r5, b6),
                b7 == square_lin(b6),
                r7 == gf_mul_spec(r6, b7),
        ;
    }
    if a >> 3u8 == 14u8 {
        assert(gf_mul_spec(a, r7) == 1u8) by (bit_vector)
            requires
                a != 0u8,
                a >> 3u8 == 14u8,
                b1 == square_lin(a),
                r1 == b1,
                b2 == square_lin(b1),
                r2 == gf_mul_spec(r1, b2),
                b3 == square_lin(b2),
                r3 == gf_mul_spec(r2, b3),
                b4 == square_lin(b3),
                r4 == gf_mul_spec(r3, b4),
                b5 == square_lin(b4),
                r5 == gf_mul_spec(r4, b5),
                b6 == square_lin(b5),
                r6 == gf_mul_spec(r5, b6),
                b7 == square_lin(b6),
                r7 == gf_mul_spec(r6, b7),
        ;
    }
    if a >> 3u8 == 15u8 {
        assert(gf_mul_spec(a, r7) == 1u8) by (bit_vector)
            requires
                a != 0u8,
                a >> 3u8 == 15u8,
                b1 == square_lin(a),
                r1 == b1,
                b2 == square_lin(b1),
                r2 == gf_mul_spec(r1, b2),
                b3 == square_lin(b2),
                r3 == gf_mul_spec(r2, b3),
                b4 == square_lin(b3),
                r4 == gf_mul_spec(r3, b4),
                b5 == square_lin(b4),
                r5 == gf_mul_spec(r4, b5),
                b6 == square_lin(b5),
                r6 == gf_mul_spec(r5, b6),
                b7 == square_lin(b6),
                r7 == gf_mul_spec(r6, b7),
        ;
    }
    if a >> 3u8 == 16u8 {
        assert(gf_mul_spec(a, r7) == 1u8) by (bit_vector)
            requires
                a != 0u8,
                a >> 3u8 == 16u8,
                b1 == square_lin(a),
                r1 == b1,
                b2 == square_lin(b1),
                r2 == gf_mul_spec(r1, b2),
                b3 == square_lin(b2),
                r3 == gf_mul_spec(r2, b3),
                b4 == square_lin(b3),
                r4 == gf_mul_spec(r3, b4),
                b5 == square_lin(b4),
                r5 == gf_mul_spec(r4, b5),
                b6 == square_lin(b5),
                r6 == gf_mul_spec(r5, b6),
                b7 == square_lin(b6),
                r7 == gf_mul_spec(r6, b7),
        ;
    }
    if a >> 3u8 == 17u8 {
        assert(gf_mul_spec(a, r7) == 1u8) by (bit_vector)
            requires
                a != 0u8,
                a >> 3u8 == 17u8,
                b1 == square_lin(a),
                r1 == b1,
                b2 == square_lin(b1),
                r2 == gf_mul_spec(r1, b2),
                b3 == square_lin(b2),
                r3 == gf_mul_spec(r2, b3),
                b4 == square_lin(b3),
                r4 == gf_mul_spec(r3, b4),
                b5 == square_lin(b4),
                r5 == gf_mul_spec(r4, b5),
                b6 == square_lin(b5),
                r6 == gf_mul_spec(r5, b6),
                b7 == square_lin(b6),
                r7 == gf_mul_spec(r6, b7),
        ;
    }
    if a >> 3u8 == 18u8 {
        assert(gf_mul_spec(a, r7) == 1u8) by (bit_vector)
            requires
                a != 0u8,
                a >> 3u8 == 18u8,
                b1 == square_lin(a),
                r1 == b1,
                b2 == square_lin(b1),
                r2 == gf_mul_spec(r1, b2),
                b3 == square_lin(b2),
                r3 == gf_mul_spec(r2, b3),
                b4 == square_lin(b3),
                r4 == gf_mul_spec(r3, b4),
                b5 == square_lin(b4),
                r5 == gf_mul_spec(r4, b5),
                b6 == square_lin(b5),
                r6 == gf_mul_spec(r5, b6),
                b7 == square_lin(b6),
                r7 == gf_mul_spec(r6, b7),
        ;
    }
    if a >> 3u8 == 19u8 {
        assert(gf_mul_spec(a, r7) == 1u8) by (bit_vector)
            requires
                a != 0u8,
                a >> 3u8 == 19u8,
                b1 == square_lin(a),
                r1 == b1,
                b2 == square_lin(b1),
                r2 == gf_mul_spec(r1, b2),
                b3 == square_lin(b2),
                r3 == gf_mul_spec(r2, b3),
                b4 == square_lin(b3),
                r4 == gf_mul_spec(r3, b4),
                b5 == square_lin(b4),
                r5 == gf_mul_spec(r4, b5),
                b6 == square_lin(b5),
                r6 == gf_mul_spec(r5, b6),
                b7 == square_lin(b6),
                r7 == gf_mul_spec(r6, b7),
        ;
    }
    if a >> 3u8 == 20u8 {
        assert(gf_mul_spec(a, r7) == 1u8) by (bit_vector)
            requires
                a != 0u8,
                a >> 3u8 == 20u8,
                b1 == square_lin(a),
                r1 == b1,
                b2 == square_lin(b1),
                r2 == gf_mul_spec(r1, b2),
                b3 == square_lin(b2),
                r3 == gf_mul_spec(r2, b3),
                b4 == square_lin(b3),
                r4 == gf_mul_spec(r3, b4),
                b5 == square_lin(b4),
                r5 == gf_mul_spec(r4, b5),
                b6 == square_lin(b5),
                r6 == gf_mul_spec(r5, b6),
                b7 == square_lin(b6),
                r7 == gf_mul_spec(r6, b7),
        ;
    }
    if a >> 3u8 == 21u8 {
        assert(gf_mul_spec(a, r7) == 1u8) by (bit_vector)
            requires
                a != 0u8,
                a >> 3u8 == 21u8,
                b1 == square_lin(a),
                r1 == b1,
                b2 == square_lin(b1),
                r2 == gf_mul_spec(r1, b2),
                b3 == square_lin(b2),
                r3 == gf_mul_spec(r2, b3),
                b4 == square_lin(b3),
                r4 == gf_mul_spec(r3, b4),
                b5 == square_lin(b4),
                r5 == gf_mul_spec(r4, b5),
                b6 == square_lin(b5),
                r6 == gf_mul_spec(r5, b6),
                b7 == square_lin(b6),
                r7 == gf_mul_spec(r6, b7),
        ;
    }
    if a >> 3u8 == 22u8 {
        assert(gf_mul_spec(a, r7) == 1u8) by (bit_vector)
            requires
                a != 0u8,
                a >> 3u8 == 22u8,
                b1 == square_lin(a),
                r1 == b1,
                b2 == square_lin(b1),
                r2 == gf_mul_spec(r1, b2),
                b3 == square_lin(b2),
                r3 == gf_mul_spec(r2, b3),
                b4 == square_lin(b3),
                r4 == gf_mul_spec(r3, b4),
                b5 == square_lin(b4),
                r5 == gf_mul_spec(r4, b5),
                b6 == square_lin(b5),
                r6 == gf_mul_spec(r5, b6),
                b7 == square_lin(b6),
                r7 == gf_mul_spec(r6, b7),
        ;
    }
    if a >> 3u8 == 23u8 {
        assert(gf_mul_spec(a, r7) == 1u8) by (bit_vector)
            requires
                a != 0u8,
                a >> 3u8 == 23u8,
                b1 == square_lin(a),
                r1 == b1,
                b2 == square_lin(b1),
                r2 == gf_mul_spec(r1, b2),
                b3 == square_lin(b2),
                r3 == gf_mul_spec(r2, b3),
                b4 == square_lin(b3),
                r4 == gf_mul_spec(r3, b4),
                b5 == square_lin(b4),
                r5 == gf_mul_spec(r4, b5),
                b6 == square_lin(b5),
                r6 == gf_mul_spec(r5, b6),
                b7 == square_lin(b6),
                r7 == gf_mul_spec(r6, b7),
        ;
    }
    if a >> 3u8 == 24u8 {
        assert(gf_mul_spec(a, r7) == 1u8) by (bit_vector)
            requires
                a != 0u8,
                a >> 3u8 == 24u8,
                b1 == square_lin(a),
                r1 == b1,
                b2 == square_lin(b1),
                r2 == gf_mul_spec(r1, b2),
                b3 == square_lin(b2),
                r3 == gf_mul_spec(r2, b3),
                b4 == square_lin(b3),
                r4 == gf_mul_spec(r3, b4),
                b5 == square_lin(b4),
                r5 == gf_mul_spec(r4, b5),
                b6 == square_lin(b5),
                r6 == gf_mul_spec(r5, b6),
                b7 == square_lin(b6),
                r7 == gf_mul_spec(r6, b7),
        ;
    }
    if a >> 3u8 == 25u8 {
        assert(gf_mul_spec(a, r7) == 1u8) by (bit_vector)
            requires
                a != 0u8,
                a >> 3u8 == 25u8,
                b1 == square_lin(a),
                r1 == b1,
                b2 == square_lin(b1),
                r2 == gf_mul_spec(r1, b2),
                b3 == square_lin(b2),
                r3 == gf_mul_spec(r2, b3),
                b4 == square_lin(b3),
                r4 == gf_mul_spec(r3, b4),
                b5 == square_lin(b4),
                r5 == gf_mul_spec(r4, b5),
                b6 == square_lin(b5),
                r6 == gf_mul_spec(r5, b6),
                b7 == square_lin(b6),
                r7 == gf_mul_spec(r6, b7),
        ;
    }
    if a >> 3u8 == 26u8 {
        assert(gf_mul_spec(a, r7) == 1u8) by (bit_vector)
            requires
                a != 0u8,
                a >> 3u8 == 26u8,
                b1 == square_lin(a),
                r1 == b1,
                b2 == square_lin(b1),
                r2 == gf_mul_spec(r1, b2),
                b3 == square_lin(b2),
                r3 == gf_mul_spec(r2, b3),
                b4 == square_lin(b3),
                r4 == gf_mul_spec(r3, b4),
                b5 == square_lin(b4),
                r5 == gf_mul_spec(r4, b5),
                b6 == square_lin(b5),
                r6 == gf_mul_spec(r5, b6),
                b7 == square_lin(b6),
                r7 == gf_mul_spec(r6, b7),
        ;
    }
    if a >> 3u8 == 27u8 {
        assert(gf_mul_spec(a, r7) == 1u8) by (bit_vector)
            requires
                a != 0u8,
                a >> 3u8 == 27u8,
                b1 == square_lin(a),
                r1 == b1,
                b2 == square_lin(b1),
                r2 == gf_mul_spec(r1, b2),
                b3 == square_lin(b2),
                r3 == gf_mul_spec(r2, b3),
                b4 == square_lin(b3),
                r4 == gf_mul_spec(r3, b4),
                b5 == square_lin(b4),
                r5 == gf_mul_spec(r4, b5),
                b6 == square_lin(b5),
                r6 == gf_mul_spec(r5, b6),
                b7 == square_lin(b6),
                r7 == gf_mul_spec(r6, b7),
        ;
    }
    if a >> 3u8 == 28u8 {
        assert(gf_mul_spec(a, r7) == 1u8) by (bit_vector)
            requires
                a != 0u8,
                a >> 3u8 == 28u8,
                b1 == square_lin(a),
                r1 == b1,
                b2 == square_lin(b1),
                r2 == gf_mul_spec(r1, b2),
                b3 == square_lin(b2),
                r3 == gf_mul_spec(r2, b3),
                b4 == square_lin(b3),
                r4 == gf_mul_spec(r3, b4),
                b5 == square_lin(b4),
                r5 == gf_mul_spec(r4, b5),
                b6 == square_lin(b5),
                r6 == gf_mul_spec(r5, b6),
                b7 == square_lin(b6),
                r7 == gf_mul_spec(r6, b7),
        ;
    }
    if a >> 3u8 == 29u8 {
        assert(gf_mul_spec(a, r7) == 1u8) by (bit_vector)
            requires
                a != 0u8,
                a >> 3u8 == 29u8,
                b1 == square_lin(a),
                r1 == b1,
                b2 == square_lin(b1),
                r2 == gf_mul_spec(r1, b2),
                b3 == square_lin(b2),
                r3 == gf_mul_spec(r2, b3),
                b4 == square_lin(b3),
                r4 == gf_mul_spec(r3, b4),
                b5 == square_lin(b4),
                r5 == gf_mul_spec(r4, b5),
                b6 == square_lin(b5),
                r6 == gf_mul_spec(r5, b6),
                b7 == square_lin(b6),
                r7 == gf_mul_spec(r6, b7),
        ;
    }
    if a >> 3u8 == 30u8 {
        assert(gf_mul_spec(a, r7) == 1u8) by (bit_vector)
            requires
                a != 0u8,
                a >> 3u8 == 30u8,
                b1 == square_lin(a),
                r1 == b1,
                b2 == square_lin(b1),
                r2 == gf_mul_spec(r1, b2),
                b3 == square_lin(b2),
                r3 == gf_mul_spec(r2, b3),
                b4 == square_lin(b3),
                r4 == gf_mul_spec(r3, b4),
                b5 == square_lin(b4),
                r5 == gf_mul_spec(r4, b5),
                b6 == square_lin(b5),
                r6 == gf_mul_spec(r5, b6),
                b7 == square_lin(b6),
                r7 == gf_mul_spec(r6, b7),
        ;
    }
    if a >> 3u8 == 31u8 {
        assert(gf_mul_spec(a, r7) == 1u8) by (bit_vector)
            requires
                a != 0u8,
                a >> 3u8 == 31u8,
                b1 == square_lin(a),
                r1 == b1,
                b2 == square_lin(b1),
                r2 == gf_mul_spec(r1, b2),
                b3 == square_lin(b2),
                r3 == gf_mul_spec(r2, b3),
                b4 == square_lin(b3),
                r4 == gf_mul_spec(r3, b4),
                b5 == square_lin(b4),
                r5 == gf_mul_spec(r4, b5),
                b6 == square_lin(b5),
                r6 == gf_mul_spec(r5, b6),
                b7 == square_lin(b6),
                r7 == gf_mul_spec(r6, b7),
        ;
    }
}

/// Every nonzero element times its inverse is one.
pub proof fn lemma_mul_inverse(a: u8)
    requires
        a != 0,
    ensures
        gf_mul_spec(a, gf_inv_spec(a)) == 1,
{
    reveal_with_fuel(pow_acc, 10);
    let b1 = gf_mul_spec(a, a);
    let r1 = gf_mul_spec(1u8, b1);
    let b2 = gf_mul_spec(b1, b1);
    let r2 = gf_mul_spec(r1, b2);
    let b3 = gf_mul_spec(b2, b2);
    let r3 = gf_mul_spec(r2, b3);
    let b4 = gf_mul_spec(b3, b3);
    let r4 = gf_mul_spec(r3, b4);
    let b5 = gf_mul_spec(b4, b4);
    let r5 = gf_mul_spec(r4, b5);
    let b6 = gf_mul_spec(b5, b5);
    let r6 = gf_mul_spec(r5, b6);
    let b7 = gf_mul_spec(b6, b6);
    let r7 = gf_mul_spec(r6, b7);
    assert(gf_inv_spec(a) == r7);
    lemma_square_lin(a);
    lemma_mul_one(b1);
    lemma_square_lin(b1);
    lemma_square_lin(b2);
    lemma_square_lin(b3);
    lemma_square_lin(b4);
    lemma_square_lin(b5);
    lemma_square_lin(b6);
    lemma_inverse_chain(a, b1, r1, b2, r2, b3, r3, b4, r4, b5, r5, b6, r6, b7, r7);
}

/// Multiplication is commutative.
pub proof fn lemma_mul_commutative(a: u8, b: u8)
    ensures
        gf_mul_spec(a, b) == gf_mul_spec(b, a),
{
    assert(gf_mul_spec(a, b) == gf_mul_spec(b, a)) by (bit_vector);
}

/// Multiplication distributes over addition.
pub proof fn lemma_mul_distributes(a: u8, b: u8, c: u8)
    ensures
        gf_mul_spec(a, b ^ c) == gf_mul_spec(a, b) ^ gf_mul_spec(a, c),
{
    assert(gf_mul_spec(a, b ^ c) == gf_mul_spec(a, b) ^ gf_mul_spec(a, c)) by (bit_vector);
}

/// Addition and subtraction coincide.
pub proof fn lemma_add_is_sub(a: u8, b: u8)
    ensures
        gf_add_spec(a, b) == gf_sub_spec(a, b),
{
}

/// Field addition: bitwise XOR.
pub fn gf_add(a: u8, b: u8) -> (r: u8)
    ensures
        r == gf_add_spec(a, b),
{
    a ^ b
}

/// Field subtraction: identical to addition in characteristic 2.
pub fn gf_sub(a: u8, b: u8) -> (r: u8)
    ensures
        r == gf_sub_spec(a, b),
{
    a ^ b
}

/// Field multiplication by eight rounds of shift-and-add (peasant multiplication).
pub fn gf_mul(a: u8, b: u8) -> (r: u8)
    ensures
        r == gf_mul_spec(a, b),
{
    let mut p: u8 = 0;
    let mut a_val: u8 = a;
    let mut b_val: u8 = b;
    let mut round: u8 = 0;
    while round < 8
        invariant
            round <= 8,
            peasant(p, a_val, b_val, (8 - round) as nat) == peasant(0, a, b, 8),
        decreases 8 - round,
    {
        if (b_val & 1) != 0 {
            p = p ^ a_val;
        }
        let ghost old_a = a_val;
        let carry = (a_val & 0x80) != 0;
        a_val = a_val << 1u8;
        if carry {
            a_val = a_val ^ 0x1B;
        }
        assert(a_val == xtime(old_a)) by (bit_vector)
            requires
                carry == (old_a & 0x80u8 != 0),
                carry ==> a_val == (old_a << 1u8) ^ 0x1Bu8,
                !carry ==> a_val == old_a << 1u8,
        ;
        b_val = b_val >> 1u8;
        round = round + 1;
    }
    proof {
        lemma_peasant_closed(a, b);
    }
    p
}

/// `a^254` by square-and-multiply; the inverse of `a` for nonzero `a`.
pub(crate) fn gf_pow254(a: u8) -> (r: u8)
    ensures
        r == gf_inv_spec(a),
{
    let mut result: u8 = 1;
    let mut base: u8 = a;
    let mut exp: u8 = 0xFF - 1;
    while exp > 0
        invariant
            pow_acc(result, base, exp) == gf_inv_spec(a),
        decreases exp,
    {
        if exp % 2 == 1 {
            result = gf_mul(result, base);
        }
        base = gf_mul(base, base);
        exp = exp / 2;
    }
    result
}

/// Multiplicative inverse; zero has none.
pub fn gf_inv(a: u8) -> (r: Result<u8, TpeaError>)
    ensures
        a == 0 ==> r == Err::<u8, TpeaError>(TpeaError::DivideByZero),
        a != 0 ==> r == Ok::<u8, TpeaError>(gf_inv_spec(a)),
        a != 0 ==> gf_mul_spec(a, r->Ok_0) == 1,
{
    if a == 0 {
        return Err(TpeaError::DivideByZero);
    }
    proof {
        lemma_mul_inverse(a);
    }
    Ok(gf_pow254(a))
}

/// Field division `a / b`; division by zero fails.
pub fn gf_div(a: u8, b: u8) -> (r: Result<u8, TpeaError>)
    ensures
        b == 0 ==> r == Err::<u8, TpeaError>(TpeaError::DivideByZero),
        b != 0 ==> r == Ok::<u8, TpeaError>(gf_div_spec(a, b)),
{
    match gf_inv(b) {
        Ok(ib) => Ok(gf_mul(a, ib)),
        Err(e) => Err(e),
    }
}

} // verus!
