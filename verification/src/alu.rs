//! The 16-bit ALU: a six-flag control word applied to two operands in a fixed
//! order, producing a value together with zero and negative flags.

use crate::gates::{add16, and16, bit16, not16};
use vstd::prelude::*;

verus! {

/// The ALU control word. The flags are applied in declaration order: zero x,
/// negate x, zero y, negate y, select the function (add when set, bitwise and
/// when clear), negate the output.
pub struct AluFlags {
    pub zx: bool,
    pub nx: bool,
    pub zy: bool,
    pub ny: bool,
    pub f: bool,
    pub no: bool,
}

/// The functional composition that defines the ALU output word.
pub open spec fn alu_out(x: u16, y: u16, flags: AluFlags) -> u16 {
    let x1 = if flags.zx {
        0u16
    } else {
        x
    };
    let x2 = if flags.nx {
        !x1
    } else {
        x1
    };
    let y1 = if flags.zy {
        0u16
    } else {
        y
    };
    let y2 = if flags.ny {
        !y1
    } else {
        y1
    };
    let o = if flags.f {
        ((x2 + y2) % 0x10000) as u16
    } else {
        x2 & y2
    };
    if flags.no {
        !o
    } else {
        o
    }
}

/// Applies `flags` to `x` and `y`. Returns the output word together with the
/// zero flag (the output is zero) and the negative flag (bit 15 of the output,
/// the sign under two's-complement reading).
pub fn alu(mut x: u16, mut y: u16, flags: AluFlags) -> (r: (u16, bool, bool))
    ensures
        r.0 == alu_out(x, y, flags),
        r.1 == (r.0 == 0),
        r.2 == bit16(r.0, 15),
{
    proof {
        assert(forall|w: u16| #[trigger] (w & 0u16) == 0u16) by (bit_vector);
    }
    if flags.zx {
        x = and16(x, 0x0000);
    }
    if flags.nx {
        x = not16(x);
    }
    if flags.zy {
        y = and16(y, 0x0000);
    }
    if flags.ny {
        y = not16(y);
    }

    let mut out: u16;
    if flags.f {
        out = add16(x, y);
    } else {
        out = and16(x, y);
    }
    if flags.no {
        out = not16(out);
    }

    let zr = out == 0;
    let ng = (out & 0x8000) != 0;
    assert(((out & 0x8000) != 0) == bit16(out, 15)) by (bit_vector);

    (out, zr, ng)
}

} // verus!
