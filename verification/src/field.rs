//! The prime field the engine constrains over.
//!
//! Elements are residues modulo `FIELD_ORDER`, a Mersenne prime small enough
//! that sums and products fit comfortably in machine words. The engine only
//! needs the additive identity, addition, subtraction, multiplication,
//! negation and equality; no division is required.

use vstd::prelude::*;

verus! {

use vstd::arithmetic::div_mod::{lemma_fundamental_div_mod_converse, lemma_mod_bound};

/// Order of the field: the Mersenne prime 2^31 - 1.
pub const FIELD_ORDER: u64 = 2147483647;

/// Mathematical addition in the field.
pub open spec fn fadd(a: int, b: int) -> int {
    (a + b) % (FIELD_ORDER as int)
}

/// Mathematical multiplication in the field.
pub open spec fn fmul(a: int, b: int) -> int {
    (a * b) % (FIELD_ORDER as int)
}

/// Mathematical negation in the field.
pub open spec fn fneg(a: int) -> int {
    (FIELD_ORDER - a) % (FIELD_ORDER as int)
}

/// A field element: a residue in `0 .. FIELD_ORDER`.
#[derive(Clone, Copy, Debug, PartialEq, Eq, Structural, Hash, Default)]
pub struct Fe {
    v: u64,
}

impl Fe {
    /// The residue this element stands for.
    pub closed spec fn val(self) -> int {
        self.v as int
    }

    /// Every element the library hands out is reduced.
    #[verifier::type_invariant]
    pub open spec fn inv(self) -> bool {
        self.wf()
    }

    /// The residue is reduced.
    pub open spec fn wf(self) -> bool {
        0 <= self.val() < FIELD_ORDER
    }

    /// The additive identity.
    pub fn zero() -> (r: Fe)
        ensures
            r.wf(),
            r.val() == 0,
    {
        Fe { v: 0 }
    }

    /// The multiplicative identity.
    pub fn one() -> (r: Fe)
        ensures
            r.wf(),
            r.val() == 1,
    {
        Fe { v: 1 }
    }

    /// The element standing for `x`, reduced modulo the field order.
    pub fn from_u64(x: u64) -> (r: Fe)
        ensures
            r.wf(),
            r.val() == x as int % (FIELD_ORDER as int),
    {
        proof {
            lemma_mod_bound(x as int, FIELD_ORDER as int);
        }
        Fe { v: x % FIELD_ORDER }
    }

    /// Field addition.
    pub fn add(self, other: Fe) -> (r: Fe)
        requires
            self.wf(),
            other.wf(),
        ensures
            r.wf(),
            r.val() == fadd(self.val(), other.val()),
    {
        let s: u64 = self.v + other.v;
        if s >= FIELD_ORDER {
            proof {
                lemma_fundamental_div_mod_converse(
                    s as int,
                    FIELD_ORDER as int,
                    1,
                    s - FIELD_ORDER,
                );
            }
            Fe { v: s - FIELD_ORDER }
        } else {
            proof {
                lemma_fundamental_div_mod_converse(s as int, FIELD_ORDER as int, 0, s as int);
            }
            Fe { v: s }
        }
    }

    /// Field negation: the additive inverse.
    pub fn neg(self) -> (r: Fe)
        requires
            self.wf(),
        ensures
            r.wf(),
            r.val() == fneg(self.val()),
    {
        if self.v == 0 {
            proof {
                lemma_fundamental_div_mod_converse(FIELD_ORDER as int, FIELD_ORDER as int, 1, 0);
            }
            Fe { v: 0 }
        } else {
            proof {
                lemma_fundamental_div_mod_converse(
                    FIELD_ORDER - self.v,
                    FIELD_ORDER as int,
                    0,
                    FIELD_ORDER - self.v,
                );
            }
            Fe { v: FIELD_ORDER - self.v }
        }
    }

    /// Field subtraction: adding the negation.
    pub fn sub(self, other: Fe) -> (r: Fe)
        requires
            self.wf(),
            other.wf(),
        ensures
            r.wf(),
            r.val() == fadd(self.val(), fneg(other.val())),
    {
        self.add(other.neg())
    }

    /// Field multiplication.
    pub fn mul(self, other: Fe) -> (r: Fe)
        requires
            self.wf(),
            other.wf(),
        ensures
            r.wf(),
            r.val() == fmul(self.val(), other.val()),
    {
        proof {
            assert(self.v * other.v < 0x4000_0000_0000_0000) by (nonlinear_arith)
                requires
                    self.v < 0x8000_0000,
                    other.v < 0x8000_0000,
            ;
            lemma_mod_bound(self.v * other.v, FIELD_ORDER as int);
        }
        Fe { v: (self.v * other.v) % FIELD_ORDER }
    }

    /// Whether this element's residue is reduced.
    pub fn is_wf(&self) -> (r: bool)
        ensures
            r == self.wf(),
    {
        self.v < FIELD_ORDER
    }

    /// Whether this element is the additive identity.
    pub fn is_zero(&self) -> (r: bool)
        ensures
            r <==> self.val() == 0,
    {
        self.v == 0
    }

}

/// Addition, multiplication and negation stay inside the field.
pub proof fn lemma_field_closed(a: int, b: int)
    ensures
        0 <= fadd(a, b) < FIELD_ORDER,
        0 <= fmul(a, b) < FIELD_ORDER,
        0 <= fneg(a) < FIELD_ORDER,
{
    lemma_mod_bound(a + b, FIELD_ORDER as int);
    lemma_mod_bound(a * b, FIELD_ORDER as int);
    lemma_mod_bound(FIELD_ORDER - a, FIELD_ORDER as int);
}

/// One is neutral for multiplication on reduced values.
pub proof fn lemma_fmul_one(a: int)
    requires
        0 <= a < FIELD_ORDER,
    ensures
        fmul(1, a) == a,
{
    lemma_fundamental_div_mod_converse(1 * a, FIELD_ORDER as int, 0, a);
}

/// `x + (-c)` vanishes in the field exactly when `x` equals `c`, for reduced
/// `x` and `c`.
pub proof fn lemma_diff_zero(x: int, c: int)
    requires
        0 <= x < FIELD_ORDER,
        0 <= c < FIELD_ORDER,
    ensures
        (fadd(x, fneg(c)) == 0) <==> (x == c),
{
    let p = FIELD_ORDER as int;
    if c == 0 {
        lemma_fundamental_div_mod_converse(p, p, 1, 0);
        lemma_fundamental_div_mod_converse(x, p, 0, x);
    } else {
        lemma_fundamental_div_mod_converse(p - c, p, 0, p - c);
        let nc = fneg(c);
        if x + nc < p {
            lemma_fundamental_div_mod_converse(x + nc, p, 0, x + nc);
        } else {
            lemma_fundamental_div_mod_converse(x + nc, p, 1, x + nc - p);
        }
    }
}

} // verus!
