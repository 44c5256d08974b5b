//! The constraint system: a builder that allocates column and selector
//! indices and registers named constraint groups. The snapshot it reaches at the end of
//! configuration is what the verifier later evaluates.

use vstd::prelude::*;

verus! {

use crate::error::{ConfigurationError, Error};
use crate::expr::{check_expr_wf, expr_wf, Column, Expr, Selector};

/// A named set of polynomial expressions that must all equal the field's
/// additive identity at every row where the constraint group is active.
#[derive(Debug, PartialEq, Eq)]
pub struct Gate {
    /// The diagnostic name the constraint group was registered under.
    pub name: String,
    /// The expressions that must vanish, in registration order.
    pub expressions: Vec<Expr>,
}

/// Every expression of the constraint group queries only allocated columns and selectors.
pub open spec fn gate_wf(g: Gate, num_advice: int, num_selectors: int) -> bool {
    forall|i: int|
        0 <= i < g.expressions@.len() ==> expr_wf(
            #[trigger] g.expressions@[i],
            num_advice,
            num_selectors,
        )
}

/// The builder that owns the column and selector registry and the constraint group set.
pub struct ConstraintSystem {
    /// How many advice columns have been allocated.
    pub num_advice: usize,
    /// How many selectors have been allocated.
    pub num_selectors: usize,
    /// The registered constraint groups, in registration order.
    pub gates: Vec<Gate>,
}

impl ConstraintSystem {
    /// Every registered constraint group queries only allocated columns and selectors.
    pub open spec fn wf(self) -> bool {
        forall|gi: int|
            0 <= gi < self.gates@.len() ==> gate_wf(
                #[trigger] self.gates@[gi],
                self.num_advice as int,
                self.num_selectors as int,
            )
    }

    /// Some constraint group is already registered under `name`.
    pub open spec fn has_gate_named(self, name: Seq<char>) -> bool {
        exists|gi: int| 0 <= gi < self.gates@.len() && (#[trigger] self.gates@[gi]).name@ == name
    }

    /// A fresh system: nothing allocated, no constraint groups.
    pub fn new() -> (cs: ConstraintSystem)
        ensures
            cs.num_advice == 0,
            cs.num_selectors == 0,
            cs.gates@.len() == 0,
            cs.wf(),
    {
        ConstraintSystem { num_advice: 0, num_selectors: 0, gates: Vec::new() }
    }

    /// Allocate a fresh advice column with the next unused index.
    pub fn advice_column(&mut self) -> (c: Column)
        requires
            old(self).num_advice < usize::MAX,
        ensures
            c.index == old(self).num_advice,
            final(self).num_advice == old(self).num_advice + 1,
            final(self).num_selectors == old(self).num_selectors,
            final(self).gates == old(self).gates,
            old(self).wf() ==> final(self).wf(),
    {
        let c = Column { index: self.num_advice };
        self.num_advice = self.num_advice + 1;
        proof {
            if old(self).wf() {
                assert forall|gi: int| 0 <= gi < self.gates@.len() implies gate_wf(
                    #[trigger] self.gates@[gi],
                    self.num_advice as int,
                    self.num_selectors as int,
                ) by {
                    assert(gate_wf(
                        self.gates@[gi],
                        old(self).num_advice as int,
                        old(self).num_selectors as int,
                    ));
                    lemma_gate_wf_widen(
                        self.gates@[gi],
                        old(self).num_advice as int,
                        old(self).num_selectors as int,
                        self.num_advice as int,
                        self.num_selectors as int,
                    );
                }
            }
        }
        c
    }

    /// Allocate a fresh selector with the next unused index.
    pub fn selector(&mut self) -> (s: Selector)
        requires
            old(self).num_selectors < usize::MAX,
        ensures
            s.index == old(self).num_selectors,
            final(self).num_selectors == old(self).num_selectors + 1,
            final(self).num_advice == old(self).num_advice,
            final(self).gates == old(self).gates,
            old(self).wf() ==> final(self).wf(),
    {
        let s = Selector { index: self.num_selectors };
        self.num_selectors = self.num_selectors + 1;
        proof {
            if old(self).wf() {
                assert forall|gi: int| 0 <= gi < self.gates@.len() implies gate_wf(
                    #[trigger] self.gates@[gi],
                    self.num_advice as int,
                    self.num_selectors as int,
                ) by {
                    assert(gate_wf(
                        self.gates@[gi],
                        old(self).num_advice as int,
                        old(self).num_selectors as int,
                    ));
                    lemma_gate_wf_widen(
                        self.gates@[gi],
                        old(self).num_advice as int,
                        old(self).num_selectors as int,
                        self.num_advice as int,
                        self.num_selectors as int,
                    );
                }
            }
        }
        s
    }

    /// Register a constraint group. Fails if the name is already taken, or if some
    /// expression queries a column or selector this system never allocated;
    /// on failure the system is unchanged.
    pub fn create_gate(&mut self, name: String, expressions: Vec<Expr>) -> (r: Result<(), Error>)
        ensures
            old(self).has_gate_named(name@) ==> r == Err::<(), Error>(
                Error::Configuration(ConfigurationError::DuplicateGateName),
            ) && *final(self) == *old(self),
            !old(self).has_gate_named(name@) && (exists|i: int|
                0 <= i < expressions@.len() && !expr_wf(
                    #[trigger] expressions@[i],
                    old(self).num_advice as int,
                    old(self).num_selectors as int,
                )) ==> r == Err::<(), Error>(
                Error::Configuration(ConfigurationError::UnallocatedQuery),
            ) && *final(self) == *old(self),
            !old(self).has_gate_named(name@) && (forall|i: int|
                0 <= i < expressions@.len() ==> expr_wf(
                    #[trigger] expressions@[i],
                    old(self).num_advice as int,
                    old(self).num_selectors as int,
                )) ==> r == Ok::<(), Error>(()) && final(self).gates@ == old(self).gates@.push(
                Gate { name, expressions },
            ) && final(self).num_advice == old(self).num_advice && final(self).num_selectors == old(
                self,
            ).num_selectors,
            old(self).wf() ==> final(self).wf(),
    {
        let mut gi: usize = 0;
        let n = self.gates.len();
        while gi < n
            invariant
                *self == *old(self),
                n == self.gates@.len(),
                gi <= n,
                forall|j: int| 0 <= j < gi ==> (#[trigger] self.gates@[j]).name@ != name@,
            decreases n - gi,
        {
            if self.gates[gi].name == name {
                return Err(Error::Configuration(ConfigurationError::DuplicateGateName));
            }
            gi = gi + 1;
        }
        let mut ei: usize = 0;
        let m = expressions.len();
        while ei < m
            invariant
                *self == *old(self),
                !old(self).has_gate_named(name@),
                m == expressions@.len(),
                ei <= m,
                forall|j: int|
                    0 <= j < ei ==> expr_wf(
                        #[trigger] expressions@[j],
                        self.num_advice as int,
                        self.num_selectors as int,
                    ),
            decreases m - ei,
        {
            if !check_expr_wf(&expressions[ei], self.num_advice, self.num_selectors) {
                return Err(Error::Configuration(ConfigurationError::UnallocatedQuery));
            }
            ei = ei + 1;
        }
        self.gates.push(Gate { name, expressions });
        Ok(())
    }
}

/// An expression well-formed for small registries stays well-formed when the
/// registries grow.
proof fn lemma_expr_wf_widen(e: Expr, na0: int, ns0: int, na1: int, ns1: int)
    requires
        expr_wf(e, na0, ns0),
        na0 <= na1,
        ns0 <= ns1,
    ensures
        expr_wf(e, na1, ns1),
    decreases e,
{
    match e {
        Expr::Constant(_) => {
        },
        Expr::ColumnQuery(_, _) => {
        },
        Expr::SelectorQuery(_) => {
        },
        Expr::Negate(inner) => {
            lemma_expr_wf_widen(*inner, na0, ns0, na1, ns1);
        },
        Expr::Sum(l, r) => {
            lemma_expr_wf_widen(*l, na0, ns0, na1, ns1);
            lemma_expr_wf_widen(*r, na0, ns0, na1, ns1);
        },
        Expr::Product(l, r) => {
            lemma_expr_wf_widen(*l, na0, ns0, na1, ns1);
            lemma_expr_wf_widen(*r, na0, ns0, na1, ns1);
        },
    }
}

/// A constraint group well-formed for small registries stays well-formed when the
/// registries grow.
proof fn lemma_gate_wf_widen(g: Gate, na0: int, ns0: int, na1: int, ns1: int)
    requires
        gate_wf(g, na0, ns0),
        na0 <= na1,
        ns0 <= ns1,
    ensures
        gate_wf(g, na1, ns1),
{
    assert forall|i: int| 0 <= i < g.expressions@.len() implies expr_wf(
        #[trigger] g.expressions@[i],
        na1,
        ns1,
    ) by {
        lemma_expr_wf_widen(g.expressions@[i], na0, ns0, na1, ns1);
    }
}

} // verus!
