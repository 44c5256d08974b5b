//! The example relation: one constraint group over three advice columns checking
//! `a*a + b*b - c*c` wherever its selector is enabled.

use vstd::prelude::*;

verus! {

use vstd::arithmetic::power2::{lemma_pow2_pos, pow2};
use crate::error::Error;
use crate::expr::{expr_sel_enabled, expr_wf, spec_eval, Column, EvalV, Expr, Selector};
use crate::field::{
    fadd, fmul, fneg, lemma_diff_zero, lemma_field_closed, lemma_fmul_one, Fe, FIELD_ORDER,
};
use crate::layout::Layouter;
use crate::system::ConstraintSystem;
use crate::table::WitnessTable;
use crate::verify::{
    blank_for, failure_at, failures_upto, gate_active, gate_failures_upto, gate_has_sel,
    gate_row_failures, gate_sel_enabled, row_failures_upto, run_err, run_post, spec_eval_of,
    spec_failures, verify_post, views_of, Circuit, FailureV, Verifier, VerifyFailure,
};

/// The handles the chip's constraint group queries: three advice columns and the
/// selector that activates the check.
#[derive(Clone, Copy, Debug, PartialEq, Eq, Structural)]
pub struct PythagoreanTripleConfig {
    /// The column carrying the first leg.
    pub a: Column,
    /// The column carrying the second leg.
    pub b: Column,
    /// The column carrying the hypotenuse.
    pub c: Column,
    /// The selector activating the check.
    pub s: Selector,
}

/// The chip: it owns the config and knows how to register its constraint group and how
/// to lay its witness row out.
#[derive(Clone, Copy, Debug)]
pub struct PythagoreanTripleChip {
    /// The handles this chip queries and assigns through.
    pub config: PythagoreanTripleConfig,
}

/// The expression the chip registers, structurally:
/// `s * ((a*a + b*b) + (-(c*c)))` with every column queried at rotation 0.
pub open spec fn is_triple_gate_expr(e: Expr, cfg: PythagoreanTripleConfig) -> bool {
    &&& e matches Expr::Product(sel_q, poly)
    &&& *sel_q == Expr::SelectorQuery(cfg.s)
    &&& *poly matches Expr::Sum(sum_ab, neg_cc)
    &&& *sum_ab matches Expr::Sum(aa, bb)
    &&& *aa matches Expr::Product(a1, a2)
    &&& *a1 == Expr::ColumnQuery(cfg.a, 0)
    &&& *a2 == Expr::ColumnQuery(cfg.a, 0)
    &&& *bb matches Expr::Product(b1, b2)
    &&& *b1 == Expr::ColumnQuery(cfg.b, 0)
    &&& *b2 == Expr::ColumnQuery(cfg.b, 0)
    &&& *neg_cc matches Expr::Negate(cc)
    &&& *cc matches Expr::Product(c1, c2)
    &&& *c1 == Expr::ColumnQuery(cfg.c, 0)
    &&& *c2 == Expr::ColumnQuery(cfg.c, 0)
}

/// What the chip's `configure` builds: three advice columns, one selector,
/// and a single constraint group holding the single triple-check expression.
pub open spec fn triple_configured(cs: ConstraintSystem, cfg: PythagoreanTripleConfig) -> bool {
    &&& cs.num_advice == 3
    &&& cs.num_selectors == 1
    &&& cfg.a.index == 0
    &&& cfg.b.index == 1
    &&& cfg.c.index == 2
    &&& cfg.s.index == 0
    &&& cs.gates@.len() == 1
    &&& cs.gates@[0].name@ == "Pythagorean triple check"@
    &&& cs.gates@[0].expressions@.len() == 1
    &&& is_triple_gate_expr(cs.gates@[0].expressions@[0], cfg)
}

/// What the chip's `assign` does when the config's handles are distinct and
/// valid: it claims one row at the cursor, writes `a`, `b`, `c` into the
/// three columns there, enables the selector there, and touches nothing
/// else.
pub open spec fn triple_synthesized(
    cfg: PythagoreanTripleConfig,
    a: Fe,
    b: Fe,
    c: Fe,
    l0: Layouter,
    l1: Layouter,
) -> bool {
    &&& l1.table.rows == l0.table.rows
    &&& l1.table.advice@.len() == l0.table.advice@.len()
    &&& l1.table.selectors@.len() == l0.table.selectors@.len()
    &&& (cfg.a.index != cfg.b.index && cfg.a.index != cfg.c.index && cfg.b.index != cfg.c.index
        ==> {
        let row = l0.next_row as int;
        &&& l0.next_row < l0.table.rows
        &&& cfg.a.index < l0.table.advice@.len()
        &&& cfg.b.index < l0.table.advice@.len()
        &&& cfg.c.index < l0.table.advice@.len()
        &&& cfg.s.index < l0.table.selectors@.len()
        &&& l1.next_row == l0.next_row + 1
        &&& l1.table.cell(cfg.a.index as int, row) == Some(a)
        &&& l1.table.cell(cfg.b.index as int, row) == Some(b)
        &&& l1.table.cell(cfg.c.index as int, row) == Some(c)
        &&& l1.table.sel_on(cfg.s.index as int, row)
        &&& forall|ci: int, ri: int|
            0 <= ci < l0.table.advice@.len() && 0 <= ri < l0.table.rows && !(ri == row && (ci
                == cfg.a.index || ci == cfg.b.index || ci == cfg.c.index))
                ==> #[trigger] l1.table.cell(ci, ri) == l0.table.cell(ci, ri)
        &&& forall|si: int, ri: int|
            0 <= si < l0.table.selectors@.len() && 0 <= ri < l0.table.rows && !(ri == row && si
                == cfg.s.index) ==> #[trigger] l1.table.sel_on(si, ri) == l0.table.sel_on(si, ri)
    })
}

/// The layouter states from which the chip's `assign` cannot fail: valid
/// handles and at least one row left at the cursor.
pub open spec fn triple_assign_succeeds(cfg: PythagoreanTripleConfig, l0: Layouter) -> bool {
    &&& cfg.a.index < l0.table.advice@.len()
    &&& cfg.b.index < l0.table.advice@.len()
    &&& cfg.c.index < l0.table.advice@.len()
    &&& cfg.s.index < l0.table.selectors@.len()
    &&& l0.next_row < l0.table.rows
}

impl PythagoreanTripleChip {
    /// Wrap a config.
    pub fn construct(config: PythagoreanTripleConfig) -> (chip: Self)
        ensures
            chip.config == config,
    {
        Self { config }
    }

    /// The config this chip was constructed with.
    pub fn config(&self) -> (cfg: &PythagoreanTripleConfig)
        ensures
            *cfg == self.config,
    {
        &self.config
    }

    /// Allocate the chip's columns and selector on a fresh system and
    /// register its single constraint group. Never fails.
    pub fn configure(meta: &mut ConstraintSystem) -> (r: Result<PythagoreanTripleConfig, Error>)
        requires
            old(meta).num_advice == 0,
            old(meta).num_selectors == 0,
            old(meta).gates@.len() == 0,
        ensures
            final(meta).wf(),
            r matches Ok(cfg) ==> triple_configured(*final(meta), cfg),
            r is Ok,
    {
        let a = meta.advice_column();
        let b = meta.advice_column();
        let c = meta.advice_column();
        let s = meta.selector();
        let sel_q = Expr::query_selector(s);
        let aa = Expr::query_advice(a, 0).times(Expr::query_advice(a, 0));
        let bb = Expr::query_advice(b, 0).times(Expr::query_advice(b, 0));
        let cc = Expr::query_advice(c, 0).times(Expr::query_advice(c, 0));
        let poly = aa.plus(bb).minus(cc);
        let gate = sel_q.times(poly);
        let mut expressions: Vec<Expr> = Vec::new();
        proof {
            reveal_with_fuel(expr_wf, 8);
            assert(expr_wf(gate, meta.num_advice as int, meta.num_selectors as int));
        }
        expressions.push(gate);
        proof {
            assert(forall|i: int|
                0 <= i < expressions@.len() ==> expr_wf(
                    #[trigger] expressions@[i],
                    meta.num_advice as int,
                    meta.num_selectors as int,
                ));
        }
        match meta.create_gate("Pythagorean triple check".to_owned(), expressions) {
            Ok(u) => {
                let cfg = PythagoreanTripleConfig { a, b, c, s };
                proof {
                    assert(is_triple_gate_expr(final(meta).gates@[0].expressions@[0], cfg));
                }
                Ok(cfg)
            },
            Err(e) => {
                proof {
                    assert(false);
                }
                Err(e)
            },
        }
    }

    /// Lay one witness row out: claim the next row, write `a`, `b`, `c` into
    /// the chip's columns there and enable its selector there.
    pub fn assign(&self, layouter: &mut Layouter, a: Fe, b: Fe, c: Fe) -> (r: Result<(), Error>)
        requires
            old(layouter).wf(),
        ensures
            final(layouter).wf(),
            final(layouter).table.rows == old(layouter).table.rows,
            final(layouter).table.advice@.len() == old(layouter).table.advice@.len(),
            final(layouter).table.selectors@.len() == old(layouter).table.selectors@.len(),
            r matches Ok(u) ==> triple_synthesized(
                self.config,
                a,
                b,
                c,
                *old(layouter),
                *final(layouter),
            ),
            triple_assign_succeeds(self.config, *old(layouter)) ==> r is Ok,
    {
        proof {
            use_type_invariant(a);
            use_type_invariant(b);
            use_type_invariant(c);
        }
        let mut region = layouter.region_start("load");
        let row: usize = 0;
        match layouter.enable_selector(&mut region, self.config.s, row) {
            Ok(u) => {
            },
            Err(e) => {
                return Err(e);
            },
        }
        let ghost after_enable = *layouter;
        match layouter.assign_advice(&mut region, self.config.a, row, a) {
            Ok(u) => {
            },
            Err(e) => {
                return Err(e);
            },
        }
        match layouter.assign_advice(&mut region, self.config.b, row, b) {
            Ok(u) => {
            },
            Err(e) => {
                return Err(e);
            },
        }
        match layouter.assign_advice(&mut region, self.config.c, row, c) {
            Ok(u) => {
            },
            Err(e) => {
                return Err(e);
            },
        }
        layouter.region_end(region);
        proof {
            let cfg = self.config;
            if cfg.a.index != cfg.b.index && cfg.a.index != cfg.c.index && cfg.b.index
                != cfg.c.index {
                let row0 = old(layouter).next_row as int;
                assert(layouter.table.cell(cfg.a.index as int, row0) == Some(a));
                assert(layouter.table.cell(cfg.b.index as int, row0) == Some(b));
                assert(layouter.table.cell(cfg.c.index as int, row0) == Some(c));
                assert(layouter.table.sel_on(cfg.s.index as int, row0));
                assert forall|ci: int, ri: int|
                    0 <= ci < old(layouter).table.advice@.len() && 0 <= ri < old(
                        layouter,
                    ).table.rows && !(ri == row0 && (ci == cfg.a.index || ci == cfg.b.index || ci
                        == cfg.c.index)) implies #[trigger] layouter.table.cell(ci, ri) == old(
                    layouter,
                ).table.cell(ci, ri) by {}
                assert forall|si: int, ri: int|
                    0 <= si < old(layouter).table.selectors@.len() && 0 <= ri < old(
                        layouter,
                    ).table.rows && !(ri == row0 && si == cfg.s.index)
                    implies #[trigger] layouter.table.sel_on(si, ri) == old(layouter).table.sel_on(
                    si,
                    ri,
                ) by {
                    assert(layouter.table.selectors == after_enable.table.selectors);
                    assert(after_enable.table.sel_on(si, ri) == old(layouter).table.sel_on(si, ri));
                }
            }
        }
        Ok(())
    }
}

/// The example circuit: it carries its private witness, the three field
/// elements claimed to form a Pythagorean triple.
#[derive(Clone, Copy, Debug, Default, PartialEq, Eq, Structural)]
pub struct PythagoreanTriple {
    /// The first leg.
    pub a: Fe,
    /// The second leg.
    pub b: Fe,
    /// The hypotenuse.
    pub c: Fe,
}

impl Circuit for PythagoreanTriple {
    type Config = PythagoreanTripleConfig;

    open spec fn configured(cs: ConstraintSystem, cfg: PythagoreanTripleConfig) -> bool {
        triple_configured(cs, cfg)
    }

    open spec fn configure_succeeds() -> bool {
        true
    }

    open spec fn synthesized(
        self,
        cfg: PythagoreanTripleConfig,
        l0: Layouter,
        l1: Layouter,
    ) -> bool {
        triple_synthesized(cfg, self.a, self.b, self.c, l0, l1)
    }

    open spec fn synthesize_succeeds(self, cfg: PythagoreanTripleConfig, l0: Layouter) -> bool {
        triple_assign_succeeds(cfg, l0)
    }

    fn configure(cs: &mut ConstraintSystem) -> (r: Result<PythagoreanTripleConfig, Error>) {
        PythagoreanTripleChip::configure(cs)
    }

    fn synthesize(&self, cfg: &PythagoreanTripleConfig, layouter: &mut Layouter) -> (r: Result<
        (),
        Error,
    >) {
        let chip = PythagoreanTripleChip::construct(*cfg);
        chip.assign(layouter, self.a, self.b, self.c)
    }
}


/// The triple constraint group's expression queries exactly one selector, and it is
/// enabled wherever that selector is.
proof fn lemma_triple_expr_sel(e: Expr, cfg: PythagoreanTripleConfig, t: WitnessTable, row: int)
    requires
        is_triple_gate_expr(e, cfg),
    ensures
        crate::expr::expr_has_sel(e),
        expr_sel_enabled(e, t, row) == t.sel_on(cfg.s.index as int, row),
{
    match e {
        Expr::Product(sel_q, poly) => {
            assert(expr_sel_enabled(*sel_q, t, row) == t.sel_on(cfg.s.index as int, row));
            assert(crate::expr::expr_has_sel(*sel_q));
            match *poly {
                Expr::Sum(sum_ab, neg_cc) => {
                    match *sum_ab {
                        Expr::Sum(aa, bb) => {
                            match *aa {
                                Expr::Product(a1, a2) => {
                                    assert(!expr_sel_enabled(*a1, t, row));
                                    assert(!expr_sel_enabled(*a2, t, row));
                                    assert(!expr_sel_enabled(*aa, t, row));
                                },
                                _ => {
                                    assert(false);
                                },
                            }
                            match *bb {
                                Expr::Product(b1, b2) => {
                                    assert(!expr_sel_enabled(*b1, t, row));
                                    assert(!expr_sel_enabled(*b2, t, row));
                                    assert(!expr_sel_enabled(*bb, t, row));
                                },
                                _ => {
                                    assert(false);
                                },
                            }
                            assert(!expr_sel_enabled(*sum_ab, t, row));
                        },
                        _ => {
                            assert(false);
                        },
                    }
                    match *neg_cc {
                        Expr::Negate(cc) => {
                            match *cc {
                                Expr::Product(c1, c2) => {
                                    assert(!expr_sel_enabled(*c1, t, row));
                                    assert(!expr_sel_enabled(*c2, t, row));
                                    assert(!expr_sel_enabled(*cc, t, row));
                                },
                                _ => {
                                    assert(false);
                                },
                            }
                            assert(!expr_sel_enabled(*neg_cc, t, row));
                        },
                        _ => {
                            assert(false);
                        },
                    }
                    assert(!expr_sel_enabled(*poly, t, row));
                },
                _ => {
                    assert(false);
                },
            }
            assert(expr_sel_enabled(e, t, row) == (expr_sel_enabled(*sel_q, t, row)
                || expr_sel_enabled(*poly, t, row)));
        },
        _ => {
            assert(false);
        },
    }
}

/// What the triple constraint group's expression evaluates to at a fully assigned row
/// with its selector enabled.
proof fn lemma_triple_expr_eval(
    e: Expr,
    cfg: PythagoreanTripleConfig,
    t: WitnessTable,
    row: int,
    a: Fe,
    b: Fe,
    c: Fe,
)
    requires
        is_triple_gate_expr(e, cfg),
        0 <= row < t.rows,
        t.cell(cfg.a.index as int, row) == Some(a),
        t.cell(cfg.b.index as int, row) == Some(b),
        t.cell(cfg.c.index as int, row) == Some(c),
        t.sel_on(cfg.s.index as int, row),
    ensures
        spec_eval(e, t, row) == EvalV::Val(
            fmul(
                1,
                fadd(
                    fadd(fmul(a.val(), a.val()), fmul(b.val(), b.val())),
                    fneg(fmul(c.val(), c.val())),
                ),
            ),
        ),
{
    let av = a.val();
    let bv = b.val();
    let cv = c.val();
    match e {
        Expr::Product(sel_q, poly) => {
            assert(spec_eval(*sel_q, t, row) == EvalV::Val(1));
            match *poly {
                Expr::Sum(sum_ab, neg_cc) => {
                    match *sum_ab {
                        Expr::Sum(aa, bb) => {
                            match *aa {
                                Expr::Product(a1, a2) => {
                                    assert(spec_eval(*a1, t, row) == EvalV::Val(av));
                                    assert(spec_eval(*a2, t, row) == EvalV::Val(av));
                                    assert(spec_eval(*aa, t, row) == EvalV::Val(fmul(av, av)));
                                },
                                _ => {
                                    assert(false);
                                },
                            }
                            match *bb {
                                Expr::Product(b1, b2) => {
                                    assert(spec_eval(*b1, t, row) == EvalV::Val(bv));
                                    assert(spec_eval(*b2, t, row) == EvalV::Val(bv));
                                    assert(spec_eval(*bb, t, row) == EvalV::Val(fmul(bv, bv)));
                                },
                                _ => {
                                    assert(false);
                                },
                            }
                            assert(spec_eval(*sum_ab, t, row) == EvalV::Val(
                                fadd(fmul(av, av), fmul(bv, bv)),
                            ));
                        },
                        _ => {
                            assert(false);
                        },
                    }
                    match *neg_cc {
                        Expr::Negate(cc) => {
                            match *cc {
                                Expr::Product(c1, c2) => {
                                    assert(spec_eval(*c1, t, row) == EvalV::Val(cv));
                                    assert(spec_eval(*c2, t, row) == EvalV::Val(cv));
                                    assert(spec_eval(*cc, t, row) == EvalV::Val(fmul(cv, cv)));
                                },
                                _ => {
                                    assert(false);
                                },
                            }
                            assert(spec_eval(*neg_cc, t, row) == EvalV::Val(fneg(fmul(cv, cv))));
                        },
                        _ => {
                            assert(false);
                        },
                    }
                    assert(spec_eval(*poly, t, row) == EvalV::Val(
                        fadd(fadd(fmul(av, av), fmul(bv, bv)), fneg(fmul(cv, cv))),
                    ));
                },
                _ => {
                    assert(false);
                },
            }
        },
        _ => {
            assert(false);
        },
    }
}

/// The constraint group's value vanishes exactly when the relation holds in the field.
proof fn lemma_gate_value(av: int, bv: int, cv: int)
    requires
        0 <= av < FIELD_ORDER,
        0 <= bv < FIELD_ORDER,
        0 <= cv < FIELD_ORDER,
    ensures
        ({
            let lhs = fadd(fmul(av, av), fmul(bv, bv));
            let rhs = fmul(cv, cv);
            (fmul(1, fadd(lhs, fneg(rhs))) == 0) <==> (lhs == rhs)
        }),
{
    let lhs = fadd(fmul(av, av), fmul(bv, bv));
    let rhs = fmul(cv, cv);
    lemma_field_closed(av, av);
    lemma_field_closed(bv, bv);
    lemma_field_closed(cv, cv);
    lemma_field_closed(fmul(av, av), fmul(bv, bv));
    lemma_diff_zero(lhs, rhs);
    lemma_field_closed(lhs, fneg(rhs));
    lemma_fmul_one(fadd(lhs, fneg(rhs)));
}

/// When every row past the first contributes no failures, the table's
/// failure list is the first row's alone.
proof fn lemma_failures_tail_empty(cs: ConstraintSystem, t: WitnessTable, n: int)
    requires
        1 <= n,
        forall|r: int|
            1 <= r < n ==> #[trigger] row_failures_upto(cs.gates@, t, r, cs.gates@.len() as int)
                == Seq::<FailureV>::empty(),
    ensures
        failures_upto(cs, t, n) == failures_upto(cs, t, 1),
    decreases n,
{
    if n > 1 {
        lemma_failures_tail_empty(cs, t, n - 1);
        assert(failures_upto(cs, t, n) =~= failures_upto(cs, t, n - 1));
    }
}

/// The failure list of a verifier produced by running the triple circuit:
/// empty when the relation holds of the witness, and exactly one constraint
/// failure at row 0 for the constraint group's sole expression when it does not.
proof fn lemma_triple_failures(circ: PythagoreanTriple, k: u32, v: Verifier)
    requires
        run_post::<PythagoreanTriple>(circ, k, v),
        circ.a.wf(),
        circ.b.wf(),
        circ.c.wf(),
    ensures
        ({
            let lhs = fadd(
                fmul(circ.a.val(), circ.a.val()),
                fmul(circ.b.val(), circ.b.val()),
            );
            let rhs = fmul(circ.c.val(), circ.c.val());
            &&& lhs == rhs ==> spec_failures(v.cs, v.table) == Seq::<FailureV>::empty()
            &&& lhs != rhs ==> spec_failures(v.cs, v.table) == seq![
                FailureV::Constraint {
                    gate: "Pythagorean triple check"@,
                    row: 0,
                    expression: 0,
                },
            ]
        }),
{
    let (cfg, l0, l1) = choose|cfg: PythagoreanTripleConfig, l0: Layouter, l1: Layouter|
        {
            &&& <PythagoreanTriple as Circuit>::configured(v.cs, cfg)
            &&& blank_for(l0, v.cs, v.table.rows as int)
            &&& #[trigger] <PythagoreanTriple as Circuit>::synthesized(circ, cfg, l0, l1)
            &&& l1.table == v.table
        };
    let t = v.table;
    let g = v.cs.gates@[0];
    let e = g.expressions@[0];
    let rows = t.rows as int;
    lemma_pow2_pos(k as nat);
    assert(rows >= 1);
    let av = circ.a.val();
    let bv = circ.b.val();
    let cv = circ.c.val();
    let lhs = fadd(fmul(av, av), fmul(bv, bv));
    let rhs = fmul(cv, cv);
    let value = fmul(1, fadd(lhs, fneg(rhs)));
    // Row 0 holds the witness and the enabled selector; the constraint group is active
    // there and its sole expression evaluates to `value`.
    assert(t.cell(cfg.a.index as int, 0) == Some(circ.a));
    assert(t.sel_on(cfg.s.index as int, 0));
    lemma_triple_expr_sel(e, cfg, t, 0);
    crate::verify::lemma_gate_sel_enabled_iff(g, t, 0);
    assert(gate_sel_enabled(g, t, 0)) by {
        assert(expr_sel_enabled(g.expressions@[0], t, 0));
    }
    assert(gate_active(g, t, 0));
    lemma_triple_expr_eval(e, cfg, t, 0, circ.a, circ.b, circ.c);
    assert(spec_eval_of(g, t, 0, 0) == EvalV::Val(value));
    lemma_gate_value(av, bv, cv);
    // The first row's contribution is `failure_at` of that value.
    assert(gate_failures_upto(g, t, 0, 0) == Seq::<FailureV>::empty());
    assert(row_failures_upto(v.cs.gates@, t, 0, 0) == Seq::<FailureV>::empty());
    assert(failures_upto(v.cs, t, 0) == Seq::<FailureV>::empty());
    assert(gate_failures_upto(g, t, 0, 1) =~= failure_at(g.name@, 0, 0, EvalV::Val(value)));
    assert(row_failures_upto(v.cs.gates@, t, 0, 1) =~= gate_row_failures(g, t, 0));
    assert(failures_upto(v.cs, t, 1) =~= row_failures_upto(v.cs.gates@, t, 0, 1));
    // Past row 0 the selector is off, so the constraint group is inactive and no row
    // contributes anything; unassigned cells there are never consulted.
    assert forall|r: int| 1 <= r < rows implies #[trigger] row_failures_upto(
        v.cs.gates@,
        t,
        r,
        v.cs.gates@.len() as int,
    ) == Seq::<FailureV>::empty() by {
        assert(!t.sel_on(cfg.s.index as int, r));
        lemma_triple_expr_sel(e, cfg, t, r);
        crate::verify::lemma_gate_sel_enabled_iff(g, t, r);
        assert(!gate_sel_enabled(g, t, r)) by {
            assert forall|i: int|
                0 <= i < g.expressions@.len() implies !expr_sel_enabled(
                #[trigger] g.expressions@[i],
                t,
                r,
            ) by {}
        }
        assert(gate_has_sel(g)) by {
            assert(crate::expr::expr_has_sel(g.expressions@[0]));
        }
        assert(!gate_active(g, t, r));
        assert(row_failures_upto(v.cs.gates@, t, r, 0) == Seq::<FailureV>::empty());
        assert(gate_row_failures(g, t, r) == Seq::<FailureV>::empty());
        assert(row_failures_upto(v.cs.gates@, t, r, 1) =~= Seq::<FailureV>::empty());
    }
    lemma_failures_tail_empty(v.cs, t, rows);
    if lhs == rhs {
        assert(value == 0);
        assert(failure_at(g.name@, 0, 0, EvalV::Val(value)) =~= Seq::<FailureV>::empty());
        assert(spec_failures(v.cs, t) =~= Seq::<FailureV>::empty());
    } else {
        assert(value != 0);
        assert(spec_failures(v.cs, t) =~= seq![
            FailureV::Constraint { gate: "Pythagorean triple check"@, row: 0, expression: 0 },
        ]);
    }
}

/// A witness satisfying the relation exactly in the field verifies cleanly:
/// running the triple circuit on it, whatever `k` was chosen, yields a
/// verifier with an empty failure list, so `verify` returns `Ok(())`.
pub proof fn lemma_triple_satisfied(
    circ: PythagoreanTriple,
    k: u32,
    v: Verifier,
    r: Result<(), Vec<VerifyFailure>>,
)
    requires
        run_post::<PythagoreanTriple>(circ, k, v),
        verify_post(v, r),
        circ.a.wf(),
        circ.b.wf(),
        circ.c.wf(),
        fadd(fmul(circ.a.val(), circ.a.val()), fmul(circ.b.val(), circ.b.val())) == fmul(
            circ.c.val(),
            circ.c.val(),
        ),
    ensures
        spec_failures(v.cs, v.table) == Seq::<FailureV>::empty(),
        r == Ok::<(), Vec<VerifyFailure>>(()),
{
    lemma_triple_failures(circ, k, v);
    match r {
        Ok(u) => {
        },
        Err(fs) => {
            assert(views_of(fs@).len() == 0 && fs@.len() > 0);
            assert(false);
        },
    }
}

/// A witness violating the relation yields exactly one failure from
/// `verify`: the constraint group's sole expression, at the row where the
/// selector was enabled (row 0). Unassigned rows past the region trigger
/// nothing, because the constraint group is inactive there.
pub proof fn lemma_triple_violated(
    circ: PythagoreanTriple,
    k: u32,
    v: Verifier,
    r: Result<(), Vec<VerifyFailure>>,
)
    requires
        run_post::<PythagoreanTriple>(circ, k, v),
        verify_post(v, r),
        circ.a.wf(),
        circ.b.wf(),
        circ.c.wf(),
        fadd(fmul(circ.a.val(), circ.a.val()), fmul(circ.b.val(), circ.b.val())) != fmul(
            circ.c.val(),
            circ.c.val(),
        ),
    ensures
        spec_failures(v.cs, v.table) == seq![
            FailureV::Constraint { gate: "Pythagorean triple check"@, row: 0, expression: 0 },
        ],
        r matches Err(fs) && views_of(fs@) == seq![
            FailureV::Constraint { gate: "Pythagorean triple check"@, row: 0, expression: 0 },
        ],
{
    lemma_triple_failures(circ, k, v);
    match r {
        Ok(u) => {
            assert(spec_failures(v.cs, v.table).len() == 0);
            assert(false);
        },
        Err(fs) => {
        },
    }
}

/// Running the triple circuit never fails: configuration always succeeds,
/// and a table of 2^k rows always has room for the single witness row, even
/// at k = 0.
pub proof fn lemma_triple_run_total(circ: PythagoreanTriple, k: u32)
    ensures
        !run_err::<PythagoreanTriple>(circ, k),
{
    if run_err::<PythagoreanTriple>(circ, k) {
        let (cs, cfg, l0) = choose|cs: ConstraintSystem, cfg: PythagoreanTripleConfig, l0: Layouter|
            {
                &&& #[trigger] <PythagoreanTriple as Circuit>::configured(cs, cfg)
                &&& #[trigger] blank_for(l0, cs, pow2(k as nat) as int)
                &&& !<PythagoreanTriple as Circuit>::synthesize_succeeds(circ, cfg, l0)
            };
        lemma_pow2_pos(k as nat);
        assert(triple_assign_succeeds(cfg, l0));
        assert(false);
    }
}

} // verus!
