//! The mock verifier: it drives a circuit's configuration and synthesis over
//! a fresh witness table, then evaluates every registered constraint group at every row
//! where the constraint group is active and collects every constraint that fails to
//! vanish. Verification is exhaustive: it never stops at the first failure,
//! and the failures come back ordered by row, then constraint group registration order,
//! then expression index.

use vstd::prelude::*;

verus! {

use vstd::arithmetic::power2::{lemma2_to64, lemma_pow2_strictly_increases, lemma_pow2_unfold, pow2};
use crate::error::Error;
use crate::expr::{
    check_has_sel, check_sel_enabled, evaluate, expr_has_sel, expr_queries_sel, expr_sel_enabled,
    lemma_sel_enabled_exists, EvalResult, EvalV,
};
use crate::field::Fe;
use crate::layout::Layouter;
use crate::system::{gate_wf, ConstraintSystem, Gate};
use crate::table::WitnessTable;

/// One constraint that did not vanish: the constraint group's sole diagnostic name, the
/// absolute row where the constraint group was active, and the index of the expression
/// that evaluated to a nonzero value.
#[derive(Debug, PartialEq, Eq)]
pub struct ConstraintFailure {
    /// The name the offending constraint group was registered under.
    pub gate_name: String,
    /// The absolute row where the constraint group was active.
    pub row: usize,
    /// The index of the offending expression within the constraint group.
    pub expression_index: usize,
}

/// Everything `verify` can report about one (constraint group, row, expression) triple.
#[derive(Debug, PartialEq, Eq)]
pub enum VerifyFailure {
    /// The expression evaluated to a value other than the additive identity.
    Constraint(ConstraintFailure),
    /// The expression read an advice cell that synthesis never assigned.
    CellNotAssigned {
        /// The name of the constraint group whose expression read the cell.
        gate_name: String,
        /// The absolute row where the constraint group was active.
        row: usize,
        /// The index of the expression within the constraint group.
        expression_index: usize,
        /// The column of the unassigned cell.
        column: usize,
        /// The row of the unassigned cell, after rotation.
        queried_row: usize,
    },
    /// A rotation in the expression reached outside the table.
    RowOutOfRange {
        /// The name of the constraint group whose expression rotated out of range.
        gate_name: String,
        /// The absolute row where the constraint group was active.
        row: usize,
        /// The index of the expression within the constraint group.
        expression_index: usize,
    },
}

/// The mathematical shape of a reported failure.
pub enum FailureV {
    /// An expression evaluated to a nonzero value.
    Constraint { gate: Seq<char>, row: int, expression: int },
    /// An expression read an unassigned advice cell.
    CellNotAssigned { gate: Seq<char>, row: int, expression: int, column: int, queried_row: int },
    /// An expression rotated outside the table.
    RowOutOfRange { gate: Seq<char>, row: int, expression: int },
}

impl View for VerifyFailure {
    type V = FailureV;

    open spec fn view(&self) -> FailureV {
        match *self {
            VerifyFailure::Constraint(cf) => FailureV::Constraint {
                gate: cf.gate_name@,
                row: cf.row as int,
                expression: cf.expression_index as int,
            },
            VerifyFailure::CellNotAssigned {
                gate_name,
                row,
                expression_index,
                column,
                queried_row,
            } => FailureV::CellNotAssigned {
                gate: gate_name@,
                row: row as int,
                expression: expression_index as int,
                column: column as int,
                queried_row: queried_row as int,
            },
            VerifyFailure::RowOutOfRange { gate_name, row, expression_index } => {
                FailureV::RowOutOfRange {
                    gate: gate_name@,
                    row: row as int,
                    expression: expression_index as int,
                }
            },
        }
    }
}

/// The views of a list of reported failures.
pub open spec fn views_of(fs: Seq<VerifyFailure>) -> Seq<FailureV> {
    fs.map_values(|f: VerifyFailure| f@)
}

/// Some expression of the constraint group queries a selector.
pub open spec fn gate_has_sel(g: Gate) -> bool {
    exists|i: int| 0 <= i < g.expressions@.len() && expr_has_sel(#[trigger] g.expressions@[i])
}

/// The constraint group queries selector `s` in some expression.
pub open spec fn gate_queries_sel(g: Gate, s: int) -> bool {
    exists|i: int|
        0 <= i < g.expressions@.len() && expr_queries_sel(#[trigger] g.expressions@[i], s)
}

/// Some selector the constraint group queries is enabled at `row`.
pub open spec fn gate_sel_enabled(g: Gate, t: WitnessTable, row: int) -> bool {
    exists|s: int| #[trigger] gate_queries_sel(g, s) && t.sel_on(s, row)
}

/// Walking the expressions for an enabled queried selector finds one exactly
/// when some selector the constraint group queries is enabled.
pub proof fn lemma_gate_sel_enabled_iff(g: Gate, t: WitnessTable, row: int)
    ensures
        gate_sel_enabled(g, t, row) == (exists|i: int|
            0 <= i < g.expressions@.len() && expr_sel_enabled(#[trigger] g.expressions@[i], t, row)),
{
    if exists|i: int|
        0 <= i < g.expressions@.len() && expr_sel_enabled(#[trigger] g.expressions@[i], t, row) {
        let i = choose|i: int|
            0 <= i < g.expressions@.len() && expr_sel_enabled(#[trigger] g.expressions@[i], t, row);
        lemma_sel_enabled_exists(g.expressions@[i], t, row);
        let s = choose|s: int| expr_queries_sel(g.expressions@[i], s) && t.sel_on(s, row);
        assert(expr_queries_sel(g.expressions@[i], s));
        assert(gate_queries_sel(g, s) && t.sel_on(s, row));
    }
    if gate_sel_enabled(g, t, row) {
        let s = choose|s: int| #[trigger] gate_queries_sel(g, s) && t.sel_on(s, row);
        let i = choose|i: int|
            0 <= i < g.expressions@.len() && expr_queries_sel(#[trigger] g.expressions@[i], s);
        lemma_sel_enabled_exists(g.expressions@[i], t, row);
        assert(expr_queries_sel(g.expressions@[i], s) && t.sel_on(s, row));
        assert(expr_sel_enabled(g.expressions@[i], t, row));
    }
}

/// The constraint group is active at `row`: it is controlled by no selector at all, or
/// one of the selectors it queries is enabled there.
pub open spec fn gate_active(g: Gate, t: WitnessTable, row: int) -> bool {
    !gate_has_sel(g) || gate_sel_enabled(g, t, row)
}

/// The failures (none or one) that evaluating expression `i` of a constraint group named
/// `name`, active at `row`, to outcome `v` contributes.
pub open spec fn failure_at(name: Seq<char>, row: int, i: int, v: EvalV) -> Seq<FailureV> {
    match v {
        EvalV::Val(x) => if x != 0 {
            seq![FailureV::Constraint { gate: name, row, expression: i }]
        } else {
            Seq::empty()
        },
        EvalV::NotAssigned { column, row: queried } => seq![
            FailureV::CellNotAssigned { gate: name, row, expression: i, column, queried_row: queried },
        ],
        EvalV::OutOfRange => seq![FailureV::RowOutOfRange { gate: name, row, expression: i }],
    }
}

/// The failures contributed by the first `n` expressions of constraint group `g` at `row`.
pub open spec fn gate_failures_upto(g: Gate, t: WitnessTable, row: int, n: int) -> Seq<FailureV>
    decreases n,
{
    if n <= 0 {
        Seq::empty()
    } else {
        gate_failures_upto(g, t, row, n - 1) + failure_at(
            g.name@,
            row,
            n - 1,
            spec_eval_of(g, t, row, n - 1),
        )
    }
}

/// The outcome of expression `i` of constraint group `g` at `row`.
pub open spec fn spec_eval_of(g: Gate, t: WitnessTable, row: int, i: int) -> EvalV {
    crate::expr::spec_eval(g.expressions@[i], t, row)
}

/// The failures constraint group `g` contributes at `row`: all of its expressions if it
/// is active there, none otherwise.
pub open spec fn gate_row_failures(g: Gate, t: WitnessTable, row: int) -> Seq<FailureV> {
    if gate_active(g, t, row) {
        gate_failures_upto(g, t, row, g.expressions@.len() as int)
    } else {
        Seq::empty()
    }
}

/// The failures the first `n` constraint groups contribute at `row`, in registration
/// order.
pub open spec fn row_failures_upto(gates: Seq<Gate>, t: WitnessTable, row: int, n: int) -> Seq<
    FailureV,
>
    decreases n,
{
    if n <= 0 {
        Seq::empty()
    } else {
        row_failures_upto(gates, t, row, n - 1) + gate_row_failures(gates[n - 1], t, row)
    }
}

/// The failures of the first `n` rows, row-major.
pub open spec fn failures_upto(cs: ConstraintSystem, t: WitnessTable, n: int) -> Seq<FailureV>
    decreases n,
{
    if n <= 0 {
        Seq::empty()
    } else {
        failures_upto(cs, t, n - 1) + row_failures_upto(
            cs.gates@,
            t,
            n - 1,
            cs.gates@.len() as int,
        )
    }
}

/// Every failure of every constraint group at every row of the table, ordered by row,
/// then constraint group registration order, then expression index.
pub open spec fn spec_failures(cs: ConstraintSystem, t: WitnessTable) -> Seq<FailureV> {
    failures_upto(cs, t, t.rows as int)
}

/// A circuit: it declares its columns, selectors and constraint groups in `configure`,
/// and populates a witness table through a layouter in `synthesize`. The two
/// spec functions `configured` and `synthesized` are the impl's own statement
/// of what its two methods accomplish; `configure_succeeds` and
/// `synthesize_succeeds` say when success is owed.
pub trait Circuit: Sized {
    /// The handles `configure` passes to `synthesize`.
    type Config;

    /// What a successful `configure` establishes about the final system and
    /// the config it hands back.
    spec fn configured(cs: ConstraintSystem, cfg: Self::Config) -> bool;

    /// Whether `configure` is bound to succeed.
    spec fn configure_succeeds() -> bool;

    /// What a successful `synthesize` establishes: how the final layouter
    /// `l1` relates to the initial layouter `l0`, the config and the
    /// circuit's own witness values.
    spec fn synthesized(self, cfg: Self::Config, l0: Layouter, l1: Layouter) -> bool;

    /// Whether `synthesize` is bound to succeed from the initial layouter
    /// `l0`.
    spec fn synthesize_succeeds(self, cfg: Self::Config, l0: Layouter) -> bool;

    /// Allocate columns and selectors and register constraint groups on a fresh system.
    fn configure(cs: &mut ConstraintSystem) -> (r: Result<Self::Config, Error>)
        requires
            old(cs).num_advice == 0,
            old(cs).num_selectors == 0,
            old(cs).gates@.len() == 0,
        ensures
            final(cs).wf(),
            r matches Ok(cfg) ==> Self::configured(*final(cs), cfg),
            Self::configure_succeeds() ==> r is Ok,
    ;

    /// Populate the witness table through the layouter.
    fn synthesize(&self, cfg: &Self::Config, layouter: &mut Layouter) -> (r: Result<(), Error>)
        requires
            old(layouter).wf(),
        ensures
            final(layouter).wf(),
            final(layouter).table.rows == old(layouter).table.rows,
            final(layouter).table.advice@.len() == old(layouter).table.advice@.len(),
            final(layouter).table.selectors@.len() == old(layouter).table.selectors@.len(),
            r matches Ok(u) ==> Self::synthesized(*self, *cfg, *old(layouter), *final(layouter)),
            Self::synthesize_succeeds(*self, *cfg, *old(layouter)) ==> r is Ok,
    ;
}

/// `l` wraps a blank table shaped for `cs` with `rows` rows, cursor at row 0.
pub open spec fn blank_for(l: Layouter, cs: ConstraintSystem, rows: int) -> bool {
    &&& l.table.wf()
    &&& l.table.is_blank()
    &&& l.table.advice@.len() == cs.num_advice
    &&& l.table.selectors@.len() == cs.num_selectors
    &&& l.table.rows == rows
    &&& l.next_row == 0
}

/// What `run` establishes about the verifier it returns: its system is one
/// the circuit's `configure` produced, and its table is one the circuit's
/// `synthesize` produced from a blank table of 2^k rows.
pub open spec fn run_post<C: Circuit>(c: C, k: u32, v: Verifier) -> bool {
    &&& v.wf()
    &&& v.table.rows == pow2(k as nat)
    &&& exists|cfg: C::Config, l0: Layouter, l1: Layouter|
        {
            &&& C::configured(v.cs, cfg)
            &&& blank_for(l0, v.cs, v.table.rows as int)
            &&& #[trigger] C::synthesized(c, cfg, l0, l1)
            &&& l1.table == v.table
        }
}

/// What a failed `run` establishes: configuration was not bound to succeed,
/// or synthesis was not bound to succeed from the blank table that
/// configuration's system shapes.
pub open spec fn run_err<C: Circuit>(c: C, k: u32) -> bool {
    ||| !C::configure_succeeds()
    ||| exists|cs: ConstraintSystem, cfg: C::Config, l0: Layouter|
        {
            &&& #[trigger] C::configured(cs, cfg)
            &&& #[trigger] blank_for(l0, cs, pow2(k as nat) as int)
            &&& !C::synthesize_succeeds(c, cfg, l0)
        }
}

/// `2^k`, as a machine word.
fn pow2_usize(k: u32) -> (r: usize)
    requires
        k <= 31,
    ensures
        r == pow2(k as nat),
{
    let mut r: usize = 1;
    let mut i: u32 = 0;
    proof {
        lemma2_to64();
    }
    while i < k
        invariant
            i <= k <= 31,
            r == pow2(i as nat),
        decreases k - i,
    {
        proof {
            lemma2_to64();
            if (i as nat) < 31 {
                lemma_pow2_strictly_increases(i as nat, 31);
            }
            lemma_pow2_unfold((i + 1) as nat);
        }
        r = r * 2;
        i = i + 1;
    }
    r
}

/// A verifier holding a configured constraint group set and a synthesized witness table,
/// ready to be checked.
pub struct Verifier {
    /// The snapshot of columns, selectors and constraint groups that `configure` built.
    pub cs: ConstraintSystem,
    /// The witness table that `synthesize` populated.
    pub table: WitnessTable,
}

impl Verifier {
    /// The constraint group set and the table are well-formed and shaped for each other.
    pub open spec fn wf(self) -> bool {
        &&& self.cs.wf()
        &&& self.table.wf()
        &&& self.table.advice@.len() == self.cs.num_advice
        &&& self.table.selectors@.len() == self.cs.num_selectors
    }

    /// Configure `circuit`, allocate a blank table of `2^k` rows, synthesize
    /// the witness into it, and hand back a verifier over the result. A
    /// failure of either circuit stage is passed through unchanged.
    pub fn run<C: Circuit>(k: u32, circuit: &C, _instances: Vec<Fe>) -> (r: Result<Verifier, Error>)
        requires
            k <= 31,
        ensures
            r matches Ok(v) ==> run_post::<C>(*circuit, k, v),
            r is Err ==> run_err::<C>(*circuit, k),
    {
        let mut cs = ConstraintSystem::new();
        let cfg = match C::configure(&mut cs) {
            Ok(cfg) => cfg,
            Err(e) => {
                return Err(e);
            },
        };
        let rows = pow2_usize(k);
        let table = WitnessTable::new(cs.num_advice, cs.num_selectors, rows);
        let mut layouter = Layouter::new(table);
        let ghost l0 = layouter;
        match circuit.synthesize(&cfg, &mut layouter) {
            Ok(()) => {
                let ghost l1 = layouter;
                let Layouter { table: final_table, next_row: _ } = layouter;
                let v = Verifier { cs, table: final_table };
                proof {
                    assert(C::configured(v.cs, cfg) && blank_for(l0, v.cs, v.table.rows as int)
                        && C::synthesized(*circuit, cfg, l0, l1) && l1.table == v.table);
                }
                Ok(v)
            },
            Err(e) => {
                proof {
                    assert(C::configured(cs, cfg) && blank_for(l0, cs, pow2(k as nat) as int)
                        && !C::synthesize_succeeds(*circuit, cfg, l0));
                }
                Err(e)
            },
        }
    }

    /// Evaluate every constraint group at every row where it is active and collect every
    /// failure, ordered by row, then constraint group registration order, then expression
    /// index. Returns `Ok(())` exactly when nothing failed; re-running on the
    /// same verifier returns the identical result.
    pub fn verify(&self) -> (r: Result<(), Vec<VerifyFailure>>)
        requires
            self.wf(),
        ensures
            verify_post(*self, r),
    {
        let mut failures: Vec<VerifyFailure> = Vec::new();
        let rows = self.table.rows;
        let ngates = self.cs.gates.len();
        let mut row: usize = 0;
        proof {
            assert(views_of(failures@) =~= failures_upto(self.cs, self.table, 0));
        }
        while row < rows
            invariant
                self.wf(),
                rows == self.table.rows,
                ngates == self.cs.gates@.len(),
                row <= rows,
                views_of(failures@) == failures_upto(self.cs, self.table, row as int),
            decreases rows - row,
        {
            let mut gi: usize = 0;
            proof {
                assert(views_of(failures@) =~= failures_upto(self.cs, self.table, row as int)
                    + row_failures_upto(self.cs.gates@, self.table, row as int, 0));
            }
            while gi < ngates
                invariant
                    self.wf(),
                    rows == self.table.rows,
                    ngates == self.cs.gates@.len(),
                    row < rows,
                    gi <= ngates,
                    views_of(failures@) == failures_upto(self.cs, self.table, row as int)
                        + row_failures_upto(self.cs.gates@, self.table, row as int, gi as int),
                decreases ngates - gi,
            {
                let g = &self.cs.gates[gi];
                proof {
                    assert(gate_wf(
                        *g,
                        self.table.advice@.len() as int,
                        self.table.selectors@.len() as int,
                    ));
                }
                let active = gate_is_active(g, &self.table, row);
                if active {
                    let nexprs = g.expressions.len();
                    let mut ei: usize = 0;
                    proof {
                        assert(views_of(failures@) =~= failures_upto(
                            self.cs,
                            self.table,
                            row as int,
                        ) + row_failures_upto(self.cs.gates@, self.table, row as int, gi as int)
                            + gate_failures_upto(*g, self.table, row as int, 0));
                    }
                    while ei < nexprs
                        invariant
                            self.wf(),
                            rows == self.table.rows,
                            ngates == self.cs.gates@.len(),
                            row < rows,
                            gi < ngates,
                            *g == self.cs.gates@[gi as int],
                            gate_active(*g, self.table, row as int),
                            nexprs == g.expressions@.len(),
                            ei <= nexprs,
                            views_of(failures@) == failures_upto(self.cs, self.table, row as int)
                                + row_failures_upto(
                                self.cs.gates@,
                                self.table,
                                row as int,
                                gi as int,
                            ) + gate_failures_upto(*g, self.table, row as int, ei as int),
                        decreases nexprs - ei,
                    {
                        let ghost pre = failures@;
                        let outcome = evaluate(&g.expressions[ei], &self.table, row);
                        match outcome {
                            EvalResult::Val(f) => {
                                if !f.is_zero() {
                                    failures.push(
                                        VerifyFailure::Constraint(
                                            ConstraintFailure {
                                                gate_name: g.name.clone(),
                                                row,
                                                expression_index: ei,
                                            },
                                        ),
                                    );
                                }
                            },
                            EvalResult::NotAssigned { column, row: queried_row } => {
                                failures.push(
                                    VerifyFailure::CellNotAssigned {
                                        gate_name: g.name.clone(),
                                        row,
                                        expression_index: ei,
                                        column,
                                        queried_row,
                                    },
                                );
                            },
                            EvalResult::OutOfRange => {
                                failures.push(
                                    VerifyFailure::RowOutOfRange {
                                        gate_name: g.name.clone(),
                                        row,
                                        expression_index: ei,
                                    },
                                );
                            },
                        }
                        proof {
                            assert(views_of(failures@) =~= views_of(pre) + failure_at(
                                g.name@,
                                row as int,
                                ei as int,
                                spec_eval_of(*g, self.table, row as int, ei as int),
                            ));
                        }
                        ei = ei + 1;
                    }
                } else {
                    proof {
                        assert(gate_row_failures(self.cs.gates@[gi as int], self.table, row as int)
                            =~= Seq::<FailureV>::empty());
                    }
                }
                gi = gi + 1;
            }
            proof {
                assert(failures_upto(self.cs, self.table, row as int + 1) == failures_upto(
                    self.cs,
                    self.table,
                    row as int,
                ) + row_failures_upto(
                    self.cs.gates@,
                    self.table,
                    row as int,
                    self.cs.gates@.len() as int,
                ));
            }
            row = row + 1;
        }
        if failures.len() == 0 {
            proof {
                assert(spec_failures(self.cs, self.table) =~= views_of(failures@));
            }
            Ok(())
        } else {
            Err(failures)
        }
    }
}

/// What `verify` promises of its result: `Ok` exactly when no failure
/// exists, and otherwise the full ordered failure list.
pub open spec fn verify_post(v: Verifier, r: Result<(), Vec<VerifyFailure>>) -> bool {
    match r {
        Ok(u) => spec_failures(v.cs, v.table).len() == 0,
        Err(fs) => views_of(fs@) == spec_failures(v.cs, v.table) && fs@.len() > 0,
    }
}

/// Whether constraint group `g` is active at `row` of `t`.
pub fn gate_is_active(g: &Gate, t: &WitnessTable, row: usize) -> (b: bool)
    requires
        t.wf(),
        row < t.rows,
        gate_wf(*g, t.advice@.len() as int, t.selectors@.len() as int),
    ensures
        b == gate_active(*g, *t, row as int),
{
    let n = g.expressions.len();
    let mut found_sel = false;
    let mut found_on = false;
    let mut i: usize = 0;
    while i < n
        invariant
            t.wf(),
            row < t.rows,
            gate_wf(*g, t.advice@.len() as int, t.selectors@.len() as int),
            n == g.expressions@.len(),
            i <= n,
            found_sel == exists|j: int| 0 <= j < i && expr_has_sel(#[trigger] g.expressions@[j]),
            found_on == exists|j: int|
                0 <= j < i && expr_sel_enabled(#[trigger] g.expressions@[j], *t, row as int),
        decreases n - i,
    {
        let h = check_has_sel(&g.expressions[i]);
        let e = check_sel_enabled(&g.expressions[i], t, row);
        proof {
            if h {
                assert(expr_has_sel(g.expressions@[i as int]));
            }
            if e {
                assert(expr_sel_enabled(g.expressions@[i as int], *t, row as int));
            }
        }
        found_sel = found_sel || h;
        found_on = found_on || e;
        i = i + 1;
    }
    proof {
        lemma_gate_sel_enabled_iff(*g, *t, row as int);
    }
    !found_sel || found_on
}

/// A sequence contains whatever either part of a concatenation contains.
proof fn lemma_contains_in_concat(s1: Seq<FailureV>, s2: Seq<FailureV>, x: FailureV)
    requires
        s1.contains(x) || s2.contains(x),
    ensures
        (s1 + s2).contains(x),
{
    if s1.contains(x) {
        let i = choose|i: int| 0 <= i < s1.len() && s1[i] == x;
        assert((s1 + s2)[i] == x);
    } else {
        let i = choose|i: int| 0 <= i < s2.len() && s2[i] == x;
        assert((s1 + s2)[s1.len() + i] == x);
    }
}

/// A failure of expression `ei` survives into the constraint group's failure list.
proof fn lemma_gate_failure_in(g: Gate, t: WitnessTable, row: int, ei: int, n: int, x: FailureV)
    requires
        0 <= ei < n <= g.expressions@.len(),
        failure_at(g.name@, row, ei, spec_eval_of(g, t, row, ei)).contains(x),
    ensures
        gate_failures_upto(g, t, row, n).contains(x),
    decreases n,
{
    if n - 1 == ei {
        lemma_contains_in_concat(
            gate_failures_upto(g, t, row, n - 1),
            failure_at(g.name@, row, ei, spec_eval_of(g, t, row, ei)),
            x,
        );
    } else {
        lemma_gate_failure_in(g, t, row, ei, n - 1, x);
        lemma_contains_in_concat(
            gate_failures_upto(g, t, row, n - 1),
            failure_at(g.name@, row, n - 1, spec_eval_of(g, t, row, n - 1)),
            x,
        );
    }
}

/// A failure of constraint group `gi` survives into the row's failure list.
proof fn lemma_row_failure_in(
    gates: Seq<Gate>,
    t: WitnessTable,
    row: int,
    gi: int,
    n: int,
    x: FailureV,
)
    requires
        0 <= gi < n <= gates.len(),
        gate_row_failures(gates[gi], t, row).contains(x),
    ensures
        row_failures_upto(gates, t, row, n).contains(x),
    decreases n,
{
    if n - 1 == gi {
        lemma_contains_in_concat(
            row_failures_upto(gates, t, row, n - 1),
            gate_row_failures(gates[gi], t, row),
            x,
        );
    } else {
        lemma_row_failure_in(gates, t, row, gi, n - 1, x);
        lemma_contains_in_concat(
            row_failures_upto(gates, t, row, n - 1),
            gate_row_failures(gates[n - 1], t, row),
            x,
        );
    }
}

/// A failure of a row survives into the table's failure list.
proof fn lemma_table_failure_in(cs: ConstraintSystem, t: WitnessTable, row: int, n: int, x: FailureV)
    requires
        0 <= row < n,
        row_failures_upto(cs.gates@, t, row, cs.gates@.len() as int).contains(x),
    ensures
        failures_upto(cs, t, n).contains(x),
    decreases n,
{
    if n - 1 == row {
        lemma_contains_in_concat(
            failures_upto(cs, t, n - 1),
            row_failures_upto(cs.gates@, t, row, cs.gates@.len() as int),
            x,
        );
    } else {
        lemma_table_failure_in(cs, t, row, n - 1, x);
        lemma_contains_in_concat(
            failures_upto(cs, t, n - 1),
            row_failures_upto(cs.gates@, t, n - 1, cs.gates@.len() as int),
            x,
        );
    }
}

/// An active constraint group that reads an unassigned cell is reported: the failure
/// list contains the corresponding entry, rather than the cell defaulting to
/// zero.
pub proof fn lemma_unassigned_cell_reported(
    cs: ConstraintSystem,
    t: WitnessTable,
    row: int,
    gi: int,
    ei: int,
    column: int,
    queried: int,
)
    requires
        0 <= row < t.rows,
        0 <= gi < cs.gates@.len(),
        gate_active(cs.gates@[gi], t, row),
        0 <= ei < cs.gates@[gi].expressions@.len(),
        spec_eval_of(cs.gates@[gi], t, row, ei) == (EvalV::NotAssigned { column, row: queried }),
    ensures
        spec_failures(cs, t).contains(
            FailureV::CellNotAssigned {
                gate: cs.gates@[gi].name@,
                row,
                expression: ei,
                column,
                queried_row: queried,
            },
        ),
{
    let g = cs.gates@[gi];
    let x = FailureV::CellNotAssigned {
        gate: g.name@,
        row,
        expression: ei,
        column,
        queried_row: queried,
    };
    assert(failure_at(g.name@, row, ei, spec_eval_of(g, t, row, ei))[0] == x);
    lemma_gate_failure_in(g, t, row, ei, g.expressions@.len() as int, x);
    lemma_row_failure_in(cs.gates@, t, row, gi, cs.gates@.len() as int, x);
    lemma_table_failure_in(cs, t, row, t.rows as int, x);
}

/// Re-running verification on the same verifier yields the identical result:
/// the contract of `verify` admits exactly one outcome, so any two results it
/// allows for one verifier agree.
pub proof fn lemma_verify_idempotent(
    v: Verifier,
    r1: Result<(), Vec<VerifyFailure>>,
    r2: Result<(), Vec<VerifyFailure>>,
)
    requires
        verify_post(v, r1),
        verify_post(v, r2),
    ensures
        r1 is Ok <==> r2 is Ok,
        r1 matches Err(f1) ==> r2 matches Err(f2) && views_of(f1@) == views_of(f2@),
{
}

} // verus!
