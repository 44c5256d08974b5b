//! Polynomial expressions over the witness table.
//!
//! An expression is a tree built from field constants, advice-column queries
//! at a row offset (rotation), selector queries, and the algebraic
//! combinators negate, sum and product. `evaluate` reads it against one row
//! of a witness table; `spec_eval` is its mathematical meaning.

use vstd::prelude::*;

verus! {

use crate::field::{fadd, fmul, fneg, Fe};
use crate::table::WitnessTable;

/// A handle for an advice column: an index allocated by a constraint system.
#[derive(Clone, Copy, Debug, PartialEq, Eq, Structural, Hash)]
pub struct Column {
    pub index: usize,
}

/// A handle for a selector: an index allocated by a constraint system.
#[derive(Clone, Copy, Debug, PartialEq, Eq, Structural, Hash)]
pub struct Selector {
    pub index: usize,
}

/// A polynomial expression tree.
#[derive(Debug, PartialEq, Eq)]
pub enum Expr {
    /// A field constant.
    Constant(Fe),
    /// The value of an advice column at the evaluation row plus a rotation.
    ColumnQuery(Column, i32),
    /// The boolean activation of a selector at the evaluation row, as 0 or 1.
    SelectorQuery(Selector),
    /// Additive inverse of a subexpression.
    Negate(Box<Expr>),
    /// Sum of two subexpressions.
    Sum(Box<Expr>, Box<Expr>),
    /// Product of two subexpressions.
    Product(Box<Expr>, Box<Expr>),
}

/// What evaluating an expression at a row yields, at the specification level.
pub enum EvalV {
    /// A field value, as its residue.
    Val(int),
    /// A queried advice cell was never assigned.
    NotAssigned { column: int, row: int },
    /// A rotation reached outside the table.
    OutOfRange,
}

/// What evaluating an expression at a row yields.
#[derive(Clone, Copy, Debug, PartialEq, Eq)]
pub enum EvalResult {
    /// A field value.
    Val(Fe),
    /// The advice cell `(column, row)` was queried but never assigned.
    NotAssigned { column: usize, row: usize },
    /// A rotation reached outside the table.
    OutOfRange,
}

impl View for EvalResult {
    type V = EvalV;

    open spec fn view(&self) -> EvalV {
        match *self {
            EvalResult::Val(f) => EvalV::Val(f.val()),
            EvalResult::NotAssigned { column, row } => EvalV::NotAssigned {
                column: column as int,
                row: row as int,
            },
            EvalResult::OutOfRange => EvalV::OutOfRange,
        }
    }
}

/// Every column and selector the expression queries was allocated: its index
/// lies below the given counts, and every embedded constant is reduced.
pub open spec fn expr_wf(e: Expr, num_advice: int, num_selectors: int) -> bool
    decreases e,
{
    match e {
        Expr::Constant(f) => f.wf(),
        Expr::ColumnQuery(c, _rotation) => c.index < num_advice,
        Expr::SelectorQuery(s) => s.index < num_selectors,
        Expr::Negate(inner) => expr_wf(*inner, num_advice, num_selectors),
        Expr::Sum(l, r) => expr_wf(*l, num_advice, num_selectors) && expr_wf(
            *r,
            num_advice,
            num_selectors,
        ),
        Expr::Product(l, r) => expr_wf(*l, num_advice, num_selectors) && expr_wf(
            *r,
            num_advice,
            num_selectors,
        ),
    }
}

/// The meaning of evaluating `e` against table `t` at absolute row `row`:
/// constants are themselves, column queries read the cell at the rotated row,
/// selector queries coerce the activation bit to 0 or 1, and the combinators
/// apply the field operations. A query of an unassigned cell or of a row
/// outside the table surfaces as an error value; errors propagate outward,
/// the left operand's error first.
pub open spec fn spec_eval(e: Expr, t: WitnessTable, row: int) -> EvalV
    decreases e,
{
    match e {
        Expr::Constant(f) => EvalV::Val(f.val()),
        Expr::ColumnQuery(c, rotation) => {
            let q = row + rotation as int;
            if q < 0 || q >= t.rows {
                EvalV::OutOfRange
            } else {
                match t.cell(c.index as int, q) {
                    Some(f) => EvalV::Val(f.val()),
                    None => EvalV::NotAssigned { column: c.index as int, row: q },
                }
            }
        },
        Expr::SelectorQuery(s) => EvalV::Val(
            if t.sel_on(s.index as int, row) {
                1
            } else {
                0
            },
        ),
        Expr::Negate(inner) => match spec_eval(*inner, t, row) {
            EvalV::Val(a) => EvalV::Val(fneg(a)),
            err => err,
        },
        Expr::Sum(l, r) => match spec_eval(*l, t, row) {
            EvalV::Val(a) => match spec_eval(*r, t, row) {
                EvalV::Val(b) => EvalV::Val(fadd(a, b)),
                err => err,
            },
            err => err,
        },
        Expr::Product(l, r) => match spec_eval(*l, t, row) {
            EvalV::Val(a) => match spec_eval(*r, t, row) {
                EvalV::Val(b) => EvalV::Val(fmul(a, b)),
                err => err,
            },
            err => err,
        },
    }
}

/// Evaluate `e` against `t` at absolute row `row`.
pub fn evaluate(e: &Expr, t: &WitnessTable, row: usize) -> (r: EvalResult)
    requires
        t.wf(),
        row < t.rows,
        expr_wf(*e, t.advice@.len() as int, t.selectors@.len() as int),
    ensures
        r@ == spec_eval(*e, *t, row as int),
        r matches EvalResult::Val(f) ==> f.wf(),
    decreases *e,
{
    match e {
        Expr::Constant(f) => EvalResult::Val(*f),
        Expr::ColumnQuery(c, rotation) => {
            let q: i128 = row as i128 + *rotation as i128;
            if q < 0 || q >= t.rows as i128 {
                EvalResult::OutOfRange
            } else {
                let qr: usize = q as usize;
                match t.get_cell(c.index, qr) {
                    Some(f) => EvalResult::Val(f),
                    None => EvalResult::NotAssigned { column: c.index, row: qr },
                }
            }
        },
        Expr::SelectorQuery(s) => {
            if t.get_sel(s.index, row) {
                EvalResult::Val(Fe::one())
            } else {
                EvalResult::Val(Fe::zero())
            }
        },
        Expr::Negate(inner) => {
            match evaluate(inner, t, row) {
                EvalResult::Val(a) => EvalResult::Val(a.neg()),
                err => err,
            }
        },
        Expr::Sum(l, r) => {
            match evaluate(l, t, row) {
                EvalResult::Val(a) => match evaluate(r, t, row) {
                    EvalResult::Val(b) => EvalResult::Val(a.add(b)),
                    err => err,
                },
                err => err,
            }
        },
        Expr::Product(l, r) => {
            match evaluate(l, t, row) {
                EvalResult::Val(a) => match evaluate(r, t, row) {
                    EvalResult::Val(b) => EvalResult::Val(a.mul(b)),
                    err => err,
                },
                err => err,
            }
        },
    }
}

/// The expression queries selector `s` somewhere in its tree.
pub open spec fn expr_queries_sel(e: Expr, s: int) -> bool
    decreases e,
{
    match e {
        Expr::Constant(_) => false,
        Expr::ColumnQuery(_, _) => false,
        Expr::SelectorQuery(sq) => sq.index == s,
        Expr::Negate(inner) => expr_queries_sel(*inner, s),
        Expr::Sum(l, r) => expr_queries_sel(*l, s) || expr_queries_sel(*r, s),
        Expr::Product(l, r) => expr_queries_sel(*l, s) || expr_queries_sel(*r, s),
    }
}

/// The expression queries at least one selector.
pub open spec fn expr_has_sel(e: Expr) -> bool
    decreases e,
{
    match e {
        Expr::Constant(_) => false,
        Expr::ColumnQuery(_, _) => false,
        Expr::SelectorQuery(_) => true,
        Expr::Negate(inner) => expr_has_sel(*inner),
        Expr::Sum(l, r) => expr_has_sel(*l) || expr_has_sel(*r),
        Expr::Product(l, r) => expr_has_sel(*l) || expr_has_sel(*r),
    }
}

/// Whether the expression queries any selector.
pub fn check_has_sel(e: &Expr) -> (r: bool)
    ensures
        r == expr_has_sel(*e),
    decreases *e,
{
    match e {
        Expr::Constant(_) => false,
        Expr::ColumnQuery(_, _) => false,
        Expr::SelectorQuery(_) => true,
        Expr::Negate(inner) => check_has_sel(inner),
        Expr::Sum(l, r) => check_has_sel(l) || check_has_sel(r),
        Expr::Product(l, r) => check_has_sel(l) || check_has_sel(r),
    }
}

/// Some selector the expression queries is enabled at `row` in `t`.
pub open spec fn expr_sel_enabled(e: Expr, t: WitnessTable, row: int) -> bool
    decreases e,
{
    match e {
        Expr::Constant(_) => false,
        Expr::ColumnQuery(_, _) => false,
        Expr::SelectorQuery(sq) => t.sel_on(sq.index as int, row),
        Expr::Negate(inner) => expr_sel_enabled(*inner, t, row),
        Expr::Sum(l, r) => expr_sel_enabled(*l, t, row) || expr_sel_enabled(*r, t, row),
        Expr::Product(l, r) => expr_sel_enabled(*l, t, row) || expr_sel_enabled(*r, t, row),
    }
}

/// `expr_sel_enabled` says exactly that some queried selector is enabled.
pub proof fn lemma_sel_enabled_exists(e: Expr, t: WitnessTable, row: int)
    ensures
        expr_sel_enabled(e, t, row) <==> exists|s: int| expr_queries_sel(e, s) && t.sel_on(s, row),
    decreases e,
{
    match e {
        Expr::Constant(_) => {
        },
        Expr::ColumnQuery(_, _) => {
        },
        Expr::SelectorQuery(sq) => {
            if t.sel_on(sq.index as int, row) {
                assert(expr_queries_sel(e, sq.index as int) && t.sel_on(sq.index as int, row));
            }
        },
        Expr::Negate(inner) => {
            lemma_sel_enabled_exists(*inner, t, row);
            assert(expr_sel_enabled(e, t, row) == expr_sel_enabled(*inner, t, row));
            if expr_sel_enabled(*inner, t, row) {
                let s = choose|s: int| expr_queries_sel(*inner, s) && t.sel_on(s, row);
                assert(expr_queries_sel(e, s) && t.sel_on(s, row));
            }
            if exists|s: int| expr_queries_sel(e, s) && t.sel_on(s, row) {
                let s = choose|s: int| expr_queries_sel(e, s) && t.sel_on(s, row);
                assert(expr_queries_sel(*inner, s) && t.sel_on(s, row));
            }
        },
        Expr::Sum(l, r) => {
            lemma_sel_enabled_exists(*l, t, row);
            lemma_sel_enabled_exists(*r, t, row);
            assert(expr_sel_enabled(e, t, row) == (expr_sel_enabled(*l, t, row)
                || expr_sel_enabled(*r, t, row)));
            if expr_sel_enabled(*l, t, row) {
                let s = choose|s: int| expr_queries_sel(*l, s) && t.sel_on(s, row);
                assert(expr_queries_sel(e, s) && t.sel_on(s, row));
            } else if expr_sel_enabled(*r, t, row) {
                let s = choose|s: int| expr_queries_sel(*r, s) && t.sel_on(s, row);
                assert(expr_queries_sel(e, s) && t.sel_on(s, row));
            }
            if exists|s: int| expr_queries_sel(e, s) && t.sel_on(s, row) {
                let s = choose|s: int| expr_queries_sel(e, s) && t.sel_on(s, row);
                assert(expr_queries_sel(*l, s) || expr_queries_sel(*r, s));
                if expr_queries_sel(*l, s) {
                    assert(expr_queries_sel(*l, s) && t.sel_on(s, row));
                } else {
                    assert(expr_queries_sel(*r, s) && t.sel_on(s, row));
                }
            }
        },
        Expr::Product(l, r) => {
            lemma_sel_enabled_exists(*l, t, row);
            lemma_sel_enabled_exists(*r, t, row);
            assert(expr_sel_enabled(e, t, row) == (expr_sel_enabled(*l, t, row)
                || expr_sel_enabled(*r, t, row)));
            if expr_sel_enabled(*l, t, row) {
                let s = choose|s: int| expr_queries_sel(*l, s) && t.sel_on(s, row);
                assert(expr_queries_sel(e, s) && t.sel_on(s, row));
            } else if expr_sel_enabled(*r, t, row) {
                let s = choose|s: int| expr_queries_sel(*r, s) && t.sel_on(s, row);
                assert(expr_queries_sel(e, s) && t.sel_on(s, row));
            }
            if exists|s: int| expr_queries_sel(e, s) && t.sel_on(s, row) {
                let s = choose|s: int| expr_queries_sel(e, s) && t.sel_on(s, row);
                assert(expr_queries_sel(*l, s) || expr_queries_sel(*r, s));
                if expr_queries_sel(*l, s) {
                    assert(expr_queries_sel(*l, s) && t.sel_on(s, row));
                } else {
                    assert(expr_queries_sel(*r, s) && t.sel_on(s, row));
                }
            }
        },
    }
}

/// Whether some selector the expression queries is enabled at `row` in `t`.
pub fn check_sel_enabled(e: &Expr, t: &WitnessTable, row: usize) -> (r: bool)
    requires
        t.wf(),
        row < t.rows,
        expr_wf(*e, t.advice@.len() as int, t.selectors@.len() as int),
    ensures
        r == expr_sel_enabled(*e, *t, row as int),
    decreases *e,
{
    match e {
        Expr::Constant(_) => false,
        Expr::ColumnQuery(_, _) => false,
        Expr::SelectorQuery(sq) => t.get_sel(sq.index, row),
        Expr::Negate(inner) => check_sel_enabled(inner, t, row),
        Expr::Sum(l, r) => {
            let rl = check_sel_enabled(l, t, row);
            rl || check_sel_enabled(r, t, row)
        },
        Expr::Product(l, r) => {
            let rl = check_sel_enabled(l, t, row);
            rl || check_sel_enabled(r, t, row)
        },
    }
}

impl Expr {
    /// A constant expression.
    pub fn constant(f: Fe) -> (r: Expr)
        ensures
            r == Expr::Constant(f),
    {
        Expr::Constant(f)
    }

    /// Query an advice column at the given rotation.
    pub fn query_advice(c: Column, rotation: i32) -> (r: Expr)
        ensures
            r == Expr::ColumnQuery(c, rotation),
    {
        Expr::ColumnQuery(c, rotation)
    }

    /// Query a selector's activation at the evaluation row.
    pub fn query_selector(s: Selector) -> (r: Expr)
        ensures
            r == Expr::SelectorQuery(s),
    {
        Expr::SelectorQuery(s)
    }

    /// The additive inverse of this expression.
    pub fn negate(self) -> (r: Expr)
        ensures
            r == Expr::Negate(Box::new(self)),
    {
        Expr::Negate(Box::new(self))
    }

    /// The sum of two expressions.
    pub fn plus(self, other: Expr) -> (r: Expr)
        ensures
            r == Expr::Sum(Box::new(self), Box::new(other)),
    {
        Expr::Sum(Box::new(self), Box::new(other))
    }

    /// The difference of two expressions, as a sum with a negation.
    pub fn minus(self, other: Expr) -> (r: Expr)
        ensures
            r == Expr::Sum(Box::new(self), Box::new(Expr::Negate(Box::new(other)))),
    {
        Expr::Sum(Box::new(self), Box::new(Expr::Negate(Box::new(other))))
    }

    /// The product of two expressions.
    pub fn times(self, other: Expr) -> (r: Expr)
        ensures
            r == Expr::Product(Box::new(self), Box::new(other)),
    {
        Expr::Product(Box::new(self), Box::new(other))
    }
}

/// Whether every query in the expression refers to an allocated column or
/// selector and every constant is reduced.
pub fn check_expr_wf(e: &Expr, num_advice: usize, num_selectors: usize) -> (r: bool)
    ensures
        r == expr_wf(*e, num_advice as int, num_selectors as int),
    decreases *e,
{
    match e {
        Expr::Constant(f) => f.is_wf(),
        Expr::ColumnQuery(c, _rotation) => c.index < num_advice,
        Expr::SelectorQuery(s) => s.index < num_selectors,
        Expr::Negate(inner) => check_expr_wf(inner, num_advice, num_selectors),
        Expr::Sum(l, r) => check_expr_wf(l, num_advice, num_selectors) && check_expr_wf(
            r,
            num_advice,
            num_selectors,
        ),
        Expr::Product(l, r) => check_expr_wf(l, num_advice, num_selectors) && check_expr_wf(
            r,
            num_advice,
            num_selectors,
        ),
    }
}

} // verus!
