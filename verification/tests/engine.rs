//! End-to-end tests of the arithmetization engine: the example circuit under
//! mock verification, and the engine's pieces driven directly.

use gougu::error::{ConfigurationError, Error, ShapeError};
use gougu::expr::{EvalResult, Expr};
use gougu::field::Fe;
use gougu::layout::Layouter;
use gougu::pythagorean::PythagoreanTriple;
use gougu::system::ConstraintSystem;
use gougu::table::WitnessTable;
use gougu::verify::{ConstraintFailure, Verifier, VerifyFailure};

fn triple(a: u64, b: u64, c: u64) -> PythagoreanTriple {
    PythagoreanTriple { a: Fe::from_u64(a), b: Fe::from_u64(b), c: Fe::from_u64(c) }
}

#[test]
fn test_pythagorean_triple() {
    let circuit = triple(3, 4, 5);

    let prover = Verifier::run(8, &circuit, vec![]).unwrap();

    assert_eq!(prover.verify(), Ok(()));
}

#[test]
fn satisfied_witness_five_twelve_thirteen() {
    let prover = Verifier::run(4, &triple(5, 12, 13), vec![]).unwrap();
    assert_eq!(prover.verify(), Ok(()));
}

#[test]
fn violated_witness_single_failure_at_row_zero() {
    let prover = Verifier::run(8, &triple(1, 2, 3), vec![]).unwrap();
    let failures = prover.verify().unwrap_err();
    assert_eq!(
        failures,
        vec![VerifyFailure::Constraint(ConstraintFailure {
            gate_name: "Pythagorean triple check".to_owned(),
            row: 0,
            expression_index: 0,
        })]
    );
}

#[test]
fn zero_witness_satisfies_trivially() {
    let prover = Verifier::run(8, &triple(0, 0, 0), vec![]).unwrap();
    assert_eq!(prover.verify(), Ok(()));
}

#[test]
fn boundary_single_row_table_suffices() {
    // k = 0 gives exactly the one row the region needs.
    let prover = Verifier::run(0, &triple(3, 4, 5), vec![]).unwrap();
    assert_eq!(prover.verify(), Ok(()));
}

#[test]
fn unassigned_rows_without_selector_are_ignored() {
    // 2^8 rows, only row 0 assigned: the other 255 rows carry no enabled
    // selector, so their unassigned cells must not surface as failures.
    let prover = Verifier::run(8, &triple(6, 8, 10), vec![]).unwrap();
    assert_eq!(prover.verify(), Ok(()));
}

#[test]
fn verify_is_idempotent() {
    let prover = Verifier::run(8, &triple(1, 1, 1), vec![]).unwrap();
    let first = prover.verify();
    let second = prover.verify();
    assert!(first.is_err());
    assert_eq!(first, second);

    let clean = Verifier::run(8, &triple(3, 4, 5), vec![]).unwrap();
    assert_eq!(clean.verify(), clean.verify());
}

#[test]
fn unassigned_cell_under_enabled_selector_is_reported() {
    // A constraint group reads a column that synthesis never assigns, with its selector
    // enabled at row 0: verification must surface the missing cell rather
    // than defaulting it to zero.
    let mut cs = ConstraintSystem::new();
    let col = cs.advice_column();
    let sel = cs.selector();
    let gate = Expr::query_selector(sel).times(Expr::query_advice(col, 0));
    cs.create_gate("reads unassigned".to_owned(), vec![gate]).unwrap();

    let table = WitnessTable::new(1, 1, 4);
    let mut layouter = Layouter::new(table);
    let mut region = layouter.region_start("partial");
    layouter.enable_selector(&mut region, sel, 0).unwrap();
    layouter.region_end(region);

    let verifier = Verifier { cs, table: layouter.table };
    let failures = verifier.verify().unwrap_err();
    assert_eq!(
        failures,
        vec![VerifyFailure::CellNotAssigned {
            gate_name: "reads unassigned".to_owned(),
            row: 0,
            expression_index: 0,
            column: 0,
            queried_row: 0,
        }]
    );
}

#[test]
fn rotation_out_of_range_is_reported() {
    // The constraint group reads the previous row; at row 0 that is outside the table.
    let mut cs = ConstraintSystem::new();
    let col = cs.advice_column();
    let sel = cs.selector();
    let gate = Expr::query_selector(sel).times(Expr::query_advice(col, -1));
    cs.create_gate("reads previous row".to_owned(), vec![gate]).unwrap();

    let table = WitnessTable::new(1, 1, 4);
    let mut layouter = Layouter::new(table);
    let mut region = layouter.region_start("top");
    layouter.enable_selector(&mut region, sel, 0).unwrap();
    layouter.assign_advice(&mut region, col, 0, Fe::from_u64(7)).unwrap();
    layouter.region_end(region);

    let verifier = Verifier { cs, table: layouter.table };
    let failures = verifier.verify().unwrap_err();
    assert_eq!(
        failures,
        vec![VerifyFailure::RowOutOfRange {
            gate_name: "reads previous row".to_owned(),
            row: 0,
            expression_index: 0,
        }]
    );
}

#[test]
fn selectorless_gate_is_checked_at_every_row() {
    // A constraint group querying no selector is active everywhere; a nonzero constant
    // fails at every row, in row order.
    let mut cs = ConstraintSystem::new();
    cs.create_gate("always five".to_owned(), vec![Expr::constant(Fe::from_u64(5))]).unwrap();

    let table = WitnessTable::new(0, 0, 2);
    let verifier = Verifier { cs, table };
    let failures = verifier.verify().unwrap_err();
    let expected_rows: Vec<usize> = vec![0, 1];
    let got_rows: Vec<usize> = failures
        .iter()
        .map(|f| match f {
            VerifyFailure::Constraint(cf) => cf.row,
            _ => panic!("expected constraint failures"),
        })
        .collect();
    assert_eq!(got_rows, expected_rows);

    let mut cs2 = ConstraintSystem::new();
    cs2.create_gate("always zero".to_owned(), vec![Expr::constant(Fe::zero())]).unwrap();
    let verifier2 = Verifier { cs: cs2, table: WitnessTable::new(0, 0, 2) };
    assert_eq!(verifier2.verify(), Ok(()));
}

#[test]
fn duplicate_gate_name_is_rejected() {
    let mut cs = ConstraintSystem::new();
    cs.create_gate("g".to_owned(), vec![]).unwrap();
    assert_eq!(
        cs.create_gate("g".to_owned(), vec![]),
        Err(Error::Configuration(ConfigurationError::DuplicateGateName))
    );
}

#[test]
fn dangling_query_is_rejected() {
    let mut cs = ConstraintSystem::new();
    let col = cs.advice_column();
    // No selector was ever allocated: a selector query at index 0 dangles.
    let dangling = gougu::expr::Selector { index: 0 };
    let gate = Expr::query_selector(dangling).times(Expr::query_advice(col, 0));
    assert_eq!(
        cs.create_gate("dangles".to_owned(), vec![gate]),
        Err(Error::Configuration(ConfigurationError::UnallocatedQuery))
    );
}

#[test]
fn assignment_beyond_last_row_is_too_small() {
    let table = WitnessTable::new(1, 0, 1);
    let mut layouter = Layouter::new(table);
    let mut region = layouter.region_start("overflowing");
    let col = gougu::expr::Column { index: 0 };
    layouter.assign_advice(&mut region, col, 0, Fe::from_u64(1)).unwrap();
    assert_eq!(
        layouter.assign_advice(&mut region, col, 1, Fe::from_u64(2)),
        Err(Error::Shape(ShapeError::TooSmall))
    );
}

#[test]
fn regions_are_laid_out_consecutively() {
    let table = WitnessTable::new(1, 0, 8);
    let mut layouter = Layouter::new(table);
    let col = gougu::expr::Column { index: 0 };

    let mut first = layouter.region_start("first");
    layouter.assign_advice(&mut first, col, 0, Fe::from_u64(10)).unwrap();
    layouter.assign_advice(&mut first, col, 1, Fe::from_u64(11)).unwrap();
    layouter.region_end(first);
    assert_eq!(layouter.next_row, 2);

    let mut second = layouter.region_start("second");
    layouter.assign_advice(&mut second, col, 0, Fe::from_u64(20)).unwrap();
    layouter.region_end(second);
    assert_eq!(layouter.next_row, 3);

    // The second region's relative row 0 landed on absolute row 2.
    assert_eq!(layouter.table.get_cell(0, 2), Some(Fe::from_u64(20)));
    assert_eq!(layouter.table.get_cell(0, 0), Some(Fe::from_u64(10)));
    assert_eq!(layouter.table.get_cell(0, 1), Some(Fe::from_u64(11)));
    assert_eq!(layouter.table.get_cell(0, 3), None);
}

#[test]
fn evaluate_combines_with_field_operations() {
    // 3*3 + 4*4 - 5*5 evaluates to the additive identity.
    let table = WitnessTable::new(3, 1, 2);
    let mut layouter = Layouter::new(table);
    let a = gougu::expr::Column { index: 0 };
    let b = gougu::expr::Column { index: 1 };
    let c = gougu::expr::Column { index: 2 };
    let mut region = layouter.region_start("r");
    layouter.assign_advice(&mut region, a, 0, Fe::from_u64(3)).unwrap();
    layouter.assign_advice(&mut region, b, 0, Fe::from_u64(4)).unwrap();
    layouter.assign_advice(&mut region, c, 0, Fe::from_u64(5)).unwrap();
    layouter.region_end(region);
    let t = layouter.table;

    let aa = Expr::query_advice(a, 0).times(Expr::query_advice(a, 0));
    let bb = Expr::query_advice(b, 0).times(Expr::query_advice(b, 0));
    let cc = Expr::query_advice(c, 0).times(Expr::query_advice(c, 0));
    let poly = aa.plus(bb).minus(cc);
    assert_eq!(gougu::expr::evaluate(&poly, &t, 0), EvalResult::Val(Fe::zero()));

    // At row 1 nothing is assigned: the first queried cell surfaces.
    let again = Expr::query_advice(a, 0).plus(Expr::query_advice(b, 0));
    assert_eq!(
        gougu::expr::evaluate(&again, &t, 1),
        EvalResult::NotAssigned { column: 0, row: 1 }
    );
}
