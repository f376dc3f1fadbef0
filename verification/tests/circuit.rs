use arith_circuit::chip::MyChip;
use arith_circuit::circuit::MyCircuit;
use arith_circuit::column::{Cell, Column};
use arith_circuit::constraint_system::ConstraintSystem;
use arith_circuit::error::Error;
use arith_circuit::field::{Fe, Field};
use arith_circuit::layouter::Layouter;
use arith_circuit::prover::{MockProver, Violation};
use arith_circuit::value::Value;

fn known(v: u64) -> Value<Fe> {
    Value::known(Fe::from_u64(v))
}

fn circuit(a: u64, b: u64, c: u64, constant: u64) -> MyCircuit<Fe> {
    MyCircuit { constant: Fe::from_u64(constant), a: known(a), b: known(b), c: known(c) }
}

fn advice(column: usize, row: usize) -> Cell {
    Cell { column: Column::advice(column), row }
}

fn gate(name: &str, gate: usize, row: usize) -> Violation {
    Violation::Gate { name: name.to_string(), gate, poly: 0, row }
}

#[test]
fn example_circuit_verifies() {
    let d = Fe::from_u64(230);
    let prover = MockProver::run(5, &circuit(10, 5, 3, 2), vec![vec![d]]).unwrap();
    assert_eq!(prover.verify(), Ok(()));
    assert_eq!(prover.table().get(Column::advice(0), 11), Value::known(d));
    assert_eq!(prover.table().rows(), 32);
}

#[test]
fn tampered_public_input_gives_one_violation() {
    let d = Fe::from_u64(231);
    let prover = MockProver::run(5, &circuit(10, 5, 3, 2), vec![vec![d]]).unwrap();
    let expected = Violation::PublicInput {
        cell: advice(0, 11),
        input: Cell { column: Column::instance(0), row: 0 },
    };
    assert_eq!(prover.verify(), Err(vec![expected]));
}

#[test]
fn missing_public_input_gives_one_violation() {
    let expected = Violation::PublicInput {
        cell: advice(0, 11),
        input: Cell { column: Column::instance(0), row: 0 },
    };
    let prover = MockProver::run(5, &circuit(10, 5, 3, 2), vec![vec![]]).unwrap();
    assert_eq!(prover.verify(), Err(vec![expected]));
    let expected = Violation::PublicInput {
        cell: advice(0, 11),
        input: Cell { column: Column::instance(0), row: 0 },
    };
    let prover = MockProver::run(5, &circuit(10, 5, 3, 2), vec![]).unwrap();
    assert_eq!(prover.verify(), Err(vec![expected]));
}

#[test]
fn circuit_verifies_for_other_witnesses() {
    let cases: [(u64, u64, u64, u64); 5] =
        [(0, 0, 0, 0), (1, 1, 1, 1), (7, 11, 13, 17), (0, 9, 9, 3), (1 << 20, 3, 5, 1 << 10)];
    for &(a, b, c, constant) in cases.iter() {
        let d = Fe::from_u64(constant * (a * a + b * c));
        let prover = MockProver::run(4, &circuit(a, b, c, constant), vec![vec![d]]).unwrap();
        assert_eq!(prover.verify(), Ok(()));
    }
}

#[test]
fn circuit_verifies_for_witnesses_that_wrap() {
    let minus_one = Fe::zero().sub(&Fe::one());
    let big = MyCircuit {
        constant: minus_one,
        a: Value::known(minus_one),
        b: Value::known(minus_one),
        c: Value::known(Fe::from_u64(2)),
    };
    // (-1) * ((-1) * (-1) + (-1) * 2) = (-1) * (1 - 2) = 1
    let prover = MockProver::run(4, &big, vec![vec![Fe::one()]]).unwrap();
    assert_eq!(prover.verify(), Ok(()));
    let prover = MockProver::run(4, &big, vec![vec![minus_one]]).unwrap();
    assert!(prover.verify().is_err());
}

#[test]
fn too_few_rows_is_out_of_rows() {
    let d = Fe::from_u64(230);
    for k in 0..4 {
        let r = MockProver::run(k, &circuit(10, 5, 3, 2), vec![vec![d]]);
        assert_eq!(r.err(), Some(Error::OutOfRows));
    }
    assert!(MockProver::run(4, &circuit(10, 5, 3, 2), vec![vec![d]]).is_ok());
}

#[test]
fn verifying_twice_gives_the_same_answer() {
    let prover = MockProver::run(5, &circuit(10, 5, 3, 2), vec![vec![Fe::from_u64(230)]]).unwrap();
    assert_eq!(prover.verify(), prover.verify());
    let prover = MockProver::run(5, &circuit(10, 5, 3, 2), vec![vec![Fe::from_u64(1)]]).unwrap();
    let once = prover.verify();
    let again = prover.verify();
    assert!(once.is_err());
    assert_eq!(once, again);
}

#[test]
fn broken_multiplication_is_rejected() {
    let mut cs = ConstraintSystem::<Fe>::new();
    let config = MyCircuit::<Fe>::configure(&mut cs);
    let mut layouter = Layouter::new(&cs, 2, vec![vec![]]);
    layouter.begin_region("bad product");
    layouter.enable_selector(config.s_mul, 0).unwrap();
    layouter.assign_advice(config.advice[0], 0, known(2)).unwrap();
    layouter.assign_advice(config.advice[1], 0, known(3)).unwrap();
    layouter.assign_advice(config.advice[0], 1, known(7)).unwrap();
    let prover = MockProver::new(cs, layouter.finish());
    assert_eq!(prover.verify(), Err(vec![gate("mul", 0, 0)]));
}

#[test]
fn correct_multiplication_is_accepted() {
    let mut cs = ConstraintSystem::<Fe>::new();
    let config = MyCircuit::<Fe>::configure(&mut cs);
    let mut layouter = Layouter::new(&cs, 2, vec![vec![]]);
    layouter.begin_region("product");
    layouter.enable_selector(config.s_mul, 0).unwrap();
    layouter.assign_advice(config.advice[0], 0, known(2)).unwrap();
    layouter.assign_advice(config.advice[1], 0, known(3)).unwrap();
    layouter.assign_advice(config.advice[0], 1, known(6)).unwrap();
    let prover = MockProver::new(cs, layouter.finish());
    assert_eq!(prover.verify(), Ok(()));
}

#[test]
fn broken_addition_is_rejected() {
    let mut cs = ConstraintSystem::<Fe>::new();
    let config = MyCircuit::<Fe>::configure(&mut cs);
    let mut layouter = Layouter::new(&cs, 2, vec![vec![]]);
    layouter.begin_region("bad sum");
    layouter.enable_selector(config.s_add, 2).unwrap();
    layouter.assign_advice(config.advice[0], 2, known(2)).unwrap();
    layouter.assign_advice(config.advice[1], 2, known(3)).unwrap();
    layouter.assign_advice(config.advice[0], 3, known(6)).unwrap();
    let prover = MockProver::new(cs, layouter.finish());
    assert_eq!(prover.verify(), Err(vec![gate("add", 1, 2)]));
}

#[test]
fn a_gate_on_the_last_row_reads_the_first() {
    let mut cs = ConstraintSystem::<Fe>::new();
    let config = MyCircuit::<Fe>::configure(&mut cs);
    let mut layouter = Layouter::new(&cs, 1, vec![vec![]]);
    layouter.begin_region("wrapped");
    layouter.assign_advice(config.advice[0], 0, known(12)).unwrap();
    layouter.enable_selector(config.s_add, 1).unwrap();
    layouter.assign_advice(config.advice[0], 1, known(5)).unwrap();
    layouter.assign_advice(config.advice[1], 1, known(7)).unwrap();
    let prover = MockProver::new(cs, layouter.finish());
    assert_eq!(prover.verify(), Ok(()));
}

#[test]
fn an_active_gate_over_an_unknown_cell_is_rejected() {
    let mut cs = ConstraintSystem::<Fe>::new();
    let config = MyCircuit::<Fe>::configure(&mut cs);
    let mut layouter = Layouter::new(&cs, 2, vec![vec![]]);
    layouter.begin_region("unassigned");
    layouter.enable_selector(config.s_mul, 0).unwrap();
    layouter.assign_advice(config.advice[0], 0, known(2)).unwrap();
    layouter.assign_advice(config.advice[0], 1, known(6)).unwrap();
    let prover = MockProver::new(cs, layouter.finish());
    assert_eq!(prover.verify(), Err(vec![gate("mul", 0, 0)]));
}

#[test]
fn all_violations_are_reported_in_order() {
    let mut cs = ConstraintSystem::<Fe>::new();
    let config = MyCircuit::<Fe>::configure(&mut cs);
    let mut layouter = Layouter::new(&cs, 2, vec![vec![Fe::from_u64(1)]]);
    layouter.begin_region("everything wrong");
    layouter.enable_selector(config.s_mul, 0).unwrap();
    layouter.enable_selector(config.s_add, 0).unwrap();
    layouter.enable_selector(config.s_add, 2).unwrap();
    let x = layouter.assign_advice(config.advice[0], 0, known(2)).unwrap();
    let y = layouter.assign_advice(config.advice[1], 0, known(3)).unwrap();
    layouter.assign_advice(config.advice[0], 1, known(7)).unwrap();
    layouter.constrain_instance(x.cell(), config.instance, 0).unwrap();
    let mut table = layouter.finish();
    table.copy(x.cell(), y.cell());
    let prover = MockProver::new(cs, table);
    let expected = vec![
        gate("mul", 0, 0),
        gate("add", 1, 0),
        gate("add", 1, 2),
        Violation::Copy { left: advice(0, 0), right: advice(1, 0) },
        Violation::PublicInput {
            cell: advice(0, 0),
            input: Cell { column: Column::instance(0), row: 0 },
        },
    ];
    assert_eq!(prover.verify(), Err(expected));
}

#[test]
fn overwriting_a_copied_cell_is_reported_for_that_pair() {
    let mut cs = ConstraintSystem::<Fe>::new();
    let config = MyCircuit::<Fe>::configure(&mut cs);
    let layouter = Layouter::new(&cs, 4, vec![vec![Fe::from_u64(230)]]);
    let layouter = circuit(10, 5, 3, 2).synthesize(config, layouter).unwrap();
    let mut table = layouter.finish();
    assert_eq!(table.num_copies(), 9);
    assert_eq!(table.copy_at(2), (advice(1, 4), advice(0, 0)));
    table.set(Column::advice(1), 4, known(11));
    let prover = MockProver::new(cs, table);
    let violations = prover.verify().unwrap_err();
    assert!(violations.contains(&Violation::Copy { left: advice(1, 4), right: advice(0, 0) }));
    assert_eq!(
        violations,
        vec![gate("mul", 0, 4), Violation::Copy { left: advice(1, 4), right: advice(0, 0) }]
    );
}

#[test]
fn overwriting_the_source_of_a_copy_is_reported_for_every_pair() {
    let mut cs = ConstraintSystem::<Fe>::new();
    let config = MyCircuit::<Fe>::configure(&mut cs);
    let layouter = Layouter::new(&cs, 4, vec![vec![Fe::from_u64(230)]]);
    let layouter = circuit(10, 5, 3, 2).synthesize(config, layouter).unwrap();
    let mut table = layouter.finish();
    table.set(Column::advice(0), 0, known(11));
    let prover = MockProver::new(cs, table);
    assert_eq!(
        prover.verify(),
        Err(vec![
            Violation::Copy { left: advice(0, 4), right: advice(0, 0) },
            Violation::Copy { left: advice(1, 4), right: advice(0, 0) },
        ])
    );
}

#[test]
fn equality_is_enforced_only_between_enabled_columns() {
    let mut cs = ConstraintSystem::<Fe>::new();
    let first = cs.advice_column();
    let second = cs.advice_column();
    cs.enable_equality(first);
    let mut layouter = Layouter::new(&cs, 1, vec![]);
    layouter.begin_region("pairs");
    let x = layouter.assign_advice(first, 0, known(1)).unwrap();
    let y = layouter.assign_advice(first, 1, known(2)).unwrap();
    let z = layouter.assign_advice(second, 0, known(3)).unwrap();
    let mut table = layouter.finish();
    table.copy(x.cell(), z.cell());
    table.copy(x.cell(), y.cell());
    let prover = MockProver::new(cs, table);
    assert_eq!(
        prover.verify(),
        Err(vec![Violation::Copy { left: advice(0, 0), right: advice(0, 1) }])
    );
}

#[test]
fn structure_only_run_succeeds_and_does_not_verify() {
    let blank = circuit(10, 5, 3, 2).without_witnesses();
    let prover = MockProver::run(5, &blank, vec![vec![Fe::from_u64(230)]]).unwrap();
    let violations = prover.verify().unwrap_err();
    assert_eq!(violations.len(), 12);
    assert_eq!(violations[0], gate("mul", 0, 4));
    assert_eq!(violations[1], gate("mul", 0, 6));
    assert_eq!(violations[2], gate("add", 1, 8));
    assert_eq!(violations[3], gate("mul", 0, 10));
    assert_eq!(violations[4], Violation::Copy { left: advice(0, 4), right: advice(0, 0) });
    assert_eq!(
        violations[11],
        Violation::PublicInput {
            cell: advice(0, 11),
            input: Cell { column: Column::instance(0), row: 0 },
        }
    );
}

#[test]
fn default_circuit_has_no_witnesses() {
    let blank = MyCircuit::<Fe>::default();
    assert_eq!(blank.constant, Fe::zero());
    assert!(!blank.a.is_known());
    assert!(!blank.b.is_known());
    assert!(!blank.c.is_known());
    let chip = MyChip::new(MyCircuit::<Fe>::configure(&mut ConstraintSystem::new()));
    assert_eq!(chip.config.advice[1], Column::advice(1));
}
