use arith_circuit::chip::{MyChip, MyConfig, Number};
use arith_circuit::circuit::MyCircuit;
use arith_circuit::column::{Cell, Column, Selector};
use arith_circuit::constraint_system::ConstraintSystem;
use arith_circuit::error::Error;
use arith_circuit::expression::{absorbing_product, wrapped_row, Expression, CUR, NEXT};
use arith_circuit::field::{Fe, Field};
use arith_circuit::layouter::{table_rows, Layouter};
use arith_circuit::table::Table;
use arith_circuit::value::Value;

fn known(v: u64) -> Value<Fe> {
    Value::known(Fe::from_u64(v))
}

fn configured() -> (ConstraintSystem<Fe>, MyConfig) {
    let mut cs = ConstraintSystem::<Fe>::new();
    let config = MyCircuit::<Fe>::configure(&mut cs);
    (cs, config)
}

#[test]
fn configure_declares_columns_selectors_and_gates() {
    let (cs, config) = configured();
    assert_eq!(cs.num_advice(), 2);
    assert_eq!(cs.num_instance(), 1);
    assert_eq!(cs.num_fixed(), 1);
    assert_eq!(cs.num_selectors(), 2);
    assert_eq!(config.advice, [Column::advice(0), Column::advice(1)]);
    assert_eq!(config.instance, Column::instance(0));
    assert_eq!(config.s_mul, Selector { index: 0 });
    assert_eq!(config.s_add, Selector { index: 1 });
    assert_eq!(cs.constants_column(), Some(Column::fixed(0)));
    assert!(cs.equality_enabled(Column::advice(0)));
    assert!(cs.equality_enabled(Column::advice(1)));
    assert!(cs.equality_enabled(Column::instance(0)));
    assert!(cs.equality_enabled(Column::fixed(0)));
    assert!(!cs.equality_enabled(Column::advice(2)));
    assert_eq!(cs.num_gates(), 2);
    assert_eq!(cs.gate(0).name().as_str(), "mul");
    assert_eq!(cs.gate(1).name().as_str(), "add");
    assert_eq!(cs.gate(0).polys().len(), 1);
    assert_eq!(cs.gate(1).polys().len(), 1);
}

#[test]
fn registry_counts_columns_in_order() {
    let mut cs = ConstraintSystem::<Fe>::new();
    assert_eq!(cs.advice_column(), Column::advice(0));
    assert_eq!(cs.advice_column(), Column::advice(1));
    assert_eq!(cs.advice_column(), Column::advice(2));
    assert_eq!(cs.fixed_column(), Column::fixed(0));
    assert_eq!(cs.instance_column(), Column::instance(0));
    assert_eq!(cs.selector(), Selector { index: 0 });
    assert_eq!(cs.constants_column(), None);
    assert!(!cs.equality_enabled(Column::advice(0)));
    cs.enable_equality(Column::advice(1));
    assert!(cs.equality_enabled(Column::advice(1)));
    assert!(!cs.equality_enabled(Column::advice(0)));
}

#[test]
fn table_has_two_to_the_k_rows() {
    assert_eq!(table_rows(0), 1);
    assert_eq!(table_rows(5), 32);
    assert_eq!(table_rows(10), 1024);
    let (cs, _) = configured();
    let layouter = Layouter::new(&cs, 5, vec![vec![]]);
    assert_eq!(layouter.table().rows(), 32);
    assert_eq!(layouter.room(), 32);
    assert_eq!(layouter.num_regions(), 0);
}

#[test]
fn rows_wrap_around_at_the_end() {
    assert_eq!(wrapped_row(32, 4, CUR), 4);
    assert_eq!(wrapped_row(32, 4, NEXT), 5);
    assert_eq!(wrapped_row(32, 31, NEXT), 0);
    assert_eq!(wrapped_row(32, 31, 33), 0);
    assert_eq!(wrapped_row(1, 0, usize::MAX), 0);
    assert_eq!(wrapped_row(usize::MAX, usize::MAX - 1, usize::MAX - 1), usize::MAX - 2);
}

#[test]
fn zero_absorbs_an_unknown_factor_inside_a_gate() {
    let zero = known(0);
    let two = known(2);
    let unknown = Value::<Fe>::unknown();
    assert_eq!(absorbing_product(&two, &known(3)), known(6));
    assert_eq!(absorbing_product(&zero, &unknown), known(0));
    assert_eq!(absorbing_product(&unknown, &zero), known(0));
    assert_eq!(absorbing_product(&two, &unknown), Value::unknown());
    assert_eq!(absorbing_product(&unknown, &unknown), Value::unknown());
}

#[test]
fn expressions_evaluate_over_the_table() {
    let mut table = Table::new(2, 1, 1, 4, vec![vec![Fe::from_u64(9)]]);
    table.set(Column::advice(0), 0, known(6));
    table.set(Column::advice(1), 0, known(7));
    table.set(Column::advice(0), 1, known(42));
    table.set(Column::fixed(0), 3, known(5));
    table.enable(Selector { index: 0 }, 0);

    let lhs = Expression::query(Column::advice(0), CUR);
    let rhs = Expression::query(Column::advice(1), CUR);
    assert_eq!(lhs.evaluate(&table, 0), known(6));
    assert_eq!(rhs.evaluate(&table, 0), known(7));
    assert_eq!(Expression::query(Column::advice(0), NEXT).evaluate(&table, 0), known(42));
    assert_eq!(Expression::query(Column::advice(0), NEXT).evaluate(&table, 3), known(6));
    assert_eq!(Expression::query(Column::advice(0), CUR).evaluate(&table, 2), Value::unknown());
    assert_eq!(Expression::query(Column::advice(5), CUR).evaluate(&table, 0), Value::unknown());
    assert_eq!(Expression::query(Column::fixed(0), CUR).evaluate(&table, 3), known(5));
    assert_eq!(Expression::query(Column::instance(0), CUR).evaluate(&table, 0), known(9));
    assert_eq!(Expression::query(Column::instance(0), CUR).evaluate(&table, 1), Value::unknown());
    assert_eq!(Expression::selector(Selector { index: 0 }).evaluate(&table, 0), known(1));
    assert_eq!(Expression::selector(Selector { index: 0 }).evaluate(&table, 1), known(0));
    assert_eq!(Expression::selector(Selector { index: 7 }).evaluate(&table, 0), known(0));
    assert_eq!(Expression::constant(Fe::from_u64(3)).evaluate(&table, 2), known(3));

    assert_eq!(lhs.add(rhs).evaluate(&table, 0), known(13));
    let lhs = Expression::query(Column::advice(0), CUR);
    let rhs = Expression::query(Column::advice(1), CUR);
    assert_eq!(rhs.sub(lhs).evaluate(&table, 0), known(1));
    let lhs = Expression::query(Column::advice(0), CUR);
    let rhs = Expression::query(Column::advice(1), CUR);
    let out = Expression::query(Column::advice(0), NEXT);
    let s = Expression::selector(Selector { index: 0 });
    let gate = lhs.mul(rhs).sub(out).mul(s);
    assert_eq!(gate.evaluate(&table, 0), known(0));
    assert_eq!(gate.evaluate(&table, 1), known(0));
    assert_eq!(gate.evaluate(&table, 2), known(0));
}

#[test]
fn regions_follow_one_another() {
    let (cs, config) = configured();
    let chip = MyChip::new(config);
    let mut layouter = Layouter::new(&cs, 4, vec![vec![]]);
    let a = chip.load_private(&mut layouter, known(10)).unwrap();
    let b = chip.load_private(&mut layouter, known(5)).unwrap();
    let c = chip.load_constant(&mut layouter, Fe::from_u64(2)).unwrap();
    let ab = chip.mul(&mut layouter, a, b).unwrap();
    let sum = chip.add(&mut layouter, ab, c).unwrap();

    assert_eq!(a.0.cell(), Cell { column: Column::advice(0), row: 0 });
    assert_eq!(b.0.cell(), Cell { column: Column::advice(0), row: 1 });
    assert_eq!(c.0.cell(), Cell { column: Column::advice(0), row: 2 });
    assert_eq!(ab.0.cell(), Cell { column: Column::advice(0), row: 4 });
    assert_eq!(sum.0.cell(), Cell { column: Column::advice(0), row: 6 });
    assert_eq!(ab.0.value(), known(50));
    assert_eq!(sum.0.value(), known(52));

    assert_eq!(layouter.num_regions(), 5);
    let expected: [(&str, usize, usize); 5] = [
        ("load private", 0, 1),
        ("load private", 1, 1),
        ("load constant", 2, 1),
        ("mul", 3, 2),
        ("add", 5, 2),
    ];
    for (i, (name, start, rows)) in expected.iter().enumerate() {
        let region = layouter.region(i);
        assert_eq!(region.name().as_str(), *name);
        assert_eq!(region.start(), *start);
        assert_eq!(region.rows(), *rows);
    }
    assert_eq!(layouter.used(), 7);
    assert_eq!(layouter.room(), 9);
}

#[test]
fn multiplication_fills_its_region() {
    let (cs, config) = configured();
    let chip = MyChip::new(config);
    let mut layouter = Layouter::new(&cs, 3, vec![vec![]]);
    let a = chip.load_private(&mut layouter, known(6)).unwrap();
    let b = chip.load_private(&mut layouter, known(7)).unwrap();
    let out = chip.mul(&mut layouter, a, b).unwrap();
    assert_eq!(out.0.value(), known(42));

    let table = layouter.table();
    assert_eq!(table.get(Column::advice(0), 2), known(6));
    assert_eq!(table.get(Column::advice(1), 2), known(7));
    assert_eq!(table.get(Column::advice(0), 3), known(42));
    assert_eq!(table.get(Column::advice(1), 3), Value::unknown());
    assert!(table.enabled(config.s_mul, 2));
    assert!(!table.enabled(config.s_mul, 3));
    assert!(!table.enabled(config.s_add, 2));
    assert_eq!(table.num_copies(), 2);
    assert_eq!(
        table.copy_at(0),
        (Cell { column: Column::advice(0), row: 2 }, Cell { column: Column::advice(0), row: 0 })
    );
    assert_eq!(
        table.copy_at(1),
        (Cell { column: Column::advice(1), row: 2 }, Cell { column: Column::advice(0), row: 1 })
    );
}

#[test]
fn addition_fills_its_region() {
    let (cs, config) = configured();
    let chip = MyChip::new(config);
    let mut layouter = Layouter::new(&cs, 3, vec![vec![]]);
    let a = chip.load_private(&mut layouter, known(6)).unwrap();
    let b = chip.load_private(&mut layouter, known(7)).unwrap();
    let out = chip.add(&mut layouter, a, b).unwrap();
    assert_eq!(out.0.value(), known(13));
    let table = layouter.table();
    assert_eq!(table.get(Column::advice(0), 3), known(13));
    assert!(table.enabled(config.s_add, 2));
    assert!(!table.enabled(config.s_mul, 2));
}

#[test]
fn a_constant_is_tied_to_the_constants_column() {
    let (cs, config) = configured();
    let chip = MyChip::new(config);
    let mut layouter = Layouter::new(&cs, 3, vec![vec![]]);
    let first = chip.load_constant(&mut layouter, Fe::from_u64(2)).unwrap();
    let second = chip.load_constant(&mut layouter, Fe::from_u64(3)).unwrap();
    assert_eq!(first.0.value(), known(2));
    assert_eq!(second.0.value(), known(3));
    let table = layouter.table();
    assert_eq!(table.get(Column::advice(0), 0), known(2));
    assert_eq!(table.get(Column::advice(0), 1), known(3));
    assert_eq!(table.get(Column::fixed(0), 0), known(2));
    assert_eq!(table.get(Column::fixed(0), 1), known(3));
    assert_eq!(
        table.copy_at(0),
        (Cell { column: Column::advice(0), row: 0 }, Cell { column: Column::fixed(0), row: 0 })
    );
    assert_eq!(
        table.copy_at(1),
        (Cell { column: Column::advice(0), row: 1 }, Cell { column: Column::fixed(0), row: 1 })
    );
}

#[test]
fn operations_fail_without_rows_and_change_nothing() {
    let (cs, config) = configured();
    let chip = MyChip::new(config);
    let mut layouter = Layouter::new(&cs, 1, vec![vec![]]);
    let a = chip.load_private(&mut layouter, known(6)).unwrap();
    assert_eq!(chip.mul(&mut layouter, a, a).err(), Some(Error::OutOfRows));
    assert_eq!(chip.add(&mut layouter, a, a).err(), Some(Error::OutOfRows));
    assert_eq!(layouter.num_regions(), 1);
    assert_eq!(layouter.room(), 1);
    assert_eq!(layouter.table().num_copies(), 0);
    assert!(!layouter.table().enabled(config.s_mul, 1));
    let b = chip.load_private(&mut layouter, known(7)).unwrap();
    assert_eq!(b.0.cell(), Cell { column: Column::advice(0), row: 1 });
    assert_eq!(chip.load_private(&mut layouter, known(8)).err(), Some(Error::OutOfRows));
    assert_eq!(chip.load_constant(&mut layouter, Fe::one()).err(), Some(Error::OutOfRows));
    assert_eq!(layouter.num_regions(), 2);
    assert_eq!(layouter.table().get(Column::fixed(0), 0), Value::unknown());
}

#[test]
fn assignments_are_relative_to_the_open_region() {
    let (cs, config) = configured();
    let mut layouter = Layouter::new(&cs, 2, vec![vec![]]);
    layouter.begin_region("first");
    let x = layouter.assign_advice(config.advice[0], 1, known(5)).unwrap();
    assert_eq!(x.cell(), Cell { column: Column::advice(0), row: 1 });
    assert_eq!(layouter.used(), 2);
    layouter.begin_region("second");
    assert_eq!(layouter.start(), 2);
    let y = layouter.copy_advice(&x, config.advice[1], 0).unwrap();
    assert_eq!(y.cell(), Cell { column: Column::advice(1), row: 2 });
    assert_eq!(y.value(), known(5));
    assert_eq!(layouter.enable_selector(config.s_add, 1), Ok(()));
    assert_eq!(layouter.used(), 4);
    assert_eq!(layouter.assign_advice(config.advice[0], 2, known(1)).err(), Some(Error::OutOfRows));
    assert_eq!(layouter.enable_selector(config.s_add, 2), Err(Error::OutOfRows));
    assert_eq!(layouter.copy_advice(&x, config.advice[0], 2).err(), Some(Error::OutOfRows));
    assert_eq!(layouter.used(), 4);
    assert!(layouter.table().enabled(config.s_add, 3));
    assert_eq!(layouter.table().num_copies(), 1);
}

#[test]
fn a_public_input_outside_the_table_is_out_of_rows() {
    let (cs, config) = configured();
    let chip = MyChip::new(config);
    let mut layouter = Layouter::new(&cs, 2, vec![vec![]]);
    let a = chip.load_private(&mut layouter, known(6)).unwrap();
    assert_eq!(chip.expose_public(&mut layouter, a, 4), Err(Error::OutOfRows));
    assert_eq!(layouter.table().num_exposed(), 0);
    assert_eq!(chip.expose_public(&mut layouter, a, 3), Ok(()));
    assert_eq!(
        layouter.table().exposed_at(0),
        (Cell { column: Column::advice(0), row: 0 }, Cell { column: Column::instance(0), row: 3 })
    );
}

#[test]
fn structure_is_laid_out_without_witnesses() {
    let (cs, config) = configured();
    let circuit = MyCircuit {
        constant: Fe::from_u64(2),
        a: known(10),
        b: known(5),
        c: known(3),
    };
    let blank = circuit.without_witnesses();
    assert_eq!(blank.a, Value::unknown());
    assert_eq!(blank.b, Value::unknown());
    assert_eq!(blank.c, Value::unknown());
    assert_eq!(blank.constant, Fe::zero());
    let layouter = blank.synthesize(config, Layouter::new(&cs, 4, vec![vec![]])).unwrap();
    assert_eq!(layouter.used(), 12);
    assert_eq!(layouter.num_regions(), 8);
    let table = layouter.table();
    assert_eq!(table.get(Column::advice(0), 0), Value::unknown());
    assert_eq!(table.get(Column::advice(0), 3), known(0));
    assert_eq!(table.get(Column::advice(0), 11), Value::unknown());
    assert!(table.enabled(config.s_mul, 4));
    assert!(table.enabled(config.s_mul, 6));
    assert!(table.enabled(config.s_add, 8));
    assert!(table.enabled(config.s_mul, 10));
    assert_eq!(table.num_copies(), 9);
    assert_eq!(table.num_exposed(), 1);
    let number: Number<Fe> = MyChip::new(config)
        .load_private(&mut Layouter::new(&cs, 1, vec![vec![]]), Value::unknown())
        .unwrap();
    assert_eq!(number.0.value().assign(), Err(Error::Synthesis));
}

#[test]
fn synthesis_needs_twelve_rows() {
    let (cs, config) = configured();
    let circuit = MyCircuit {
        constant: Fe::from_u64(2),
        a: known(10),
        b: known(5),
        c: known(3),
    };
    let small = Layouter::new(&cs, 3, vec![vec![]]);
    assert_eq!(circuit.synthesize(config, small).err(), Some(Error::OutOfRows));
    let mut used = Layouter::new(&cs, 4, vec![vec![]]);
    for _ in 0..5 {
        MyChip::new(config).load_private(&mut used, known(1)).unwrap();
    }
    assert_eq!(circuit.synthesize(config, used).err(), Some(Error::OutOfRows));
    let mut exact = Layouter::new(&cs, 4, vec![vec![]]);
    for _ in 0..4 {
        MyChip::new(config).load_private(&mut exact, known(1)).unwrap();
    }
    let done = circuit.synthesize(config, exact).unwrap();
    assert_eq!(done.used(), 16);
    assert_eq!(done.room(), 0);
    assert_eq!(done.table().get(Column::advice(0), 15), known(230));
}
