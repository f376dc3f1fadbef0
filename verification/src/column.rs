//! Columns, selectors and cells: the coordinates of the table.

use vstd::prelude::*;

verus! {

/// What a column holds.
#[derive(Clone, Copy, Debug, PartialEq, Eq, Structural)]
pub enum ColumnKind {
    /// Private witness values.
    Advice,
    /// Public values, which the caller supplies.
    Instance,
    /// Constants of the circuit.
    Fixed,
}

/// A column of the table: its kind and its index among the columns of that kind.
#[derive(Clone, Copy, Debug, PartialEq, Eq, Structural)]
pub struct Column {
    pub kind: ColumnKind,
    pub index: usize,
}

/// A selector: a column of flags that switches gates on row by row.
#[derive(Clone, Copy, Debug, PartialEq, Eq, Structural)]
pub struct Selector {
    pub index: usize,
}

/// A cell of the table, by column and absolute row.
#[derive(Clone, Copy, Debug, PartialEq, Eq, Structural)]
pub struct Cell {
    pub column: Column,
    pub row: usize,
}

impl Column {
    /// The advice column with the given index.
    pub fn advice(index: usize) -> (r: Column)
        ensures
            r == (Column { kind: ColumnKind::Advice, index }),
    {
        Column { kind: ColumnKind::Advice, index }
    }

    /// The instance column with the given index.
    pub fn instance(index: usize) -> (r: Column)
        ensures
            r == (Column { kind: ColumnKind::Instance, index }),
    {
        Column { kind: ColumnKind::Instance, index }
    }

    /// The fixed column with the given index.
    pub fn fixed(index: usize) -> (r: Column)
        ensures
            r == (Column { kind: ColumnKind::Fixed, index }),
    {
        Column { kind: ColumnKind::Fixed, index }
    }
}

} // verus!
