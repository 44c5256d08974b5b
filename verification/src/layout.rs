//! The layouter: a sequential cursor over witness-table rows. Each region
//! claims the next unused contiguous block of absolute rows; assignments
//! inside a region address rows relative to its start. Regions grow as the
//! body touches rows and never overlap: a later region starts where the
//! earlier one ended.

use vstd::prelude::*;

verus! {

use crate::error::{ConfigurationError, Error, ShapeError};
use crate::expr::{Column, Selector};
use crate::field::Fe;
use crate::table::WitnessTable;

/// A scoped cursor over one contiguous block of rows. Relative row 0 maps to
/// the absolute row `start`; `used` is how many rows the region has touched.
/// A region is only meaningful between `region_start` and `region_end` of the
/// layouter that produced it.
#[derive(Debug)]
pub struct Region {
    /// The region's diagnostic name.
    pub name: String,
    /// The absolute row that relative row 0 maps to.
    pub start: usize,
    /// One past the largest relative row touched so far.
    pub used: usize,
}

/// A cursor that populates a witness table region by region.
pub struct Layouter {
    /// The table being populated.
    pub table: WitnessTable,
    /// The first absolute row no region has claimed yet.
    pub next_row: usize,
}

impl Layouter {
    /// The table is well-formed and the cursor has not run past its rows.
    pub open spec fn wf(self) -> bool {
        self.table.wf() && self.next_row <= self.table.rows
    }

    /// `r` is the open region of this layouter: it starts at the cursor and
    /// its touched block lies inside the table.
    pub open spec fn region_wf(self, r: Region) -> bool {
        r.start == self.next_row && r.start + r.used <= self.table.rows
    }

    /// Wrap a table, with the cursor at row 0.
    pub fn new(table: WitnessTable) -> (l: Layouter)
        requires
            table.wf(),
        ensures
            l.table == table,
            l.next_row == 0,
            l.wf(),
    {
        Layouter { table, next_row: 0 }
    }

    /// Open a region at the next unused row. The region is empty until its
    /// body touches rows; `region_end` hands the block back.
    pub fn region_start(&mut self, name: &str) -> (r: Region)
        ensures
            *final(self) == *old(self),
            r.name@ == name@,
            r.start == old(self).next_row,
            r.used == 0,
            old(self).wf() ==> final(self).region_wf(r),
    {
        Region { name: name.to_owned(), start: self.next_row, used: 0 }
    }

    /// Close a region: the rows it touched are consumed, and the next region
    /// starts right after them.
    pub fn region_end(&mut self, r: Region)
        requires
            old(self).wf(),
            old(self).region_wf(r),
        ensures
            final(self).table == old(self).table,
            final(self).next_row == r.start + r.used,
            final(self).wf(),
    {
        self.next_row = r.start + r.used;
    }

    /// Write `value` into `column` at the region's relative row `row`. Fails
    /// with a shape error, changing nothing, if that row lies beyond the
    /// table's last row, and with a configuration error if the column was
    /// never allocated for this table. On success the region has grown to
    /// cover the touched row.
    pub fn assign_advice(
        &mut self,
        region: &mut Region,
        column: Column,
        row: usize,
        value: Fe,
    ) -> (r: Result<(), Error>)
        requires
            old(self).wf(),
            old(self).region_wf(*old(region)),
            value.wf(),
        ensures
            final(self).wf(),
            final(self).region_wf(*final(region)),
            final(self).next_row == old(self).next_row,
            final(self).table.rows == old(self).table.rows,
            final(self).table.advice@.len() == old(self).table.advice@.len(),
            final(self).table.selectors == old(self).table.selectors,
            final(region).name == old(region).name,
            final(region).start == old(region).start,
            column.index >= old(self).table.advice@.len() ==> r == Err::<(), Error>(
                Error::Configuration(ConfigurationError::UnallocatedQuery),
            ) && *final(self) == *old(self) && *final(region) == *old(region),
            column.index < old(self).table.advice@.len() && old(region).start + row >= old(
                self,
            ).table.rows ==> r == Err::<(), Error>(Error::Shape(ShapeError::TooSmall))
                && *final(self) == *old(self) && *final(region) == *old(region),
            column.index < old(self).table.advice@.len() && old(region).start + row < old(
                self,
            ).table.rows ==> r == Ok::<(), Error>(()) && final(self).table.cell(
                column.index as int,
                old(region).start + row,
            ) == Some(value) && (forall|ci: int, ri: int|
                0 <= ci < old(self).table.advice@.len() && 0 <= ri < old(self).table.rows && !(ci
                    == column.index && ri == old(region).start + row)
                    ==> #[trigger] final(self).table.cell(ci, ri) == old(self).table.cell(ci, ri))
                && final(region).used == if row + 1 > old(region).used {
                row + 1
            } else {
                old(region).used as int
            },
    {
        if column.index >= self.table.advice.len() {
            return Err(Error::Configuration(ConfigurationError::UnallocatedQuery));
        }
        if row >= self.table.rows - region.start {
            return Err(Error::Shape(ShapeError::TooSmall));
        }
        let abs: usize = region.start + row;
        self.table.set_cell(column.index, abs, value);
        if row + 1 > region.used {
            region.used = row + 1;
        }
        Ok(())
    }

    /// Enable `selector` at the region's relative row `row`. Failure and
    /// growth behave as in `assign_advice`.
    pub fn enable_selector(&mut self, region: &mut Region, selector: Selector, row: usize) -> (r:
        Result<(), Error>)
        requires
            old(self).wf(),
            old(self).region_wf(*old(region)),
        ensures
            final(self).wf(),
            final(self).region_wf(*final(region)),
            final(self).next_row == old(self).next_row,
            final(self).table.rows == old(self).table.rows,
            final(self).table.selectors@.len() == old(self).table.selectors@.len(),
            final(self).table.advice == old(self).table.advice,
            final(region).name == old(region).name,
            final(region).start == old(region).start,
            selector.index >= old(self).table.selectors@.len() ==> r == Err::<(), Error>(
                Error::Configuration(ConfigurationError::UnallocatedQuery),
            ) && *final(self) == *old(self) && *final(region) == *old(region),
            selector.index < old(self).table.selectors@.len() && old(region).start + row >= old(
                self,
            ).table.rows ==> r == Err::<(), Error>(Error::Shape(ShapeError::TooSmall))
                && *final(self) == *old(self) && *final(region) == *old(region),
            selector.index < old(self).table.selectors@.len() && old(region).start + row < old(
                self,
            ).table.rows ==> r == Ok::<(), Error>(()) && final(self).table.sel_on(
                selector.index as int,
                old(region).start + row,
            ) && (forall|si: int, ri: int|
                0 <= si < old(self).table.selectors@.len() && 0 <= ri < old(self).table.rows && !(si
                    == selector.index && ri == old(region).start + row)
                    ==> #[trigger] final(self).table.sel_on(si, ri) == old(self).table.sel_on(
                    si,
                    ri,
                )) && final(region).used == if row + 1 > old(region).used {
                row + 1
            } else {
                old(region).used as int
            },
    {
        if selector.index >= self.table.selectors.len() {
            return Err(Error::Configuration(ConfigurationError::UnallocatedQuery));
        }
        if row >= self.table.rows - region.start {
            return Err(Error::Shape(ShapeError::TooSmall));
        }
        let abs: usize = region.start + row;
        self.table.set_sel(selector.index, abs);
        if row + 1 > region.used {
            region.used = row + 1;
        }
        Ok(())
    }
}

} // verus!
