//! The witness table: a fixed grid of optional field values per advice
//! column, and a boolean activation vector per selector, over a fixed number
//! of rows.

use vstd::prelude::*;

verus! {

use crate::field::Fe;

/// A two-dimensional witness assignment. `advice[c][r]` is the value written
/// into column `c` at row `r`, if any; `selectors[s][r]` is whether selector
/// `s` is enabled at row `r`. A selector not explicitly enabled at a row is
/// inactive there; a cell never assigned stays `None`.
pub struct WitnessTable {
    /// One vector of optional cells per advice column.
    pub advice: Vec<Vec<Option<Fe>>>,
    /// One activation vector per selector.
    pub selectors: Vec<Vec<bool>>,
    /// The number of rows of every column and activation vector.
    pub rows: usize,
}

impl WitnessTable {
    /// The cell of column `c` at row `r`.
    pub open spec fn cell(self, c: int, r: int) -> Option<Fe> {
        self.advice@[c]@[r]
    }

    /// Whether selector `s` is enabled at row `r`.
    pub open spec fn sel_on(self, s: int, r: int) -> bool {
        self.selectors@[s]@[r]
    }

    /// Every column and activation vector has exactly `rows` entries, and
    /// every assigned cell holds a reduced field element.
    pub open spec fn wf(self) -> bool {
        &&& forall|c: int|
            0 <= c < self.advice@.len() ==> (#[trigger] self.advice@[c])@.len() == self.rows
        &&& forall|s: int|
            0 <= s < self.selectors@.len() ==> (#[trigger] self.selectors@[s])@.len() == self.rows
        &&& forall|c: int, r: int|
            0 <= c < self.advice@.len() && 0 <= r < self.rows && (#[trigger] self.cell(
                c,
                r,
            )) is Some ==> self.cell(c, r)->0.wf()
    }

    /// No cell is assigned and no selector is enabled.
    pub open spec fn is_blank(self) -> bool {
        &&& forall|c: int, r: int|
            0 <= c < self.advice@.len() && 0 <= r < self.rows ==> #[trigger] self.cell(
                c,
                r,
            ) is None
        &&& forall|s: int, r: int|
            0 <= s < self.selectors@.len() && 0 <= r < self.rows ==> !(#[trigger] self.sel_on(
                s,
                r,
            ))
    }

    /// An empty table: `num_advice` columns and `num_selectors` activation
    /// vectors, each of `rows` rows, with nothing assigned or enabled.
    pub fn new(num_advice: usize, num_selectors: usize, rows: usize) -> (t: WitnessTable)
        ensures
            t.wf(),
            t.is_blank(),
            t.advice@.len() == num_advice,
            t.selectors@.len() == num_selectors,
            t.rows == rows,
    {
        let mut advice: Vec<Vec<Option<Fe>>> = Vec::new();
        let mut c: usize = 0;
        while c < num_advice
            invariant
                c <= num_advice,
                advice@.len() == c,
                forall|i: int|
                    0 <= i < c ==> (#[trigger] advice@[i])@.len() == rows && forall|r: int|
                        0 <= r < rows ==> advice@[i]@[r] is None,
            decreases num_advice - c,
        {
            advice.push(blank_column(rows));
            c = c + 1;
        }
        let mut selectors: Vec<Vec<bool>> = Vec::new();
        let mut s: usize = 0;
        while s < num_selectors
            invariant
                s <= num_selectors,
                selectors@.len() == s,
                forall|i: int|
                    0 <= i < s ==> (#[trigger] selectors@[i])@.len() == rows && forall|r: int|
                        0 <= r < rows ==> selectors@[i]@[r] == false,
            decreases num_selectors - s,
        {
            selectors.push(blank_selector(rows));
            s = s + 1;
        }
        WitnessTable { advice, selectors, rows }
    }

    /// Read the cell of column `c` at row `r`.
    pub fn get_cell(&self, c: usize, r: usize) -> (o: Option<Fe>)
        requires
            c < self.advice@.len(),
            r < self.advice@[c as int]@.len(),
        ensures
            o == self.cell(c as int, r as int),
    {
        self.advice[c][r]
    }

    /// Read whether selector `s` is enabled at row `r`.
    pub fn get_sel(&self, s: usize, r: usize) -> (b: bool)
        requires
            s < self.selectors@.len(),
            r < self.selectors@[s as int]@.len(),
        ensures
            b == self.sel_on(s as int, r as int),
    {
        self.selectors[s][r]
    }

    /// Write `v` into the cell of column `c` at row `r`. Every other cell and
    /// every activation vector is untouched.
    pub fn set_cell(&mut self, c: usize, r: usize, v: Fe)
        requires
            old(self).wf(),
            c < old(self).advice@.len(),
            r < old(self).rows,
            v.wf(),
        ensures
            final(self).wf(),
            final(self).rows == old(self).rows,
            final(self).advice@.len() == old(self).advice@.len(),
            final(self).selectors == old(self).selectors,
            final(self).cell(c as int, r as int) == Some(v),
            forall|ci: int, ri: int|
                0 <= ci < old(self).advice@.len() && 0 <= ri < old(self).rows && !(ci == c && ri
                    == r) ==> #[trigger] final(self).cell(ci, ri) == old(self).cell(ci, ri),
    {
        self.advice[c][r] = Some(v);
        proof {
            assert forall|ci: int| 0 <= ci < self.advice@.len() implies (
            #[trigger] self.advice@[ci])@.len() == self.rows by {
                if ci != c {
                    assert(self.advice@[ci] == old(self).advice@[ci]);
                }
            }
            assert forall|ci: int, ri: int|
                0 <= ci < self.advice@.len() && 0 <= ri < self.rows && !(ci == c && ri
                    == r) implies #[trigger] self.cell(ci, ri) == old(self).cell(ci, ri) by {
                if ci != c {
                    assert(self.advice@[ci] == old(self).advice@[ci]);
                }
            }
        }
    }

    /// Enable selector `s` at row `r`. Every other activation bit and every
    /// cell is untouched.
    pub fn set_sel(&mut self, s: usize, r: usize)
        requires
            old(self).wf(),
            s < old(self).selectors@.len(),
            r < old(self).rows,
        ensures
            final(self).wf(),
            final(self).rows == old(self).rows,
            final(self).selectors@.len() == old(self).selectors@.len(),
            final(self).advice == old(self).advice,
            final(self).sel_on(s as int, r as int),
            forall|si: int, ri: int|
                0 <= si < old(self).selectors@.len() && 0 <= ri < old(self).rows && !(si == s && ri
                    == r) ==> #[trigger] final(self).sel_on(si, ri) == old(self).sel_on(si, ri),
    {
        self.selectors[s][r] = true;
        proof {
            assert forall|si: int| 0 <= si < self.selectors@.len() implies (
            #[trigger] self.selectors@[si])@.len() == self.rows by {
                if si != s {
                    assert(self.selectors@[si] == old(self).selectors@[si]);
                }
            }
            assert forall|si: int, ri: int|
                0 <= si < self.selectors@.len() && 0 <= ri < self.rows && !(si == s && ri
                    == r) implies #[trigger] self.sel_on(si, ri) == old(self).sel_on(si, ri) by {
                if si != s {
                    assert(self.selectors@[si] == old(self).selectors@[si]);
                }
            }
            assert forall|ci: int, ri: int|
                0 <= ci < self.advice@.len() && 0 <= ri < self.rows && (#[trigger] self.cell(
                ci,
                ri,
            )) is Some implies self.cell(ci, ri)->0.wf() by {
                assert(self.cell(ci, ri) == old(self).cell(ci, ri));
            }
        }
    }
}

/// A column of `rows` unassigned cells.
fn blank_column(rows: usize) -> (v: Vec<Option<Fe>>)
    ensures
        v@.len() == rows,
        forall|r: int| 0 <= r < rows ==> v@[r] is None,
{
    let mut v: Vec<Option<Fe>> = Vec::new();
    let mut r: usize = 0;
    while r < rows
        invariant
            r <= rows,
            v@.len() == r,
            forall|i: int| 0 <= i < r ==> v@[i] is None,
        decreases rows - r,
    {
        v.push(None);
        r = r + 1;
    }
    v
}

/// An activation vector of `rows` disabled bits.
fn blank_selector(rows: usize) -> (v: Vec<bool>)
    ensures
        v@.len() == rows,
        forall|r: int| 0 <= r < rows ==> v@[r] == false,
{
    let mut v: Vec<bool> = Vec::new();
    let mut r: usize = 0;
    while r < rows
        invariant
            r <= rows,
            v@.len() == r,
            forall|i: int| 0 <= i < r ==> v@[i] == false,
        decreases rows - r,
    {
        v.push(false);
        r = r + 1;
    }
    v
}

} // verus!
