use crate::lanes::Lanes;
use crate::packed::Packed4;
use crate::scalar::Scalar;
use vstd::prelude::*;

verus! {

/// A dense array of scalar lanes, one per row. Four consecutive lanes at an
/// offset that is a multiple of four read as one packed value.
pub struct Column<S> {
    cells: Vec<S>,
}

impl<S: Scalar> Lanes for Column<S> {
    type Lane = S;

    closed spec fn lanes(&self) -> Seq<S> {
        self.cells@
    }

    open spec fn wf(&self) -> bool {
        true
    }

    fn empty() -> (column: Self) {
        Column { cells: Vec::new() }
    }

    fn push(&mut self, value: S) {
        self.cells.push(value);
    }

    fn len(&self) -> (n: usize) {
        self.cells.len()
    }

    /// Every row has a slot of its own.
    open spec fn slots_for(rows: nat) -> nat {
        rows
    }

    fn slots(&self) -> (n: usize) {
        self.cells.len()
    }

    fn get(&self, row: usize) -> (value: S) {
        self.cells[row]
    }

    fn set(&mut self, row: usize, value: S) {
        self.cells[row] = value;
    }

    fn quad(&self, start: usize) -> (q: Packed4<S>) {
        let q = Packed4 {
            a: self.cells[start],
            b: self.cells[start + 1],
            c: self.cells[start + 2],
            d: self.cells[start + 3],
        };
        assert(q.lanes() =~= self.lanes().subrange(start as int, start + 4));
        q
    }

    fn store_quad(&mut self, start: usize, q: Packed4<S>) {
        self.cells[start] = q.a;
        self.cells[start + 1] = q.b;
        self.cells[start + 2] = q.c;
        self.cells[start + 3] = q.d;
        assert(self.lanes() =~= old(self).lanes().subrange(0, start as int) + q.lanes() + old(
            self,
        ).lanes().subrange(start + 4, old(self).lanes().len() as int));
    }
}

} // verus!
