use crate::lanes::{Lanes, QUAD};
use crate::packed::Packed4;
use crate::scalar::Scalar;
use vstd::prelude::*;

verus! {

/// Every lane of `quads` that lies beyond row `rows` holds zero.
pub open spec fn padded_with_zero<S: Scalar>(quads: Seq<Packed4<S>>, rows: int) -> bool {
    forall|q: int, i: int|
        0 <= q < quads.len() && 0 <= i < 4 && 4 * q + i >= rows ==> #[trigger] quads[q].lane(i)
            == S::zero_value()
}

/// A column stored as packed values of four lanes. Row `r` lives in lane
/// `r % 4` of packed value `r / 4`, so the same storage reads as packed
/// values for whole groups and as single lanes for single rows. The lanes
/// of the last packed value beyond the last row belong to no row.
pub struct QuadColumn<S> {
    quads: Vec<Packed4<S>>,
    rows: usize,
}

impl<S: Scalar> QuadColumn<S> {
    /// The packed values that back the column, in storage order.
    pub closed spec fn quads(&self) -> Seq<Packed4<S>> {
        self.quads@
    }

    /// How the rows sit in the packed values: row `4 * q + i` is lane `i`
    /// of packed value `q`, there are just enough packed values for the
    /// rows, and a lane that belongs to no row holds zero.
    pub proof fn lemma_arrangement(&self)
        requires
            self.wf(),
        ensures
            self.quads().len() == (self.lanes().len() + 3) / 4,
            forall|q: int, i: int|
                0 <= q && 0 <= i < 4 && 4 * q + i < self.lanes().len()
                    ==> #[trigger] self.quads()[q].lane(i) == self.lanes()[4 * q + i],
            padded_with_zero(self.quads(), self.lanes().len() as int),
    {
        assert forall|q: int, i: int|
            0 <= q && 0 <= i < 4 && 4 * q + i < self.lanes().len()
            implies #[trigger] self.quads()[q].lane(i) == self.lanes()[4 * q + i] by {
            let r = 4 * q + i;
            assert(r / 4 == q && r % 4 == i);
        }
    }

    /// Reads one packed value as it is stored, lanes without a row included.
    pub fn slot(&self, index: usize) -> (q: Packed4<S>)
        requires
            index < self.quads().len(),
        ensures
            q == self.quads()[index as int],
    {
        self.quads[index]
    }
}

impl<S: Scalar> Lanes for QuadColumn<S> {
    type Lane = S;

    closed spec fn lanes(&self) -> Seq<S> {
        Seq::new(self.rows as nat, |row: int| self.quads@[row / 4].lane(row % 4))
    }

    /// There are just enough packed values to hold every row, and the
    /// lanes beyond the last row hold zero.
    closed spec fn wf(&self) -> bool {
        &&& self.rows <= self.quads@.len() * 4
        &&& self.quads@.len() * 4 < self.rows + 4
        &&& padded_with_zero(self.quads@, self.rows as int)
    }

    fn empty() -> (column: Self) {
        let column = QuadColumn { quads: Vec::new(), rows: 0 };
        assert(column.lanes() =~= Seq::<S>::empty());
        column
    }

    /// Appends one row, opening a new packed value where the last one is full.
    fn push(&mut self, value: S) {
        let lane: usize = self.rows % QUAD;
        if lane == 0 {
            let mut fresh = Packed4::splat(S::zero());
            fresh.set(0, value);
            self.quads.push(fresh);
        } else {
            let slot: usize = self.rows / QUAD;
            let mut q = self.quads[slot];
            q.set(lane, value);
            self.quads[slot] = q;
        }
        self.rows = self.rows + 1;
        assert forall|q: int, i: int|
            0 <= q < self.quads@.len() && 0 <= i < 4 && 4 * q + i >= self.rows
            implies #[trigger] self.quads@[q].lane(i) == S::zero_value() by {
            if q < old(self).quads@.len() {
                assert(old(self).quads@[q].lane(i) == S::zero_value());
            }
        }
        assert(self.lanes() =~= old(self).lanes().push(value));
    }

    fn len(&self) -> (n: usize) {
        self.rows
    }

    /// Four rows share one packed value, so the slots are a quarter of the
    /// rows, rounded up.
    open spec fn slots_for(rows: nat) -> nat {
        (rows + 3) / 4
    }

    fn slots(&self) -> (n: usize) {
        self.quads.len()
    }

    fn get(&self, row: usize) -> (value: S) {
        self.quads[row / QUAD].get(row % QUAD)
    }

    fn set(&mut self, row: usize, value: S) {
        let slot: usize = row / QUAD;
        let mut q = self.quads[slot];
        q.set(row % QUAD, value);
        self.quads[slot] = q;
        assert forall|q: int, i: int|
            0 <= q < self.quads@.len() && 0 <= i < 4 && 4 * q + i >= self.rows
            implies #[trigger] self.quads@[q].lane(i) == S::zero_value() by {
            assert(old(self).quads@[q].lane(i) == S::zero_value());
        }
        assert(self.lanes() =~= old(self).lanes().update(row as int, value));
    }

    fn quad(&self, start: usize) -> (q: Packed4<S>) {
        let q = self.quads[start / QUAD];
        assert(q.lanes() =~= self.lanes().subrange(start as int, start + 4));
        q
    }

    fn store_quad(&mut self, start: usize, q: Packed4<S>) {
        self.quads[start / QUAD] = q;
        assert(self.lanes() =~= old(self).lanes().subrange(0, start as int) + q.lanes() + old(
            self,
        ).lanes().subrange(start + 4, old(self).lanes().len() as int));
    }
}

} // verus!
