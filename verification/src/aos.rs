use crate::batch::{Batch, BatchIter};
use crate::flags::{lemma_touch_extends, touched, ChangeFlags, Mode};
use crate::lanes::QUAD;
use crate::packed::{Packed3, Packed4};
use crate::particle::{lemma_stepped_extends, stepped_range, stepped_rows, Particle};
use crate::scalar::Scalar;
use vstd::prelude::*;

verus! {

/// One array of rows: every entity keeps its position and its velocity
/// side by side, each as one packed value of three lanes.
pub struct AosRows<S> {
    cells: Vec<Particle<S>>,
}

impl<S: Scalar> AosRows<S> {
    /// The rows that the array holds.
    pub closed spec fn rows(&self) -> Seq<Particle<S>> {
        self.cells@
    }

    /// Lays the rows of `seed` out one after the other.
    pub fn from_particles(seed: &Vec<Particle<S>>) -> (array: Self)
        ensures
            array.rows() == seed@,
    {
        let mut cells: Vec<Particle<S>> = Vec::new();
        let count: usize = seed.len();
        let mut row: usize = 0;
        while row < count
            invariant
                row <= count,
                count == seed@.len(),
                cells@ =~= seed@.take(row as int),
            decreases count - row,
        {
            cells.push(seed[row]);
            row = row + 1;
        }
        assert(seed@.take(count as int) =~= seed@);
        AosRows { cells }
    }

    pub fn len(&self) -> (n: usize)
        ensures
            n == self.rows().len(),
    {
        self.cells.len()
    }

    pub fn particle(&self, row: usize) -> (p: Particle<S>)
        requires
            row < self.rows().len(),
        ensures
            p == self.rows()[row as int],
    {
        self.cells[row]
    }

    /// One step: each row in turn, its three lanes as one packed value.
    pub fn step(&mut self, dt: S, flags: &mut ChangeFlags, mode: Mode)
        requires
            old(flags)@.len() == old(self).rows().len(),
        ensures
            final(self).rows() == stepped_rows(old(self).rows(), dt),
            final(flags)@ == touched(old(flags)@, mode, 0, old(flags)@.len() as int),
    {
        let rows: usize = self.cells.len();
        let mut row: usize = 0;
        proof {
            lemma_touch_extends(old(flags)@, mode, 0, 0);
            lemma_stepped_extends(old(self).rows(), dt, 0, 0);
        }
        while row < rows
            invariant
                row <= rows,
                old(self).rows().len() == rows,
                old(flags)@.len() == rows,
                self.rows() == stepped_range(old(self).rows(), dt, 0, row as int),
                flags@ == touched(old(flags)@, mode, 0, row as int),
            decreases rows - row,
        {
            let ghost before = self.rows();
            let mut p = self.cells[row];
            p.advance(dt);
            self.cells[row] = p;
            flags.touch(mode, row, 1);
            proof {
                lemma_touch_extends(old(flags)@, mode, row as int, row + 1);
                assert(self.rows() =~= stepped_range(before, dt, row as int, row + 1));
                lemma_stepped_extends(old(self).rows(), dt, row as int, row + 1);
            }
            row = row + 1;
        }
        proof {
            lemma_stepped_extends(old(self).rows(), dt, rows as int, rows as int);
        }
    }

    /// One step in batches of four rows: the batch is turned so that each
    /// axis of the four rows fills one packed value, the three axes are
    /// moved, and the lanes are turned back into the rows. Leftover rows
    /// are moved one by one.
    pub fn step_fused(&mut self, dt: S, flags: &mut ChangeFlags, mode: Mode)
        requires
            old(flags)@.len() == old(self).rows().len(),
        ensures
            final(self).rows() == stepped_rows(old(self).rows(), dt),
            final(flags)@ == touched(old(flags)@, mode, 0, old(flags)@.len() as int),
    {
        let rows: usize = self.cells.len();
        let mut pass = BatchIter::new(rows, QUAD);
        proof {
            lemma_touch_extends(old(flags)@, mode, 0, 0);
            lemma_stepped_extends(old(self).rows(), dt, 0, 0);
        }
        loop
            invariant
                pass.wf(),
                pass.len() == rows,
                pass.width() == 4,
                0 <= pass.cursor() <= rows,
                old(self).rows().len() == rows,
                old(flags)@.len() == rows,
                self.rows() == stepped_range(old(self).rows(), dt, 0, pass.cursor()),
                flags@ == touched(old(flags)@, mode, 0, pass.cursor()),
            ensures
                pass.cursor() == rows,
            decreases rows - pass.cursor(),
        {
            let ghost at = pass.cursor();
            let ghost before = self.rows();
            match pass.next() {
                Some(Batch::Full { start, .. }) => {
                    self.advance_turned(start, dt);
                    flags.touch(mode, start, QUAD);
                    proof {
                        lemma_touch_extends(old(flags)@, mode, at, at + 4);
                        lemma_stepped_extends(old(self).rows(), dt, at, at + 4);
                    }
                },
                Some(Batch::Single { row }) => {
                    let mut p = self.cells[row];
                    p.advance(dt);
                    self.cells[row] = p;
                    flags.touch(mode, row, 1);
                    proof {
                        lemma_touch_extends(old(flags)@, mode, at, at + 1);
                        assert(self.rows() =~= stepped_range(before, dt, at, at + 1));
                        lemma_stepped_extends(old(self).rows(), dt, at, at + 1);
                    }
                },
                None => {
                    break ;
                },
            }
        }
        proof {
            lemma_stepped_extends(old(self).rows(), dt, rows as int, rows as int);
        }
    }

    /// Moves the four rows from `start` on through per-axis packed values.
    fn advance_turned(&mut self, start: usize, dt: S)
        requires
            start + 4 <= old(self).rows().len(),
        ensures
            final(self).rows() == stepped_range(
                old(self).rows(),
                dt,
                start as int,
                start + 4,
            ),
    {
        let rows: usize = self.cells.len();
        let r0 = self.cells[start];
        let r1 = self.cells[start + 1];
        let r2 = self.cells[start + 2];
        let r3 = self.cells[start + 3];
        let pxs = Packed4::new(r0.position.x, r1.position.x, r2.position.x, r3.position.x);
        let pys = Packed4::new(r0.position.y, r1.position.y, r2.position.y, r3.position.y);
        let pzs = Packed4::new(r0.position.z, r1.position.z, r2.position.z, r3.position.z);
        let vxs = Packed4::new(r0.velocity.x, r1.velocity.x, r2.velocity.x, r3.velocity.x);
        let vys = Packed4::new(r0.velocity.y, r1.velocity.y, r2.velocity.y, r3.velocity.y);
        let vzs = Packed4::new(r0.velocity.z, r1.velocity.z, r2.velocity.z, r3.velocity.z);
        let nxs = pxs.scale_add(dt, vxs);
        let nys = pys.scale_add(dt, vys);
        let nzs = pzs.scale_add(dt, vzs);
        let mut lane: usize = 0;
        while lane < 4
            invariant
                lane <= 4,
                start + 4 <= rows,
                rows == old(self).rows().len(),
                self.cells@.len() == rows,
                forall|r: int|
                    0 <= r < self.cells@.len() ==> self.cells@[r] == if start <= r < start
                        + lane {
                        Particle {
                            position: Packed3 {
                                x: nxs.lane(r - start),
                                y: nys.lane(r - start),
                                z: nzs.lane(r - start),
                            },
                            velocity: old(self).rows()[r].velocity,
                        }
                    } else {
                        old(self).rows()[r]
                    },
            decreases 4 - lane,
        {
            let mut p = self.cells[start + lane];
            p.position = Packed3::new(nxs.get(lane), nys.get(lane), nzs.get(lane));
            self.cells[start + lane] = p;
            lane = lane + 1;
        }
        assert(self.rows() =~= stepped_range(old(self).rows(), dt, start as int, start + 4));
    }
}

} // verus!
