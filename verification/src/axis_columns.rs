use crate::batch::{Batch, BatchIter};
use crate::flags::{lemma_touch_extends, lemma_touched_again, touched, ChangeFlags, Mode};
use crate::lanes::{advance_pass, advance_quad, advance_row, Lanes, QUAD};
use crate::packed::{Axis, Packed3};
use crate::particle::{
    lemma_stepped_extends, lemma_three_axes, stepped_range, stepped_rows, stepped_rows_on,
    Particle,
};
use vstd::prelude::*;

verus! {

/// Six columns, one per axis of position and of velocity. A row is
/// scattered over the six at one index.
pub struct AxisColumns<C> {
    px: C,
    py: C,
    pz: C,
    vx: C,
    vy: C,
    vz: C,
}

impl<C: Lanes> AxisColumns<C> {
    /// The six columns are sound and of one length.
    pub closed spec fn wf(&self) -> bool {
        &&& self.px.wf()
        &&& self.py.wf()
        &&& self.pz.wf()
        &&& self.vx.wf()
        &&& self.vy.wf()
        &&& self.vz.wf()
        &&& self.py.lanes().len() == self.px.lanes().len()
        &&& self.pz.lanes().len() == self.px.lanes().len()
        &&& self.vx.lanes().len() == self.px.lanes().len()
        &&& self.vy.lanes().len() == self.px.lanes().len()
        &&& self.vz.lanes().len() == self.px.lanes().len()
    }

    /// What the position column of `axis` holds, in row order.
    pub closed spec fn position_lanes(&self, axis: Axis) -> Seq<C::Lane> {
        match axis {
            Axis::X => self.px.lanes(),
            Axis::Y => self.py.lanes(),
            Axis::Z => self.pz.lanes(),
        }
    }

    /// What the velocity column of `axis` holds, in row order.
    pub closed spec fn velocity_lanes(&self, axis: Axis) -> Seq<C::Lane> {
        match axis {
            Axis::X => self.vx.lanes(),
            Axis::Y => self.vy.lanes(),
            Axis::Z => self.vz.lanes(),
        }
    }

    /// How the rows sit in storage: each column holds one axis of one
    /// component of every row, at the row's index.
    pub proof fn lemma_arrangement(&self, axis: Axis)
        requires
            self.wf(),
        ensures
            self.position_lanes(axis).len() == self.rows().len(),
            self.velocity_lanes(axis).len() == self.rows().len(),
            forall|r: int|
                0 <= r < self.rows().len() ==> #[trigger] self.position_lanes(axis)[r]
                    == self.rows()[r].position.lane(axis),
            forall|r: int|
                0 <= r < self.rows().len() ==> #[trigger] self.velocity_lanes(axis)[r]
                    == self.rows()[r].velocity.lane(axis),
    {
    }

    /// The position column of `axis`.
    pub fn position_column(&self, axis: Axis) -> (column: &C)
        requires
            self.wf(),
        ensures
            column.wf(),
            column.lanes() == self.position_lanes(axis),
    {
        match axis {
            Axis::X => &self.px,
            Axis::Y => &self.py,
            Axis::Z => &self.pz,
        }
    }

    /// The velocity column of `axis`.
    pub fn velocity_column(&self, axis: Axis) -> (column: &C)
        requires
            self.wf(),
        ensures
            column.wf(),
            column.lanes() == self.velocity_lanes(axis),
    {
        match axis {
            Axis::X => &self.vx,
            Axis::Y => &self.vy,
            Axis::Z => &self.vz,
        }
    }

    /// The rows that the columns hold.
    pub closed spec fn rows(&self) -> Seq<Particle<C::Lane>> {
        Seq::new(
            self.px.lanes().len(),
            |r: int|
                Particle {
                    position: Packed3 {
                        x: self.px.lanes()[r],
                        y: self.py.lanes()[r],
                        z: self.pz.lanes()[r],
                    },
                    velocity: Packed3 {
                        x: self.vx.lanes()[r],
                        y: self.vy.lanes()[r],
                        z: self.vz.lanes()[r],
                    },
                },
        )
    }

    /// Lays the rows of `seed` out in six columns.
    pub fn from_particles(seed: &Vec<Particle<C::Lane>>) -> (columns: Self)
        ensures
            columns.wf(),
            columns.rows() == seed@,
    {
        let mut columns = AxisColumns {
            px: C::empty(),
            py: C::empty(),
            pz: C::empty(),
            vx: C::empty(),
            vy: C::empty(),
            vz: C::empty(),
        };
        let count: usize = seed.len();
        let mut row: usize = 0;
        assert(columns.rows() =~= seed@.take(0));
        while row < count
            invariant
                row <= count,
                count == seed@.len(),
                columns.wf(),
                columns.px.lanes().len() == row,
                columns.rows() == seed@.take(row as int),
            decreases count - row,
        {
            let p = seed[row];
            columns.px.push(p.position.x);
            columns.py.push(p.position.y);
            columns.pz.push(p.position.z);
            columns.vx.push(p.velocity.x);
            columns.vy.push(p.velocity.y);
            columns.vz.push(p.velocity.z);
            row = row + 1;
            assert(columns.rows() =~= seed@.take(row as int));
        }
        assert(seed@.take(count as int) =~= seed@);
        columns
    }

    pub fn len(&self) -> (n: usize)
        requires
            self.wf(),
        ensures
            n == self.rows().len(),
    {
        self.px.len()
    }

    /// How many storage slots back each of the six columns.
    pub fn slots(&self) -> (n: usize)
        requires
            self.wf(),
        ensures
            n == C::slots_for(self.rows().len()),
    {
        self.px.slots()
    }

    /// Collects one row from the six columns.
    pub fn particle(&self, row: usize) -> (p: Particle<C::Lane>)
        requires
            self.wf(),
            row < self.rows().len(),
        ensures
            p == self.rows()[row as int],
    {
        Particle {
            position: Packed3 { x: self.px.get(row), y: self.py.get(row), z: self.pz.get(row) },
            velocity: Packed3 { x: self.vx.get(row), y: self.vy.get(row), z: self.vz.get(row) },
        }
    }

    /// One linear pass over the position and velocity columns of `axis`,
    /// in batches of `width` rows.
    pub fn advance_axis(
        &mut self,
        axis: Axis,
        dt: C::Lane,
        flags: &mut ChangeFlags,
        mode: Mode,
        width: usize,
    )
        requires
            old(self).wf(),
            old(flags)@.len() == old(self).rows().len(),
        ensures
            final(self).wf(),
            final(self).rows() == stepped_rows_on(old(self).rows(), axis, dt),
            final(flags)@ == touched(old(flags)@, mode, 0, old(flags)@.len() as int),
    {
        match axis {
            Axis::X => {
                advance_pass(&mut self.px, &self.vx, dt, flags, mode, width);
            },
            Axis::Y => {
                advance_pass(&mut self.py, &self.vy, dt, flags, mode, width);
            },
            Axis::Z => {
                advance_pass(&mut self.pz, &self.vz, dt, flags, mode, width);
            },
        }
        assert(self.rows() =~= stepped_rows_on(old(self).rows(), axis, dt));
    }

    /// One step: a pass along x, then one along y, then one along z, each
    /// in batches of `width` rows, so that each pass walks two columns
    /// from end to end.
    pub fn step(&mut self, dt: C::Lane, flags: &mut ChangeFlags, mode: Mode, width: usize)
        requires
            old(self).wf(),
            old(flags)@.len() == old(self).rows().len(),
        ensures
            final(self).wf(),
            final(self).rows() == stepped_rows(old(self).rows(), dt),
            final(flags)@ == touched(old(flags)@, mode, 0, old(flags)@.len() as int),
    {
        self.advance_axis(Axis::X, dt, flags, mode, width);
        self.advance_axis(Axis::Y, dt, flags, mode, width);
        self.advance_axis(Axis::Z, dt, flags, mode, width);
        proof {
            lemma_three_axes(old(self).rows(), dt);
            lemma_touched_again(old(flags)@, mode);
            lemma_touched_again(touched(old(flags)@, mode, 0, old(flags)@.len() as int), mode);
        }
    }

    /// One step in a single pass that moves all three axes of a batch
    /// before it goes on to the next, and so jumps between six columns.
    pub fn step_fused(&mut self, dt: C::Lane, flags: &mut ChangeFlags, mode: Mode)
        requires
            old(self).wf(),
            old(flags)@.len() == old(self).rows().len(),
        ensures
            final(self).wf(),
            final(self).rows() == stepped_rows(old(self).rows(), dt),
            final(flags)@ == touched(old(flags)@, mode, 0, old(flags)@.len() as int),
    {
        let rows: usize = self.px.len();
        let mut pass = BatchIter::new(rows, QUAD);
        proof {
            lemma_touch_extends(old(flags)@, mode, 0, 0);
            lemma_stepped_extends(old(self).rows(), dt, 0, 0);
        }
        loop
            invariant
                pass.wf(),
                pass.len() == rows,
                pass.width() == 4,
                0 <= pass.cursor() <= rows,
                self.wf(),
                old(self).wf(),
                old(self).rows().len() == rows,
                old(flags)@.len() == rows,
                self.px.lanes().len() == rows,
                self.rows() == stepped_range(old(self).rows(), dt, 0, pass.cursor()),
                flags@ == touched(old(flags)@, mode, 0, pass.cursor()),
            ensures
                pass.cursor() == rows,
            decreases rows - pass.cursor(),
        {
            let ghost at = pass.cursor();
            let ghost before = self.rows();
            match pass.next() {
                Some(Batch::Full { start, .. }) => {
                    advance_quad(&mut self.px, &self.vx, dt, start);
                    advance_quad(&mut self.py, &self.vy, dt, start);
                    advance_quad(&mut self.pz, &self.vz, dt, start);
                    flags.touch(mode, start, QUAD);
                    proof {
                        lemma_touch_extends(old(flags)@, mode, at, at + 4);
                        assert(self.rows() =~= stepped_range(before, dt, at, at + 4));
                        lemma_stepped_extends(old(self).rows(), dt, at, at + 4);
                    }
                },
                Some(Batch::Single { row }) => {
                    advance_row(&mut self.px, &self.vx, dt, row);
                    advance_row(&mut self.py, &self.vy, dt, row);
                    advance_row(&mut self.pz, &self.vz, dt, row);
                    flags.touch(mode, row, 1);
                    proof {
                        lemma_touch_extends(old(flags)@, mode, at, at + 1);
                        assert(self.rows() =~= stepped_range(before, dt, at, at + 1));
                        lemma_stepped_extends(old(self).rows(), dt, at, at + 1);
                    }
                },
                None => {
                    break ;
                },
            }
        }
        proof {
            lemma_stepped_extends(old(self).rows(), dt, rows as int, rows as int);
        }
    }
}

} // verus!
