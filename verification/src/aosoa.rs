use crate::batch::{Batch, BatchIter};
use crate::flags::{lemma_touch_extends, lemma_touched_again, touched, ChangeFlags, Mode};
use crate::lanes::QUAD;
use crate::packed::{Axis, Packed3, Packed4};
use crate::particle::{
    lemma_stepped_extends, lemma_stepped_on_extends, lemma_three_axes, stepped_range,
    stepped_range_on, stepped_rows, stepped_rows_on, Particle,
};
use crate::scalar::Scalar;
use vstd::prelude::*;

verus! {

/// One component of four rows: a packed value per axis, lane `i` of each
/// belonging to the `i`-th of the four.
#[derive(Clone, Copy, Debug, PartialEq, Eq)]
pub struct Block<S> {
    pub x: Packed4<S>,
    pub y: Packed4<S>,
    pub z: Packed4<S>,
}

/// Four rows stored together, axis by axis.
#[derive(Clone, Copy, Debug, PartialEq, Eq)]
pub struct Group<S> {
    pub position: Block<S>,
    pub velocity: Block<S>,
}

impl<S: Scalar> Block<S> {
    /// The packed value of `axis`.
    pub open spec fn axis(self, axis: Axis) -> Packed4<S> {
        match axis {
            Axis::X => self.x,
            Axis::Y => self.y,
            Axis::Z => self.z,
        }
    }

    /// This block with the packed value of `axis` replaced.
    pub open spec fn with_axis(self, axis: Axis, q: Packed4<S>) -> Self {
        match axis {
            Axis::X => Block { x: q, ..self },
            Axis::Y => Block { y: q, ..self },
            Axis::Z => Block { z: q, ..self },
        }
    }

    /// The three lanes that belong to the `i`-th row of the block.
    pub open spec fn entity(self, i: int) -> Packed3<S> {
        Packed3 { x: self.x.lane(i), y: self.y.lane(i), z: self.z.lane(i) }
    }

    /// Turns four values of three lanes into three of four.
    pub fn gather(
        lanes0: Packed3<S>,
        lanes1: Packed3<S>,
        lanes2: Packed3<S>,
        lanes3: Packed3<S>,
    ) -> (b: Self)
        ensures
            b.entity(0) == lanes0,
            b.entity(1) == lanes1,
            b.entity(2) == lanes2,
            b.entity(3) == lanes3,
    {
        Block {
            x: Packed4::new(lanes0.x, lanes1.x, lanes2.x, lanes3.x),
            y: Packed4::new(lanes0.y, lanes1.y, lanes2.y, lanes3.y),
            z: Packed4::new(lanes0.z, lanes1.z, lanes2.z, lanes3.z),
        }
    }

    pub fn get(&self, axis: Axis) -> (q: Packed4<S>)
        ensures
            q == self.axis(axis),
    {
        match axis {
            Axis::X => self.x,
            Axis::Y => self.y,
            Axis::Z => self.z,
        }
    }

    pub fn set(&mut self, axis: Axis, q: Packed4<S>)
        ensures
            *final(self) == old(self).with_axis(axis, q),
    {
        match axis {
            Axis::X => {
                self.x = q;
            },
            Axis::Y => {
                self.y = q;
            },
            Axis::Z => {
                self.z = q;
            },
        }
    }

    /// Reads the three lanes of the `i`-th row.
    pub fn entity_at(&self, i: usize) -> (e: Packed3<S>)
        requires
            i < 4,
        ensures
            e == self.entity(i as int),
    {
        Packed3 { x: self.x.get(i), y: self.y.get(i), z: self.z.get(i) }
    }
}

impl<S: Scalar> Group<S> {
    /// The `i`-th row of the group.
    pub open spec fn particle(self, i: int) -> Particle<S> {
        Particle { position: self.position.entity(i), velocity: self.velocity.entity(i) }
    }

    /// The group after a step of length `dt` along `axis` alone.
    pub open spec fn advanced_on(self, axis: Axis, dt: S) -> Self {
        Group {
            position: self.position.with_axis(
                axis,
                self.position.axis(axis).advanced(dt, self.velocity.axis(axis)),
            ),
            velocity: self.velocity,
        }
    }

    /// The group after a step of length `dt`.
    pub open spec fn advanced(self, dt: S) -> Self {
        Group {
            position: Block {
                x: self.position.x.advanced(dt, self.velocity.x),
                y: self.position.y.advanced(dt, self.velocity.y),
                z: self.position.z.advanced(dt, self.velocity.z),
            },
            velocity: self.velocity,
        }
    }

    /// Stores four rows as one group.
    pub fn gather(
        row0: Particle<S>,
        row1: Particle<S>,
        row2: Particle<S>,
        row3: Particle<S>,
    ) -> (g: Self)
        ensures
            g.particle(0) == row0,
            g.particle(1) == row1,
            g.particle(2) == row2,
            g.particle(3) == row3,
    {
        Group {
            position: Block::gather(row0.position, row1.position, row2.position, row3.position),
            velocity: Block::gather(row0.velocity, row1.velocity, row2.velocity, row3.velocity),
        }
    }

    /// Reads the `i`-th row of the group.
    pub fn particle_at(&self, i: usize) -> (p: Particle<S>)
        requires
            i < 4,
        ensures
            p == self.particle(i as int),
    {
        Particle { position: self.position.entity_at(i), velocity: self.velocity.entity_at(i) }
    }

    /// Moves the four rows along `axis` as one packed value.
    pub fn advance_on(&mut self, axis: Axis, dt: S)
        ensures
            *final(self) == old(self).advanced_on(axis, dt),
            forall|i: int|
                0 <= i < 4 ==> #[trigger] final(self).particle(i) == old(self).particle(
                    i,
                ).advanced_on(axis, dt),
    {
        let moved = self.position.get(axis).scale_add(dt, self.velocity.get(axis));
        self.position.set(axis, moved);
    }

    /// Moves the four rows along x, y and z, one packed value each.
    pub fn advance(&mut self, dt: S)
        ensures
            *final(self) == old(self).advanced(dt),
            forall|i: int|
                0 <= i < 4 ==> #[trigger] final(self).particle(i) == old(self).particle(
                    i,
                ).advanced(dt),
    {
        self.position.x = self.position.x.scale_add(dt, self.velocity.x);
        self.position.y = self.position.y.scale_add(dt, self.velocity.y);
        self.position.z = self.position.z.scale_add(dt, self.velocity.z);
    }
}

/// Rows stored in groups of four, each group axis by axis. The rows that
/// do not fill a last group are kept one by one behind the groups.
pub struct Grouped<S> {
    groups: Vec<Group<S>>,
    tail: Vec<Particle<S>>,
}

impl<S: Scalar> Grouped<S> {
    /// Fewer than four rows are left outside the groups.
    pub closed spec fn wf(&self) -> bool {
        &&& self.tail@.len() < 4
        &&& 4 * self.groups@.len() + self.tail@.len() <= usize::MAX
    }

    /// The groups of four, in storage order.
    pub closed spec fn groups(&self) -> Seq<Group<S>> {
        self.groups@
    }

    /// The rows kept behind the groups, in storage order.
    pub closed spec fn leftovers(&self) -> Seq<Particle<S>> {
        self.tail@
    }

    /// How the rows sit in storage: row `4 * g + i` is the `i`-th row of
    /// group `g`, every four rows fill a group, and the rows that fill
    /// none follow in their order.
    pub proof fn lemma_arrangement(&self)
        requires
            self.wf(),
        ensures
            self.groups().len() == self.rows().len() / 4,
            self.leftovers().len() == self.rows().len() % 4,
            forall|g: int, i: int|
                0 <= g < self.groups().len() && 0 <= i < 4 ==> #[trigger] self.groups()[g].particle(
                    i,
                ) == self.rows()[4 * g + i],
            forall|t: int|
                0 <= t < self.leftovers().len() ==> #[trigger] self.leftovers()[t]
                    == self.rows()[4 * self.groups().len() + t],
    {
        assert forall|g: int, i: int|
            0 <= g < self.groups().len() && 0 <= i < 4 implies #[trigger] self.groups()[g].particle(
            i,
        ) == self.rows()[4 * g + i] by {
            let r = 4 * g + i;
            assert(r / 4 == g && r % 4 == i);
        }
    }

    /// Reads one group as it is stored.
    pub fn group(&self, index: usize) -> (g: Group<S>)
        requires
            index < self.groups().len(),
        ensures
            g == self.groups()[index as int],
    {
        self.groups[index]
    }

    /// Reads one of the rows kept behind the groups.
    pub fn leftover(&self, index: usize) -> (p: Particle<S>)
        requires
            index < self.leftovers().len(),
        ensures
            p == self.leftovers()[index as int],
    {
        self.tail[index]
    }

    /// The rows that the layout holds.
    pub closed spec fn rows(&self) -> Seq<Particle<S>> {
        Seq::new(
            4 * self.groups@.len() + self.tail@.len(),
            |r: int|
                if r < 4 * self.groups@.len() {
                    self.groups@[r / 4].particle(r % 4)
                } else {
                    self.tail@[r - 4 * self.groups@.len()]
                },
        )
    }

    /// Lays the rows of `seed` out in groups of four.
    pub fn from_particles(seed: &Vec<Particle<S>>) -> (layout: Self)
        ensures
            layout.wf(),
            layout.rows() == seed@,
    {
        let count: usize = seed.len();
        let full: usize = count / QUAD;
        let mut groups: Vec<Group<S>> = Vec::new();
        let mut g: usize = 0;
        while g < full
            invariant
                g <= full,
                full == count / 4,
                count == seed@.len(),
                groups@.len() == g,
                forall|k: int, i: int|
                    0 <= k < g && 0 <= i < 4 ==> #[trigger] groups@[k].particle(i) == seed@[4 * k
                        + i],
            decreases full - g,
        {
            let first: usize = QUAD * g;
            let group = Group::gather(
                seed[first],
                seed[first + 1],
                seed[first + 2],
                seed[first + 3],
            );
            groups.push(group);
            g = g + 1;
        }
        let mut tail: Vec<Particle<S>> = Vec::new();
        let mut row: usize = QUAD * full;
        while row < count
            invariant
                4 * full <= row <= count,
                full == count / 4,
                count == seed@.len(),
                tail@ =~= seed@.subrange(4 * full, row as int),
            decreases count - row,
        {
            tail.push(seed[row]);
            row = row + 1;
        }
        let layout = Grouped { groups, tail };
        assert(layout.rows() =~= seed@) by {
            assert forall|r: int| 0 <= r < seed@.len() implies layout.rows()[r] == seed@[r] by {
                if r < 4 * full {
                    assert(layout.groups@[r / 4].particle(r % 4) == seed@[4 * (r / 4) + r % 4]);
                }
            }
        }
        layout
    }

    pub fn len(&self) -> (n: usize)
        requires
            self.wf(),
        ensures
            n == self.rows().len(),
    {
        QUAD * self.groups.len() + self.tail.len()
    }

    /// How many storage slots back the rows: one per group of four and one
    /// per leftover row.
    pub fn slots(&self) -> (n: usize)
        requires
            self.wf(),
        ensures
            n == self.rows().len() / 4 + self.rows().len() % 4,
    {
        self.groups.len() + self.tail.len()
    }

    /// Reads one row, out of its group or out of the leftover rows.
    pub fn particle(&self, row: usize) -> (p: Particle<S>)
        requires
            self.wf(),
            row < self.rows().len(),
        ensures
            p == self.rows()[row as int],
    {
        let grouped: usize = QUAD * self.groups.len();
        if row < grouped {
            self.groups[row / QUAD].particle_at(row % QUAD)
        } else {
            self.tail[row - grouped]
        }
    }

    /// One pass along `axis`: each group moves as one packed value, each
    /// leftover row on its own.
    pub fn advance_axis(&mut self, axis: Axis, dt: S, flags: &mut ChangeFlags, mode: Mode)
        requires
            old(self).wf(),
            old(flags)@.len() == old(self).rows().len(),
        ensures
            final(self).wf(),
            final(self).rows() == stepped_rows_on(old(self).rows(), axis, dt),
            final(flags)@ == touched(old(flags)@, mode, 0, old(flags)@.len() as int),
    {
        let grouped: usize = QUAD * self.groups.len();
        let rows: usize = grouped + self.tail.len();
        let mut pass = BatchIter::new(rows, QUAD);
        proof {
            lemma_touch_extends(old(flags)@, mode, 0, 0);
            lemma_stepped_on_extends(old(self).rows(), axis, dt, 0, 0);
        }
        loop
            invariant
                pass.wf(),
                pass.len() == rows,
                pass.width() == 4,
                0 <= pass.cursor() <= rows,
                self.wf(),
                old(self).rows().len() == rows,
                old(flags)@.len() == rows,
                grouped == 4 * self.groups@.len(),
                rows == grouped + self.tail@.len(),
                self.rows() == stepped_range_on(old(self).rows(), axis, dt, 0, pass.cursor()),
                flags@ == touched(old(flags)@, mode, 0, pass.cursor()),
            ensures
                pass.cursor() == rows,
            decreases rows - pass.cursor(),
        {
            let ghost at = pass.cursor();
            let ghost before = self.rows();
            match pass.next() {
                Some(Batch::Full { start, .. }) => {
                    let slot: usize = start / QUAD;
                    let mut group = self.groups[slot];
                    group.advance_on(axis, dt);
                    self.groups[slot] = group;
                    flags.touch(mode, start, QUAD);
                    proof {
                        lemma_touch_extends(old(flags)@, mode, at, at + 4);
                        assert(self.rows() =~= stepped_range_on(before, axis, dt, at, at + 4)) by {
                            assert forall|r: int| 0 <= r < rows implies self.rows()[r]
                                == stepped_range_on(before, axis, dt, at, at + 4)[r] by {
                                if at <= r < at + 4 {
                                    assert(r / 4 == slot);
                                    assert(self.groups@[r / 4].particle(r % 4)
                                        == before[r].advanced_on(axis, dt));
                                }
                            }
                        }
                        lemma_stepped_on_extends(old(self).rows(), axis, dt, at, at + 4);
                    }
                },
                Some(Batch::Single { row }) => {
                    let left: usize = row - grouped;
                    let mut p = self.tail[left];
                    p.advance_on(axis, dt);
                    self.tail[left] = p;
                    flags.touch(mode, row, 1);
                    proof {
                        lemma_touch_extends(old(flags)@, mode, at, at + 1);
                        assert(self.rows() =~= stepped_range_on(before, axis, dt, at, at + 1));
                        lemma_stepped_on_extends(old(self).rows(), axis, dt, at, at + 1);
                    }
                },
                None => {
                    break ;
                },
            }
        }
        proof {
            lemma_stepped_on_extends(old(self).rows(), axis, dt, rows as int, rows as int);
        }
    }

    /// One step: a pass along x, then one along y, then one along z.
    pub fn step(&mut self, dt: S, flags: &mut ChangeFlags, mode: Mode)
        requires
            old(self).wf(),
            old(flags)@.len() == old(self).rows().len(),
        ensures
            final(self).wf(),
            final(self).rows() == stepped_rows(old(self).rows(), dt),
            final(flags)@ == touched(old(flags)@, mode, 0, old(flags)@.len() as int),
    {
        self.advance_axis(Axis::X, dt, flags, mode);
        self.advance_axis(Axis::Y, dt, flags, mode);
        self.advance_axis(Axis::Z, dt, flags, mode);
        proof {
            lemma_three_axes(old(self).rows(), dt);
            lemma_touched_again(old(flags)@, mode);
            lemma_touched_again(touched(old(flags)@, mode, 0, old(flags)@.len() as int), mode);
        }
    }

    /// One step in a single pass that moves all three axes of a group
    /// before it goes on to the next.
    pub fn step_fused(&mut self, dt: S, flags: &mut ChangeFlags, mode: Mode)
        requires
            old(self).wf(),
            old(flags)@.len() == old(self).rows().len(),
        ensures
            final(self).wf(),
            final(self).rows() == stepped_rows(old(self).rows(), dt),
            final(flags)@ == touched(old(flags)@, mode, 0, old(flags)@.len() as int),
    {
        let grouped: usize = QUAD * self.groups.len();
        let rows: usize = grouped + self.tail.len();
        let mut pass = BatchIter::new(rows, QUAD);
        proof {
            lemma_touch_extends(old(flags)@, mode, 0, 0);
            lemma_stepped_extends(old(self).rows(), dt, 0, 0);
        }
        loop
            invariant
                pass.wf(),
                pass.len() == rows,
                pass.width() == 4,
                0 <= pass.cursor() <= rows,
                self.wf(),
                old(self).rows().len() == rows,
                old(flags)@.len() == rows,
                grouped == 4 * self.groups@.len(),
                rows == grouped + self.tail@.len(),
                self.rows() == stepped_range(old(self).rows(), dt, 0, pass.cursor()),
                flags@ == touched(old(flags)@, mode, 0, pass.cursor()),
            ensures
                pass.cursor() == rows,
            decreases rows - pass.cursor(),
        {
            let ghost at = pass.cursor();
            let ghost before = self.rows();
            match pass.next() {
                Some(Batch::Full { start, .. }) => {
                    let slot: usize = start / QUAD;
                    let mut group = self.groups[slot];
                    group.advance(dt);
                    self.groups[slot] = group;
                    flags.touch(mode, start, QUAD);
                    proof {
                        lemma_touch_extends(old(flags)@, mode, at, at + 4);
                        assert(self.rows() =~= stepped_range(before, dt, at, at + 4)) by {
                            assert forall|r: int| 0 <= r < rows implies self.rows()[r]
                                == stepped_range(before, dt, at, at + 4)[r] by {
                                if at <= r < at + 4 {
                                    assert(r / 4 == slot);
                                    assert(self.groups@[r / 4].particle(r % 4)
                                        == before[r].advanced(dt));
                                }
                            }
                        }
                        lemma_stepped_extends(old(self).rows(), dt, at, at + 4);
                    }
                },
                Some(Batch::Single { row }) => {
                    let left: usize = row - grouped;
                    let mut p = self.tail[left];
                    p.advance(dt);
                    self.tail[left] = p;
                    flags.touch(mode, row, 1);
                    proof {
                        lemma_touch_extends(old(flags)@, mode, at, at + 1);
                        assert(self.rows() =~= stepped_range(before, dt, at, at + 1));
                        lemma_stepped_extends(old(self).rows(), dt, at, at + 1);
                    }
                },
                None => {
                    break ;
                },
            }
        }
        proof {
            lemma_stepped_extends(old(self).rows(), dt, rows as int, rows as int);
        }
    }
}

} // verus!
