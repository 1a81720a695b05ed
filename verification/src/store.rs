use crate::aos::AosRows;
use crate::aosoa::Grouped;
use crate::axis_columns::AxisColumns;
use crate::column::Column;
use crate::flags::{touched, ChangeFlags, Mode};
use crate::lanes::QUAD;
use crate::packed::Packed3;
use crate::particle::{stepped_rows, Particle};
use crate::quads::QuadColumn;
use crate::scalar::Scalar;
use vstd::prelude::*;

verus! {

/// How the rows of a store are arranged in memory.
#[derive(Clone, Copy, Debug, PartialEq, Eq)]
pub enum Layout {
    /// One array of rows, position and velocity of a row side by side.
    Aos,
    /// One scalar array per axis of position and of velocity.
    Soa,
    /// Groups of four rows, each group stored axis by axis.
    Aosoa,
    /// One array of four-lane packed values per axis of position and of
    /// velocity, each lane one row.
    VirtualPacked,
}

/// How many storage slots `rows` rows take under `layout`: one per row
/// where rows are stored singly, one per four rows where they share a
/// packed slot.
pub open spec fn slots_for(layout: Layout, rows: nat) -> nat {
    match layout {
        Layout::Aos => rows,
        Layout::Soa => rows,
        Layout::Aosoa => rows / 4 + rows % 4,
        Layout::VirtualPacked => (rows + 3) / 4,
    }
}

/// What a store holds, whatever its layout: the rows in order and one
/// change mark per row.
pub struct StoreView<S> {
    pub rows: Seq<Particle<S>>,
    pub dirty: Seq<bool>,
}

impl<S: Scalar> StoreView<S> {
    /// The positions in row order.
    pub open spec fn positions(self) -> Seq<Packed3<S>> {
        Seq::new(self.rows.len(), |r: int| self.rows[r].position)
    }

    /// The velocities in row order.
    pub open spec fn velocities(self) -> Seq<Packed3<S>> {
        Seq::new(self.rows.len(), |r: int| self.rows[r].velocity)
    }

    /// The contents after one step of length `dt`: every position has
    /// moved by `dt` times its velocity, and in marking mode every row is
    /// marked.
    pub open spec fn stepped(self, dt: S, mode: Mode) -> Self {
        StoreView {
            rows: stepped_rows(self.rows, dt),
            dirty: touched(self.dirty, mode, 0, self.dirty.len() as int),
        }
    }

    /// The contents after the steps of `dts`, taken in order.
    pub open spec fn ran(self, dts: Seq<S>, mode: Mode) -> Self
        decreases dts.len(),
    {
        if dts.len() == 0 {
            self
        } else {
            self.stepped(dts[0], mode).ran(dts.drop_first(), mode)
        }
    }
}

enum Body<S> {
    Aos(AosRows<S>),
    Soa(AxisColumns<Column<S>>),
    Aosoa(Grouped<S>),
    VirtualPacked(AxisColumns<QuadColumn<S>>),
}

impl<S: Scalar> Body<S> {
    spec fn wf(&self) -> bool {
        match self {
            Body::Aos(_) => true,
            Body::Soa(columns) => columns.wf(),
            Body::Aosoa(groups) => groups.wf(),
            Body::VirtualPacked(columns) => columns.wf(),
        }
    }

    spec fn rows(&self) -> Seq<Particle<S>> {
        match self {
            Body::Aos(array) => array.rows(),
            Body::Soa(columns) => columns.rows(),
            Body::Aosoa(groups) => groups.rows(),
            Body::VirtualPacked(columns) => columns.rows(),
        }
    }

    spec fn layout(&self) -> Layout {
        match self {
            Body::Aos(_) => Layout::Aos,
            Body::Soa(_) => Layout::Soa,
            Body::Aosoa(_) => Layout::Aosoa,
            Body::VirtualPacked(_) => Layout::VirtualPacked,
        }
    }
}

/// A fixed set of moving points under one layout. Rows are never added or
/// removed once the store exists.
pub struct Store<S> {
    body: Body<S>,
    flags: ChangeFlags,
}

impl<S: Scalar> View for Store<S> {
    type V = StoreView<S>;

    closed spec fn view(&self) -> StoreView<S> {
        StoreView { rows: self.body.rows(), dirty: self.flags@ }
    }
}

impl<S: Scalar> Store<S> {
    /// The storage is sound and there is one change mark per row.
    pub closed spec fn wf(&self) -> bool {
        &&& self.body.wf()
        &&& self.flags@.len() == self.body.rows().len()
    }

    /// The layout that the store was created with.
    pub closed spec fn layout_of(&self) -> Layout {
        self.body.layout()
    }

    /// A sound store has one change mark per row.
    pub proof fn lemma_marks_per_row(&self)
        requires
            self.wf(),
        ensures
            self@.dirty.len() == self@.rows.len(),
    {
    }

    /// Builds a store under `layout` that holds the rows of `seed` in
    /// order, none of them marked.
    pub fn create(layout: Layout, seed: &Vec<Particle<S>>) -> (store: Self)
        ensures
            store.wf(),
            store.layout_of() == layout,
            store@.rows == seed@,
            store@.dirty == Seq::new(seed@.len(), |r: int| false),
    {
        let body = match layout {
            Layout::Aos => Body::Aos(AosRows::from_particles(seed)),
            Layout::Soa => Body::Soa(AxisColumns::from_particles(seed)),
            Layout::Aosoa => Body::Aosoa(Grouped::from_particles(seed)),
            Layout::VirtualPacked => Body::VirtualPacked(AxisColumns::from_particles(seed)),
        };
        Store { body, flags: ChangeFlags::new(seed.len()) }
    }

    pub fn layout(&self) -> (layout: Layout)
        ensures
            layout == self.layout_of(),
    {
        match &self.body {
            Body::Aos(_) => Layout::Aos,
            Body::Soa(_) => Layout::Soa,
            Body::Aosoa(_) => Layout::Aosoa,
            Body::VirtualPacked(_) => Layout::VirtualPacked,
        }
    }

    /// The number of rows, the same under every layout.
    pub fn row_count(&self) -> (n: usize)
        requires
            self.wf(),
        ensures
            n == self@.rows.len(),
    {
        self.flags.len()
    }

    /// The number of storage slots behind the rows. Where four rows share
    /// a packed slot there are four times as many rows as slots, up to the
    /// rows that do not fill a last slot.
    pub fn slot_count(&self) -> (n: usize)
        requires
            self.wf(),
        ensures
            n == slots_for(self.layout_of(), self@.rows.len()),
    {
        match &self.body {
            Body::Aos(array) => array.len(),
            Body::Soa(columns) => columns.slots(),
            Body::Aosoa(groups) => groups.slots(),
            Body::VirtualPacked(columns) => columns.slots(),
        }
    }

    /// The array of rows behind a store of that layout.
    pub fn as_aos(&self) -> (body: Option<&AosRows<S>>)
        requires
            self.wf(),
        ensures
            body is Some <==> self.layout_of() == Layout::Aos,
            body is Some ==> body->0.rows() == self@.rows,
    {
        match &self.body {
            Body::Aos(array) => Some(array),
            _ => None,
        }
    }

    /// The six scalar columns behind a store of that layout.
    pub fn as_soa(&self) -> (body: Option<&AxisColumns<Column<S>>>)
        requires
            self.wf(),
        ensures
            body is Some <==> self.layout_of() == Layout::Soa,
            body is Some ==> body->0.wf() && body->0.rows() == self@.rows,
    {
        match &self.body {
            Body::Soa(columns) => Some(columns),
            _ => None,
        }
    }

    /// The groups of four behind a store of that layout.
    pub fn as_aosoa(&self) -> (body: Option<&Grouped<S>>)
        requires
            self.wf(),
        ensures
            body is Some <==> self.layout_of() == Layout::Aosoa,
            body is Some ==> body->0.wf() && body->0.rows() == self@.rows,
    {
        match &self.body {
            Body::Aosoa(groups) => Some(groups),
            _ => None,
        }
    }

    /// The six packed columns behind a store of that layout.
    pub fn as_virtual_packed(&self) -> (body: Option<&AxisColumns<QuadColumn<S>>>)
        requires
            self.wf(),
        ensures
            body is Some <==> self.layout_of() == Layout::VirtualPacked,
            body is Some ==> body->0.wf() && body->0.rows() == self@.rows,
    {
        match &self.body {
            Body::VirtualPacked(columns) => Some(columns),
            _ => None,
        }
    }

    /// Reads one row.
    pub fn particle(&self, row: usize) -> (p: Particle<S>)
        requires
            self.wf(),
            row < self@.rows.len(),
        ensures
            p == self@.rows[row as int],
    {
        match &self.body {
            Body::Aos(array) => array.particle(row),
            Body::Soa(columns) => columns.particle(row),
            Body::Aosoa(groups) => groups.particle(row),
            Body::VirtualPacked(columns) => columns.particle(row),
        }
    }

    pub fn position(&self, row: usize) -> (p: Packed3<S>)
        requires
            self.wf(),
            row < self@.rows.len(),
        ensures
            p == self@.positions()[row as int],
    {
        self.particle(row).position
    }

    pub fn velocity(&self, row: usize) -> (v: Packed3<S>)
        requires
            self.wf(),
            row < self@.rows.len(),
        ensures
            v == self@.velocities()[row as int],
    {
        self.particle(row).velocity
    }

    /// Whether the row was written in marking mode since the marks were
    /// last cleared.
    pub fn is_dirty(&self, row: usize) -> (dirty: bool)
        requires
            self.wf(),
            row < self@.rows.len(),
        ensures
            dirty == self@.dirty[row as int],
    {
        self.flags.is_set(row)
    }

    /// Clears every change mark and leaves the rows alone.
    pub fn clear_dirty(&mut self)
        requires
            old(self).wf(),
        ensures
            final(self).wf(),
            final(self).layout_of() == old(self).layout_of(),
            final(self)@.rows == old(self)@.rows,
            final(self)@.dirty == Seq::new(old(self)@.rows.len(), |r: int| false),
    {
        self.flags.clear();
    }

    /// One step of length `dt` with the access pattern that suits the
    /// layout: row by row for an array of rows, otherwise one linear pass
    /// per axis in batches of four rows.
    pub fn step(&mut self, dt: S, mode: Mode)
        requires
            old(self).wf(),
        ensures
            final(self).wf(),
            final(self).layout_of() == old(self).layout_of(),
            final(self)@ == old(self)@.stepped(dt, mode),
    {
        self.step_batched(dt, mode, QUAD);
    }

    /// One step of length `dt` like `step`, with the passes over columns
    /// taken in batches of `width` rows. A layout whose storage fixes the
    /// batch, rows stored singly or in groups of four, steps as in `step`.
    /// The result does not depend on the width.
    pub fn step_batched(&mut self, dt: S, mode: Mode, width: usize)
        requires
            old(self).wf(),
        ensures
            final(self).wf(),
            final(self).layout_of() == old(self).layout_of(),
            final(self)@ == old(self)@.stepped(dt, mode),
    {
        match &mut self.body {
            Body::Aos(array) => {
                array.step(dt, &mut self.flags, mode);
            },
            Body::Soa(columns) => {
                columns.step(dt, &mut self.flags, mode, width);
            },
            Body::Aosoa(groups) => {
                groups.step(dt, &mut self.flags, mode);
            },
            Body::VirtualPacked(columns) => {
                columns.step(dt, &mut self.flags, mode, width);
            },
        }
    }

    /// One step of length `dt` in a single pass over batches of four rows
    /// that moves all three axes of a batch together. The result is that
    /// of `step`; only the order in which memory is touched differs.
    pub fn step_fused(&mut self, dt: S, mode: Mode)
        requires
            old(self).wf(),
        ensures
            final(self).wf(),
            final(self).layout_of() == old(self).layout_of(),
            final(self)@ == old(self)@.stepped(dt, mode),
    {
        match &mut self.body {
            Body::Aos(array) => {
                array.step_fused(dt, &mut self.flags, mode);
            },
            Body::Soa(columns) => {
                columns.step_fused(dt, &mut self.flags, mode);
            },
            Body::Aosoa(groups) => {
                groups.step_fused(dt, &mut self.flags, mode);
            },
            Body::VirtualPacked(columns) => {
                columns.step_fused(dt, &mut self.flags, mode);
            },
        }
    }

    /// Takes the steps of `dts` one after the other.
    pub fn run(&mut self, dts: &Vec<S>, mode: Mode)
        requires
            old(self).wf(),
        ensures
            final(self).wf(),
            final(self).layout_of() == old(self).layout_of(),
            final(self)@ == old(self)@.ran(dts@, mode),
    {
        let count: usize = dts.len();
        let mut k: usize = 0;
        assert(dts@.skip(0) =~= dts@);
        while k < count
            invariant
                k <= count,
                count == dts@.len(),
                self.wf(),
                self.layout_of() == old(self).layout_of(),
                self@.ran(dts@.skip(k as int), mode) == old(self)@.ran(dts@, mode),
            decreases count - k,
        {
            proof {
                assert(dts@.skip(k as int).drop_first() =~= dts@.skip(k + 1));
            }
            self.step(dts[k], mode);
            k = k + 1;
        }
    }
}

} // verus!
