use crate::packed::{Axis, Packed3};
use crate::scalar::Scalar;
use vstd::prelude::*;

verus! {

/// What one row holds: where the entity is and how fast it moves.
#[derive(Clone, Copy, Debug, PartialEq, Eq)]
pub struct Particle<S> {
    pub position: Packed3<S>,
    pub velocity: Packed3<S>,
}

impl<S: Scalar> Particle<S> {
    /// The row after a step of length `dt`: the position moves, the
    /// velocity stays.
    pub open spec fn advanced(self, dt: S) -> Self {
        Particle { position: self.position.advanced(dt, self.velocity), velocity: self.velocity }
    }

    /// The row after a step of length `dt` along `axis` alone.
    pub open spec fn advanced_on(self, axis: Axis, dt: S) -> Self {
        Particle {
            position: self.position.advanced_on(axis, dt, self.velocity),
            velocity: self.velocity,
        }
    }

    pub fn new(position: Packed3<S>, velocity: Packed3<S>) -> (p: Self)
        ensures
            p == (Particle { position, velocity }),
    {
        Particle { position, velocity }
    }

    /// Moves the position by `dt` times the velocity, all three lanes at once.
    pub fn advance(&mut self, dt: S)
        ensures
            *final(self) == old(self).advanced(dt),
    {
        self.position = self.position.scale_add(dt, self.velocity);
    }

    /// Moves the position along `axis` alone.
    pub fn advance_on(&mut self, axis: Axis, dt: S)
        ensures
            *final(self) == old(self).advanced_on(axis, dt),
    {
        let moved = crate::scalar::scale_add(
            self.position.get(axis),
            dt,
            self.velocity.get(axis),
        );
        self.position.set(axis, moved);
    }
}

/// The rows from `from` up to `to` after a step of length `dt`, the other
/// rows as they were.
pub open spec fn stepped_range<S: Scalar>(
    rows: Seq<Particle<S>>,
    dt: S,
    from: int,
    to: int,
) -> Seq<Particle<S>> {
    Seq::new(
        rows.len(),
        |r: int|
            if from <= r < to {
                rows[r].advanced(dt)
            } else {
                rows[r]
            },
    )
}

/// The rows from `from` up to `to` after a step of length `dt` along `axis`
/// alone, the other rows as they were.
pub open spec fn stepped_range_on<S: Scalar>(
    rows: Seq<Particle<S>>,
    axis: Axis,
    dt: S,
    from: int,
    to: int,
) -> Seq<Particle<S>> {
    Seq::new(
        rows.len(),
        |r: int|
            if from <= r < to {
                rows[r].advanced_on(axis, dt)
            } else {
                rows[r]
            },
    )
}

/// Every row after a step of length `dt`.
pub open spec fn stepped_rows<S: Scalar>(rows: Seq<Particle<S>>, dt: S) -> Seq<Particle<S>> {
    Seq::new(rows.len(), |r: int| rows[r].advanced(dt))
}

/// Every row after a step of length `dt` along `axis` alone.
pub open spec fn stepped_rows_on<S: Scalar>(rows: Seq<Particle<S>>, axis: Axis, dt: S) -> Seq<
    Particle<S>,
> {
    Seq::new(rows.len(), |r: int| rows[r].advanced_on(axis, dt))
}

/// Moving along x, then y, then z is one step: each lane is computed once,
/// from the same operands, whichever way the passes are arranged.
pub proof fn lemma_three_axes<S: Scalar>(rows: Seq<Particle<S>>, dt: S)
    ensures
        stepped_rows_on(
            stepped_rows_on(stepped_rows_on(rows, Axis::X, dt), Axis::Y, dt),
            Axis::Z,
            dt,
        ) == stepped_rows(rows, dt),
{
    assert(stepped_rows_on(
        stepped_rows_on(stepped_rows_on(rows, Axis::X, dt), Axis::Y, dt),
        Axis::Z,
        dt,
    ) =~= stepped_rows(rows, dt));
}

/// A pass that has moved the rows below `mid` and then moves the rows from
/// `mid` up to `to` has moved the rows below `to`.
pub proof fn lemma_stepped_extends<S: Scalar>(rows: Seq<Particle<S>>, dt: S, mid: int, to: int)
    requires
        0 <= mid <= to,
    ensures
        stepped_range(stepped_range(rows, dt, 0, mid), dt, mid, to) == stepped_range(
            rows,
            dt,
            0,
            to,
        ),
        stepped_range(rows, dt, 0, 0) == rows,
        stepped_range(rows, dt, 0, rows.len() as int) == stepped_rows(rows, dt),
{
    assert(stepped_range(stepped_range(rows, dt, 0, mid), dt, mid, to) =~= stepped_range(
        rows,
        dt,
        0,
        to,
    ));
    assert(stepped_range(rows, dt, 0, 0) =~= rows);
    assert(stepped_range(rows, dt, 0, rows.len() as int) =~= stepped_rows(rows, dt));
}

/// The same for a pass along one axis.
pub proof fn lemma_stepped_on_extends<S: Scalar>(
    rows: Seq<Particle<S>>,
    axis: Axis,
    dt: S,
    mid: int,
    to: int,
)
    requires
        0 <= mid <= to,
    ensures
        stepped_range_on(stepped_range_on(rows, axis, dt, 0, mid), axis, dt, mid, to)
            == stepped_range_on(rows, axis, dt, 0, to),
        stepped_range_on(rows, axis, dt, 0, 0) == rows,
        stepped_range_on(rows, axis, dt, 0, rows.len() as int) == stepped_rows_on(rows, axis, dt),
{
    assert(stepped_range_on(stepped_range_on(rows, axis, dt, 0, mid), axis, dt, mid, to)
        =~= stepped_range_on(rows, axis, dt, 0, to));
    assert(stepped_range_on(rows, axis, dt, 0, 0) =~= rows);
    assert(stepped_range_on(rows, axis, dt, 0, rows.len() as int) =~= stepped_rows_on(
        rows,
        axis,
        dt,
    ));
}

} // verus!
