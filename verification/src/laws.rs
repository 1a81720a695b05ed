use crate::flags::Mode;
use crate::scalar::{advance, ExactScalar, Scalar};
use crate::store::{Store, StoreView};
use vstd::prelude::*;

verus! {

/// A step keeps the number of rows and leaves every velocity as it was.
pub proof fn lemma_step_keeps_shape<S: Scalar>(view: StoreView<S>, dt: S, mode: Mode)
    ensures
        view.stepped(dt, mode).rows.len() == view.rows.len(),
        view.stepped(dt, mode).dirty.len() == view.dirty.len(),
        view.stepped(dt, mode).velocities() == view.velocities(),
{
    assert(view.stepped(dt, mode).velocities() =~= view.velocities());
}

/// Two stores that hold the same rows hold the same rows after the same
/// sequence of steps, whatever their layouts and whatever the mode of each:
/// every lane is computed by the same two operations on the same operands.
pub proof fn lemma_layouts_agree<S: Scalar>(
    a: &Store<S>,
    b: &Store<S>,
    dts: Seq<S>,
    mode_a: Mode,
    mode_b: Mode,
)
    requires
        a.wf(),
        b.wf(),
        a@.rows == b@.rows,
    ensures
        a@.ran(dts, mode_a).rows == b@.ran(dts, mode_b).rows,
        a@.ran(dts, mode_a).positions() == b@.ran(dts, mode_b).positions(),
{
    lemma_runs_agree(a@, b@, dts, mode_a, mode_b);
}

/// The rows after a sequence of steps depend on the rows before it and on
/// the step lengths alone.
pub proof fn lemma_runs_agree<S: Scalar>(
    a: StoreView<S>,
    b: StoreView<S>,
    dts: Seq<S>,
    mode_a: Mode,
    mode_b: Mode,
)
    requires
        a.rows == b.rows,
    ensures
        a.ran(dts, mode_a).rows == b.ran(dts, mode_b).rows,
    decreases dts.len(),
{
    if dts.len() > 0 {
        lemma_runs_agree(
            a.stepped(dts[0], mode_a),
            b.stepped(dts[0], mode_b),
            dts.drop_first(),
            mode_a,
            mode_b,
        );
    }
}

/// A step moves the same rows to the same places in either mode. In
/// bypassing mode the change marks stay as they were; in marking mode
/// every row ends up marked.
pub proof fn lemma_modes_agree<S: Scalar>(view: StoreView<S>, dt: S)
    ensures
        view.stepped(dt, Mode::Marked).rows == view.stepped(dt, Mode::Bypassed).rows,
        view.stepped(dt, Mode::Bypassed).dirty == view.dirty,
        view.stepped(dt, Mode::Marked).dirty == Seq::new(view.dirty.len(), |r: int| true),
{
    assert(view.stepped(dt, Mode::Bypassed).dirty =~= view.dirty);
    assert(view.stepped(dt, Mode::Marked).dirty =~= Seq::new(view.dirty.len(), |r: int| true));
}

/// With exact arithmetic a lane does not move in a step of length zero.
pub proof fn lemma_zero_advance<S: ExactScalar>(value: S, rate: S)
    ensures
        advance(value, S::zero_value(), rate) == value,
{
    S::lemma_zero_product(rate);
    S::lemma_sum_zero(value);
}

/// With exact arithmetic two steps of length `dt` move a lane as far as
/// one step of length `dt + dt`.
pub proof fn lemma_double_advance<S: ExactScalar>(value: S, dt: S, rate: S)
    ensures
        advance(advance(value, dt, rate), dt, rate) == advance(value, dt.sum(dt), rate),
{
    S::lemma_sum_regroups(value, dt.product(rate), dt.product(rate));
    S::lemma_product_distributes(dt, dt, rate);
}

/// With exact arithmetic a step of length zero leaves every row where it
/// was.
pub proof fn lemma_zero_step<S: ExactScalar>(view: StoreView<S>, mode: Mode)
    ensures
        view.stepped(S::zero_value(), mode).rows == view.rows,
        view.stepped(S::zero_value(), mode).positions() == view.positions(),
{
    let after = view.stepped(S::zero_value(), mode);
    assert forall|r: int| 0 <= r < view.rows.len() implies after.rows[r] == view.rows[r] by {
        let p = view.rows[r];
        lemma_zero_advance(p.position.x, p.velocity.x);
        lemma_zero_advance(p.position.y, p.velocity.y);
        lemma_zero_advance(p.position.z, p.velocity.z);
    }
    assert(after.rows =~= view.rows);
}

/// With exact arithmetic two steps of length `dt` leave every row where
/// one step of length `dt + dt` leaves it.
pub proof fn lemma_two_steps<S: ExactScalar>(view: StoreView<S>, dt: S, mode: Mode)
    ensures
        view.stepped(dt, mode).stepped(dt, mode).rows == view.stepped(dt.sum(dt), mode).rows,
        view.stepped(dt, mode).stepped(dt, mode).positions() == view.stepped(
            dt.sum(dt),
            mode,
        ).positions(),
{
    let twice = view.stepped(dt, mode).stepped(dt, mode);
    let once = view.stepped(dt.sum(dt), mode);
    assert forall|r: int| 0 <= r < view.rows.len() implies twice.rows[r] == once.rows[r] by {
        let p = view.rows[r];
        lemma_double_advance(p.position.x, dt, p.velocity.x);
        lemma_double_advance(p.position.y, dt, p.velocity.y);
        lemma_double_advance(p.position.z, dt, p.velocity.z);
    }
    assert(twice.rows =~= once.rows);
}

} // verus!
