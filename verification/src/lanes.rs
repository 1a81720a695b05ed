use crate::batch::{Batch, BatchIter};
use crate::flags::{lemma_touch_extends, touched, ChangeFlags, Mode};
use crate::packed::Packed4;
use crate::scalar::{advance, scale_add, Scalar};
use vstd::prelude::*;

verus! {

/// The width of the packed view that a column hands out.
pub const QUAD: usize = 4;

/// Whether four rows of a column of `len` rows can be read as one packed
/// value at `start`: the offset is a multiple of four and the four rows lie
/// inside the column.
pub open spec fn quad_ok(len: nat, start: int) -> bool {
    &&& 0 <= start
    &&& start % 4 == 0
    &&& start + 4 <= len
}

/// The rows from `from` up to `to` advanced by `dt` at the rate in the same
/// row of `rates`, the other rows as they were.
pub open spec fn advanced_range<S: Scalar>(
    values: Seq<S>,
    dt: S,
    rates: Seq<S>,
    from: int,
    to: int,
) -> Seq<S> {
    Seq::new(
        values.len(),
        |row: int|
            if from <= row < to {
                advance(values[row], dt, rates[row])
            } else {
                values[row]
            },
    )
}

/// Every row advanced by `dt` at the rate in the same row of `rates`.
pub open spec fn advanced_lanes<S: Scalar>(values: Seq<S>, dt: S, rates: Seq<S>) -> Seq<S> {
    Seq::new(values.len(), |row: int| advance(values[row], dt, rates[row]))
}

/// One component axis of every row, with a scalar view of each row and a
/// packed view of each aligned group of four rows over the same storage.
pub trait Lanes: Sized {
    type Lane: Scalar;

    /// The lanes in row order.
    spec fn lanes(&self) -> Seq<Self::Lane>;

    spec fn wf(&self) -> bool;

    fn empty() -> (column: Self)
        ensures
            column.wf(),
            column.lanes() == Seq::<Self::Lane>::empty(),
    ;

    fn push(&mut self, value: Self::Lane)
        requires
            old(self).wf(),
            old(self).lanes().len() < usize::MAX,
        ensures
            final(self).wf(),
            final(self).lanes() == old(self).lanes().push(value),
    ;

    fn len(&self) -> (n: usize)
        requires
            self.wf(),
        ensures
            n == self.lanes().len(),
    ;

    /// How many storage slots a column of `rows` rows takes.
    spec fn slots_for(rows: nat) -> nat;

    /// How many storage slots back the column.
    fn slots(&self) -> (n: usize)
        requires
            self.wf(),
        ensures
            n == Self::slots_for(self.lanes().len()),
    ;

    /// Reads one row through the scalar view.
    fn get(&self, row: usize) -> (value: Self::Lane)
        requires
            self.wf(),
            row < self.lanes().len(),
        ensures
            value == self.lanes()[row as int],
    ;

    /// Writes one row through the scalar view.
    fn set(&mut self, row: usize, value: Self::Lane)
        requires
            old(self).wf(),
            row < old(self).lanes().len(),
        ensures
            final(self).wf(),
            final(self).lanes() == old(self).lanes().update(row as int, value),
    ;

    /// Reads the four rows from `start` on as one packed value.
    fn quad(&self, start: usize) -> (q: Packed4<Self::Lane>)
        requires
            self.wf(),
            quad_ok(self.lanes().len(), start as int),
        ensures
            q.lanes() == self.lanes().subrange(start as int, start + 4),
    ;

    /// Writes one packed value over the four rows from `start` on.
    fn store_quad(&mut self, start: usize, q: Packed4<Self::Lane>)
        requires
            old(self).wf(),
            quad_ok(old(self).lanes().len(), start as int),
        ensures
            final(self).wf(),
            final(self).lanes() == old(self).lanes().subrange(0, start as int) + q.lanes() + old(
                self,
            ).lanes().subrange(start + 4, old(self).lanes().len() as int),
    ;
}

/// Moves the four rows from `start` on as one packed value.
pub fn advance_quad<C: Lanes>(values: &mut C, rates: &C, dt: C::Lane, start: usize)
    requires
        old(values).wf(),
        rates.wf(),
        old(values).lanes().len() == rates.lanes().len(),
        quad_ok(rates.lanes().len(), start as int),
    ensures
        final(values).wf(),
        final(values).lanes() == advanced_range(
            old(values).lanes(),
            dt,
            rates.lanes(),
            start as int,
            start + 4,
        ),
{
    let value = values.quad(start);
    let rate = rates.quad(start);
    let moved = value.scale_add(dt, rate);
    values.store_quad(start, moved);
    proof {
        let before = old(values).lanes();
        let after = advanced_range(before, dt, rates.lanes(), start as int, start + 4);
        assert forall|row: int| 0 <= row < before.len() implies values.lanes()[row]
            == after[row] by {
            if start <= row < start + 4 {
                let lane = row - start;
                assert(before.subrange(start as int, start + 4)[lane] == before[row]);
                assert(rates.lanes().subrange(start as int, start + 4)[lane] == rates.lanes()[row]);
                assert(moved.lanes()[lane] == values.lanes()[row]);
                assert(value.lanes()[lane] == before[row]);
                assert(rate.lanes()[lane] == rates.lanes()[row]);
            }
        }
        assert(values.lanes() =~= after);
    }
}

/// Moves one row on its own.
pub fn advance_row<C: Lanes>(values: &mut C, rates: &C, dt: C::Lane, row: usize)
    requires
        old(values).wf(),
        rates.wf(),
        old(values).lanes().len() == rates.lanes().len(),
        row < rates.lanes().len(),
    ensures
        final(values).wf(),
        final(values).lanes() == advanced_range(
            old(values).lanes(),
            dt,
            rates.lanes(),
            row as int,
            row + 1,
        ),
{
    let moved = scale_add(values.get(row), dt, rates.get(row));
    values.set(row, moved);
    assert(values.lanes() =~= advanced_range(
        old(values).lanes(),
        dt,
        rates.lanes(),
        row as int,
        row + 1,
    ));
}

/// Moving the rows from `from` up to `mid` and then those from `mid` up to
/// `to` moves the rows from `from` up to `to`.
pub proof fn lemma_range_extends<S: Scalar>(
    values: Seq<S>,
    dt: S,
    rates: Seq<S>,
    from: int,
    mid: int,
    to: int,
)
    requires
        from <= mid <= to,
    ensures
        advanced_range(advanced_range(values, dt, rates, from, mid), dt, rates, mid, to)
            == advanced_range(values, dt, rates, from, to),
        advanced_range(values, dt, rates, from, from) == values,
        advanced_range(values, dt, rates, 0, values.len() as int) == advanced_lanes(
            values,
            dt,
            rates,
        ),
{
    assert(advanced_range(advanced_range(values, dt, rates, from, mid), dt, rates, mid, to)
        =~= advanced_range(values, dt, rates, from, to));
    assert(advanced_range(values, dt, rates, from, from) =~= values);
    assert(advanced_range(values, dt, rates, 0, values.len() as int) =~= advanced_lanes(
        values,
        dt,
        rates,
    ));
}

/// An offset that is a multiple of a width that is a multiple of four is
/// itself a multiple of four.
pub proof fn lemma_aligned_batch(start: int, width: int)
    requires
        0 <= start,
        0 < width,
        start % width == 0,
        width % 4 == 0,
    ensures
        start % 4 == 0,
{
    vstd::arithmetic::div_mod::lemma_fundamental_div_mod(start, width);
    vstd::arithmetic::div_mod::lemma_fundamental_div_mod(width, 4);
    let m = start / width;
    let j = width / 4;
    assert(start == (j * m) * 4) by (nonlinear_arith)
        requires
            start == width * m,
            width == 4 * j,
    ;
    vstd::arithmetic::div_mod::lemma_mod_multiples_basic(j * m, 4);
}

/// Moves the `width` rows of one full batch. Where the width is a multiple
/// of four the batch goes through the packed view, four rows at a time;
/// otherwise its offsets are not aligned for that view and the rows go
/// through the scalar view.
pub fn advance_batch<C: Lanes>(values: &mut C, rates: &C, dt: C::Lane, start: usize, width: usize)
    requires
        old(values).wf(),
        rates.wf(),
        old(values).lanes().len() == rates.lanes().len(),
        width > 0,
        start as int % width as int == 0,
        start + width <= rates.lanes().len(),
    ensures
        final(values).wf(),
        final(values).lanes() == advanced_range(
            old(values).lanes(),
            dt,
            rates.lanes(),
            start as int,
            start + width,
        ),
{
    let rows: usize = rates.len();
    let packed: bool = width % QUAD == 0;
    let mut done: usize = 0;
    proof {
        lemma_range_extends(
            old(values).lanes(),
            dt,
            rates.lanes(),
            start as int,
            start as int,
            start as int,
        );
        if packed {
            lemma_aligned_batch(start as int, width as int);
        }
    }
    while done < width
        invariant
            done <= width,
            start + width <= rows,
            rows == rates.lanes().len(),
            packed == (width % 4 == 0),
            packed ==> start % 4 == 0 && done % 4 == 0,
            values.wf(),
            rates.wf(),
            old(values).lanes().len() == rows,
            values.lanes() == advanced_range(
                old(values).lanes(),
                dt,
                rates.lanes(),
                start as int,
                start + done,
            ),
        decreases width - done,
    {
        if packed {
            advance_quad(values, rates, dt, start + done);
            proof {
                lemma_range_extends(
                    old(values).lanes(),
                    dt,
                    rates.lanes(),
                    start as int,
                    start + done,
                    start + done + 4,
                );
            }
            done = done + QUAD;
        } else {
            advance_row(values, rates, dt, start + done);
            proof {
                lemma_range_extends(
                    old(values).lanes(),
                    dt,
                    rates.lanes(),
                    start as int,
                    start + done,
                    start + done + 1,
                );
            }
            done = done + 1;
        }
    }
}

/// One pass over a column in batches of `width` rows: every row moves by
/// `dt` times the rate in the same row of `rates`. Full batches come first,
/// the leftover rows follow one by one, in ascending row order.
pub fn advance_pass<C: Lanes>(
    values: &mut C,
    rates: &C,
    dt: C::Lane,
    flags: &mut ChangeFlags,
    mode: Mode,
    width: usize,
)
    requires
        old(values).wf(),
        rates.wf(),
        old(values).lanes().len() == rates.lanes().len(),
        old(values).lanes().len() == old(flags)@.len(),
    ensures
        final(values).wf(),
        final(values).lanes() == advanced_lanes(old(values).lanes(), dt, rates.lanes()),
        final(flags)@ == touched(old(flags)@, mode, 0, rates.lanes().len() as int),
{
    let rows: usize = values.len();
    let mut pass = BatchIter::new(rows, width);
    proof {
        lemma_touch_extends(old(flags)@, mode, 0, 0);
        lemma_range_extends(old(values).lanes(), dt, rates.lanes(), 0, 0, 0);
    }
    loop
        invariant
            pass.wf(),
            pass.len() == rows,
            pass.width() == width,
            0 <= pass.cursor() <= rows,
            values.wf(),
            rates.wf(),
            rates.lanes().len() == rows,
            old(values).lanes().len() == rows,
            old(flags)@.len() == rows,
            values.lanes() == advanced_range(
                old(values).lanes(),
                dt,
                rates.lanes(),
                0,
                pass.cursor(),
            ),
            flags@ == touched(old(flags)@, mode, 0, pass.cursor()),
        ensures
            pass.cursor() == rows,
        decreases rows - pass.cursor(),
    {
        let ghost at = pass.cursor();
        match pass.next() {
            Some(Batch::Full { start, width: lanes }) => {
                advance_batch(values, rates, dt, start, lanes);
                flags.touch(mode, start, lanes);
                proof {
                    lemma_touch_extends(old(flags)@, mode, at, at + lanes);
                    lemma_range_extends(old(values).lanes(), dt, rates.lanes(), 0, at, at + lanes);
                }
            },
            Some(Batch::Single { row }) => {
                advance_row(values, rates, dt, row);
                flags.touch(mode, row, 1);
                proof {
                    lemma_touch_extends(old(flags)@, mode, at, at + 1);
                    lemma_range_extends(old(values).lanes(), dt, rates.lanes(), 0, at, at + 1);
                }
            },
            None => {
                break ;
            },
        }
    }
    proof {
        lemma_range_extends(old(values).lanes(), dt, rates.lanes(), 0, rows as int, rows as int);
    }
}

} // verus!
