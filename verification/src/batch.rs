use vstd::prelude::*;

verus! {

/// One step of a pass over a column range.
#[derive(Clone, Copy, Debug, PartialEq, Eq)]
pub enum Batch {
    /// `width` consecutive rows from `start`, handled as one packed value.
    Full { start: usize, width: usize },
    /// One leftover row, handled on its own.
    Single { row: usize },
}

impl Batch {
    /// The rows that this step covers, ascending.
    pub open spec fn rows(self) -> Seq<int> {
        match self {
            Batch::Full { start, width } => Seq::new(width as nat, |j: int| start + j),
            Batch::Single { row } => seq![row as int],
        }
    }
}

/// How many full batches a range of `len` rows holds. A width of zero holds none.
pub open spec fn full_batches(len: usize, width: usize) -> int {
    if width == 0 {
        0
    } else {
        len as int / width as int
    }
}

/// How many rows are left over after the full batches.
pub open spec fn remainder_rows(len: usize, width: usize) -> int {
    len - full_batches(len, width) * width
}

/// The first row of step `k` of a pass.
pub open spec fn step_start(len: usize, width: usize, k: int) -> int {
    let full = full_batches(len, width);
    if k <= full {
        k * width
    } else {
        full * width + (k - full)
    }
}

/// Step `k` of a pass: full batches first, then the leftover rows one by one.
pub open spec fn batch_at(len: usize, width: usize, k: int) -> Batch {
    if k < full_batches(len, width) {
        Batch::Full { start: step_start(len, width, k) as usize, width }
    } else {
        Batch::Single { row: step_start(len, width, k) as usize }
    }
}

/// The whole pass over `len` rows in batches of `width`.
pub open spec fn batch_plan(len: usize, width: usize) -> Seq<Batch> {
    Seq::new(
        (full_batches(len, width) + remainder_rows(len, width)) as nat,
        |k: int| batch_at(len, width, k),
    )
}

/// The rows that a sequence of steps covers, in the order of the visit.
pub open spec fn rows_visited(steps: Seq<Batch>) -> Seq<int>
    decreases steps.len(),
{
    if steps.len() == 0 {
        Seq::empty()
    } else {
        steps[0].rows() + rows_visited(steps.drop_first())
    }
}

/// The counts of a pass are never negative, and together they account for
/// every row.
pub proof fn lemma_plan_counts(len: usize, width: usize)
    ensures
        0 <= full_batches(len, width),
        0 <= remainder_rows(len, width),
        width > 0 ==> remainder_rows(len, width) == len as int % width as int,
        width > 0 ==> remainder_rows(len, width) < width,
        width == 0 ==> remainder_rows(len, width) == len,
        full_batches(len, width) * width <= len,
        width > len ==> full_batches(len, width) == 0,
        batch_plan(len, width).len() == full_batches(len, width) + remainder_rows(len, width),
        batch_plan(len, width).len() <= len,
{
    if width > 0 {
        assert(len as int / width as int <= (len as int / width as int) * width)
            by (nonlinear_arith)
            requires
                0 <= len as int / width as int,
                width >= 1,
        ;
        vstd::arithmetic::div_mod::lemma_fundamental_div_mod(len as int, width as int);
        vstd::arithmetic::div_mod::lemma_div_pos_is_pos(len as int, width as int);
        vstd::arithmetic::div_mod::lemma_mod_bound(len as int, width as int);
        assert(full_batches(len, width) * width == width * (len as int / width as int))
            by (nonlinear_arith);
        if width > len {
            vstd::arithmetic::div_mod::lemma_basic_div(len as int, width as int);
        }
    }
}

/// Where each step of a pass begins and ends.
pub proof fn lemma_step_bounds(len: usize, width: usize, k: int)
    requires
        0 <= k < batch_plan(len, width).len(),
    ensures
        0 <= step_start(len, width, k) < len,
        k < full_batches(len, width) ==> {
            &&& width > 0
            &&& step_start(len, width, k) + width <= len
            &&& step_start(len, width, k) % (width as int) == 0
            &&& step_start(len, width, k + 1) == step_start(len, width, k) + width
        },
        k >= full_batches(len, width) ==> {
            &&& step_start(len, width, k) >= full_batches(len, width) * width
            &&& step_start(len, width, k + 1) == step_start(len, width, k) + 1
        },
{
    lemma_plan_counts(len, width);
    let full = full_batches(len, width);
    if k < full {
        assert(k * width + width <= full * width) by (nonlinear_arith)
            requires
                k + 1 <= full,
                width >= 0,
        ;
        assert(0 <= k * width) by (nonlinear_arith)
            requires
                0 <= k,
                width >= 0,
        ;
        assert((k + 1) * width == k * width + width) by (nonlinear_arith);
        vstd::arithmetic::div_mod::lemma_mod_multiples_basic(k, width as int);
    } else {
        assert(0 <= full * width) by (nonlinear_arith)
            requires
                0 <= full,
                width >= 0,
        ;
    }
}

/// A pass visits every row of the range exactly once, in ascending order:
/// the rows of its steps, laid end to end, are `0, 1, .., len - 1`.
pub proof fn lemma_plan_covers(len: usize, width: usize)
    ensures
        rows_visited(batch_plan(len, width)) =~= Seq::new(len as nat, |r: int| r),
{
    lemma_plan_counts(len, width);
    lemma_suffix_covers(len, width, 0);
    assert(batch_plan(len, width).skip(0) =~= batch_plan(len, width));
}

/// What is left of a pass from step `k` on visits the rows from that step's
/// first row to the end of the range.
pub proof fn lemma_suffix_covers(len: usize, width: usize, k: int)
    requires
        0 <= k <= batch_plan(len, width).len(),
    ensures
        rows_visited(batch_plan(len, width).skip(k)) =~= Seq::new(
            (len - step_start(len, width, k)) as nat,
            |r: int| step_start(len, width, k) + r,
        ),
        0 <= step_start(len, width, k) <= len,
    decreases batch_plan(len, width).len() - k,
{
    lemma_plan_counts(len, width);
    let plan = batch_plan(len, width);
    let rest = plan.skip(k);
    if k == plan.len() {
        let full = full_batches(len, width);
        if k <= full {
            assert(remainder_rows(len, width) == 0);
        }
        assert(step_start(len, width, k) == len);
    } else {
        lemma_step_bounds(len, width, k);
        lemma_suffix_covers(len, width, k + 1);
        assert(rest.drop_first() =~= plan.skip(k + 1));
        assert(rest[0] == batch_at(len, width, k));
    }
}

/// A lazy, finite walk over a range of rows in batches of a fixed width.
/// It cannot be rewound.
pub struct BatchIter {
    len: usize,
    width: usize,
    full: usize,
    yielded: usize,
    cursor: usize,
}

impl BatchIter {
    /// The length of the range.
    pub closed spec fn len(&self) -> usize {
        self.len
    }

    /// The batch width.
    pub closed spec fn width(&self) -> usize {
        self.width
    }

    /// How many steps have been handed out.
    pub closed spec fn yielded(&self) -> int {
        self.yielded as int
    }

    /// The first row that has not been handed out yet.
    pub closed spec fn cursor(&self) -> int {
        self.cursor as int
    }

    pub closed spec fn wf(&self) -> bool {
        &&& self.full == full_batches(self.len, self.width)
        &&& self.yielded <= batch_plan(self.len, self.width).len()
        &&& self.cursor == step_start(self.len, self.width, self.yielded as int)
    }

    /// The steps still to come.
    pub open spec fn remaining(&self) -> Seq<Batch> {
        batch_plan(self.len(), self.width()).skip(self.yielded())
    }

    /// A walk that has handed out `k` steps stands at the first row of step `k`.
    pub proof fn lemma_position(&self)
        requires
            self.wf(),
        ensures
            0 <= self.yielded() <= batch_plan(self.len(), self.width()).len(),
            self.cursor() == step_start(self.len(), self.width(), self.yielded()),
            0 <= self.cursor() <= self.len(),
            self.cursor() == self.len() <==> self.remaining().len() == 0,
    {
        lemma_suffix_covers(self.len, self.width, self.yielded as int);
        lemma_plan_counts(self.len, self.width);
        if self.yielded < batch_plan(self.len, self.width).len() {
            lemma_step_bounds(self.len, self.width, self.yielded as int);
        }
    }

    /// Starts a pass over `len` rows in batches of `width`.
    pub fn new(len: usize, width: usize) -> (it: Self)
        ensures
            it.wf(),
            it.len() == len,
            it.width() == width,
            it.yielded() == 0,
            it.cursor() == 0,
            it.remaining() == batch_plan(len, width),
    {
        let full: usize = if width == 0 {
            0
        } else {
            len / width
        };
        proof {
            lemma_plan_counts(len, width);
            assert(batch_plan(len, width).skip(0) =~= batch_plan(len, width));
        }
        BatchIter { len, width, full, yielded: 0, cursor: 0 }
    }

    /// Hands out the next step of the pass, or `None` once every row has been
    /// covered.
    pub fn next(&mut self) -> (b: Option<Batch>)
        requires
            old(self).wf(),
        ensures
            final(self).wf(),
            final(self).len() == old(self).len(),
            final(self).width() == old(self).width(),
            old(self).remaining().len() == 0 ==> b is None && *final(self) == *old(self),
            old(self).remaining().len() > 0 ==> {
                &&& b == Some(old(self).remaining()[0])
                &&& final(self).remaining() == old(self).remaining().drop_first()
                &&& final(self).yielded() == old(self).yielded() + 1
            },
            match b {
                Some(Batch::Full { start, width }) => {
                    &&& start == old(self).cursor()
                    &&& width == old(self).width()
                    &&& width > 0
                    &&& start as int % width as int == 0
                    &&& start + width <= old(self).len()
                    &&& final(self).cursor() == start + width
                },
                Some(Batch::Single { row }) => {
                    &&& row == old(self).cursor()
                    &&& row < old(self).len()
                    &&& row >= full_batches(old(self).len(), old(self).width()) * old(self).width()
                    &&& final(self).cursor() == row + 1
                },
                None => old(self).cursor() == old(self).len(),
            },
    {
        proof {
            self.lemma_position();
            lemma_plan_counts(self.len, self.width);
            if self.yielded < batch_plan(self.len, self.width).len() {
                lemma_step_bounds(self.len, self.width, self.yielded as int);
                assert(self.remaining().drop_first() =~= batch_plan(self.len, self.width).skip(
                    self.yielded + 1,
                ));
            }
        }
        if self.yielded < self.full {
            let start: usize = self.cursor;
            self.cursor = self.cursor + self.width;
            self.yielded = self.yielded + 1;
            Some(Batch::Full { start, width: self.width })
        } else if self.cursor < self.len {
            let row: usize = self.cursor;
            self.cursor = self.cursor + 1;
            self.yielded = self.yielded + 1;
            Some(Batch::Single { row })
        } else {
            None
        }
    }

    /// Runs what is left of the pass and returns its steps in order.
    pub fn collect(&mut self) -> (steps: Vec<Batch>)
        requires
            old(self).wf(),
        ensures
            final(self).wf(),
            final(self).len() == old(self).len(),
            final(self).width() == old(self).width(),
            steps@ == old(self).remaining(),
            final(self).remaining().len() == 0,
    {
        let mut steps: Vec<Batch> = Vec::new();
        loop
            invariant
                self.wf(),
                self.len() == old(self).len(),
                self.width() == old(self).width(),
                old(self).yielded() <= self.yielded(),
                steps@ =~= old(self).remaining().take(self.yielded() - old(self).yielded()),
                self.remaining() =~= old(self).remaining().skip(
                    self.yielded() - old(self).yielded(),
                ),
            ensures
                self.remaining().len() == 0,
            decreases self.remaining().len(),
        {
            proof {
                self.lemma_position();
            }
            match self.next() {
                Some(b) => {
                    steps.push(b);
                },
                None => {
                    break ;
                },
            }
        }
        proof {
            self.lemma_position();
            old(self).lemma_position();
        }
        steps
    }
}

/// The steps of a whole pass over `len` rows in batches of `width`.
pub fn batches(len: usize, width: usize) -> (steps: Vec<Batch>)
    ensures
        steps@ == batch_plan(len, width),
        rows_visited(steps@) =~= Seq::new(len as nat, |r: int| r),
{
    let mut it = BatchIter::new(len, width);
    proof {
        lemma_plan_covers(len, width);
    }
    it.collect()
}

} // verus!
