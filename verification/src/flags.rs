use vstd::prelude::*;

verus! {

/// Whether a write also records that the row changed.
#[derive(Clone, Copy, Debug, PartialEq, Eq)]
pub enum Mode {
    /// Every written row is marked as changed.
    Marked,
    /// Rows are written without touching their marks.
    Bypassed,
}

/// The marks after the rows from `from` up to `to` were written in `mode`:
/// in marking mode those rows are marked, the other marks stay.
pub open spec fn touched(marks: Seq<bool>, mode: Mode, from: int, to: int) -> Seq<bool> {
    Seq::new(marks.len(), |row: int| marks[row] || (mode is Marked && from <= row < to))
}

/// One change mark per row.
pub struct ChangeFlags {
    marks: Vec<bool>,
}

impl View for ChangeFlags {
    type V = Seq<bool>;

    closed spec fn view(&self) -> Seq<bool> {
        self.marks@
    }
}

impl ChangeFlags {
    /// `rows` marks, none of them set.
    pub fn new(rows: usize) -> (flags: Self)
        ensures
            flags@ == Seq::new(rows as nat, |row: int| false),
    {
        let mut marks: Vec<bool> = Vec::new();
        let mut row: usize = 0;
        while row < rows
            invariant
                row <= rows,
                marks@ =~= Seq::new(row as nat, |r: int| false),
            decreases rows - row,
        {
            marks.push(false);
            row = row + 1;
        }
        ChangeFlags { marks }
    }

    pub fn len(&self) -> (n: usize)
        ensures
            n == self@.len(),
    {
        self.marks.len()
    }

    pub fn is_set(&self, row: usize) -> (set: bool)
        requires
            row < self@.len(),
        ensures
            set == self@[row as int],
    {
        self.marks[row]
    }

    /// Clears every mark.
    pub fn clear(&mut self)
        ensures
            final(self)@ == Seq::new(old(self)@.len(), |row: int| false),
    {
        let rows: usize = self.marks.len();
        let mut row: usize = 0;
        while row < rows
            invariant
                row <= rows,
                self.marks@.len() == rows,
                forall|r: int| 0 <= r < row ==> !self.marks@[r],
            decreases rows - row,
        {
            self.marks[row] = false;
            row = row + 1;
        }
        assert(self@ =~= Seq::new(old(self)@.len(), |row: int| false));
    }

    /// Records a write to the `count` rows from `start` on, unless `mode`
    /// bypasses the marks.
    pub fn touch(&mut self, mode: Mode, start: usize, count: usize)
        requires
            start + count <= old(self)@.len(),
        ensures
            final(self)@ == touched(old(self)@, mode, start as int, start + count),
    {
        match mode {
            Mode::Marked => {
                let rows: usize = self.marks.len();
                let mut k: usize = 0;
                while k < count
                    invariant
                        k <= count,
                        start + count <= rows,
                        self.marks@.len() == rows,
                        self.marks@.len() == old(self)@.len(),
                        forall|row: int|
                            0 <= row < old(self)@.len() ==> self.marks@[row] == (old(self)@[row]
                                || start <= row < start + k),
                    decreases count - k,
                {
                    self.marks[start + k] = true;
                    k = k + 1;
                }
            },
            Mode::Bypassed => {},
        }
        assert(self@ =~= touched(old(self)@, mode, start as int, start + count));
    }
}

/// A pass that has written the rows below `mid` and then writes the rows
/// from `mid` up to `to` has written the rows below `to`.
pub proof fn lemma_touch_extends(marks: Seq<bool>, mode: Mode, mid: int, to: int)
    requires
        0 <= mid <= to,
    ensures
        touched(touched(marks, mode, 0, mid), mode, mid, to) == touched(marks, mode, 0, to),
        touched(marks, mode, 0, 0) == marks,
{
    assert(touched(touched(marks, mode, 0, mid), mode, mid, to) =~= touched(marks, mode, 0, to));
    assert(touched(marks, mode, 0, 0) =~= marks);
}

/// Writing every row once more changes no mark.
pub proof fn lemma_touched_again(marks: Seq<bool>, mode: Mode)
    ensures
        touched(touched(marks, mode, 0, marks.len() as int), mode, 0, marks.len() as int)
            == touched(marks, mode, 0, marks.len() as int),
{
    assert(touched(touched(marks, mode, 0, marks.len() as int), mode, 0, marks.len() as int)
        =~= touched(marks, mode, 0, marks.len() as int));
}

} // verus!
