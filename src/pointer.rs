//! The read cursor: a pending span of the input, with a stack of saved
//! positions for backtracking.

use vstd::prelude::*;

verus! {

/// A saved cursor position: `(line_pos, read_pos)`.
pub type Mark = ((u32, u32, u32, u32), (u32, u32));

/// The line and column reached after consuming character `i` of `raw`, from
/// `(line, col)`. Every character moves the column on; `\n`, and a `\r` not
/// followed by `\n`, then start a new line.
pub open spec fn step_line(line: int, col: int, raw: Seq<char>, i: int) -> (int, int) {
    let c = raw[i];
    if c == '\n' || (c == '\r' && !(i + 1 < raw.len() && raw[i + 1] == '\n')) {
        (line + 1, 0)
    } else {
        (line, col + 1)
    }
}

/// The line and column reached after consuming the first `n` characters of `raw`.
pub open spec fn advance_line(line: int, col: int, raw: Seq<char>, n: nat) -> (int, int)
    decreases n,
{
    if n == 0 {
        (line, col)
    } else {
        let lc = advance_line(line, col, raw, (n - 1) as nat);
        step_line(lc.0, lc.1, raw, n - 1)
    }
}

/// Consuming `n` characters adds at most `n` lines and at most `n` columns.
pub proof fn lemma_advance_bounds(line: int, col: int, raw: Seq<char>, n: nat)
    ensures
        line <= advance_line(line, col, raw, n).0 <= line + n,
        0 <= col ==> 0 <= advance_line(line, col, raw, n).1 <= col + n,
    decreases n,
{
    if n > 0 {
        lemma_advance_bounds(line, col, raw, (n - 1) as nat);
    }
}

/// A read-only pointer to a start and end position in a reader's content.
#[derive(PartialEq, Eq, Debug)]
pub struct ReadPointer {
    /// saved positions, most recent last
    pub stack: Vec<Mark>,
    /// Format (start: line, col, end: line, col)
    pub line_pos: (u32, u32, u32, u32),
    /// Format (start, end)
    pub read_pos: (u32, u32),
}

impl ReadPointer {
    /// The current position, as it would be saved by `push`.
    pub open spec fn mark(&self) -> Mark {
        (self.line_pos, self.read_pos)
    }

    /// The saved positions, most recent last.
    pub open spec fn saved(&self) -> Seq<Mark> {
        self.stack@
    }

    /// The pending span does not run backwards.
    pub open spec fn wf(&self) -> bool {
        self.read_pos.0 <= self.read_pos.1
    }

    /// A pointer at the very start, with nothing saved.
    pub fn new() -> (r: ReadPointer)
        ensures
            r.line_pos == (0u32, 0u32, 0u32, 0u32),
            r.read_pos == (0u32, 0u32),
            r.saved() == Seq::<Mark>::empty(),
    {
        ReadPointer::from_pos((0, 0, 0, 0), (0, 0))
    }

    /// A pointer over the given span, with nothing saved.
    pub fn from_pos(line_pos: (u32, u32, u32, u32), read_pos: (u32, u32)) -> (r: ReadPointer)
        ensures
            r.line_pos == line_pos,
            r.read_pos == read_pos,
            r.saved() == Seq::<Mark>::empty(),
    {
        ReadPointer { line_pos, read_pos, stack: Vec::new() }
    }

    /// A pointer that spans from the start of `from` to the end of `to`,
    /// keeping the saved positions of `from`.
    pub fn from_to(from: &ReadPointer, to: &ReadPointer) -> (r: ReadPointer)
        ensures
            r.line_pos == (from.line_pos.0, from.line_pos.1, to.line_pos.2, to.line_pos.3),
            r.read_pos == (from.read_pos.0, to.read_pos.1),
            r.saved() == from.saved(),
    {
        let mut stack: Vec<Mark> = Vec::new();
        let mut i: usize = 0;
        while i < from.stack.len()
            invariant
                i <= from.stack@.len(),
                stack@ == from.stack@.subrange(0, i as int),
            decreases from.stack@.len() - i,
        {
            stack.push(from.stack[i]);
            i = i + 1;
            assert(stack@ =~= from.stack@.subrange(0, i as int));
        }
        assert(stack@ =~= from.stack@);
        ReadPointer {
            line_pos: (from.line_pos.0, from.line_pos.1, to.line_pos.2, to.line_pos.3),
            read_pos: (from.read_pos.0, to.read_pos.1),
            stack,
        }
    }

    /// Move the end of the pointer over `raw`, one character at a time.
    pub fn move_pointer(ptr: &mut ReadPointer, raw: &str)
        requires
            old(ptr).read_pos.1 + raw@.len() <= u32::MAX,
            old(ptr).line_pos.2 + raw@.len() <= u32::MAX,
            old(ptr).line_pos.3 + raw@.len() <= u32::MAX,
        ensures
            final(ptr).read_pos == (old(ptr).read_pos.0, (old(ptr).read_pos.1 + raw@.len()) as u32),
            final(ptr).line_pos.0 == old(ptr).line_pos.0,
            final(ptr).line_pos.1 == old(ptr).line_pos.1,
            (final(ptr).line_pos.2 as int, final(ptr).line_pos.3 as int) == advance_line(
                old(ptr).line_pos.2 as int,
                old(ptr).line_pos.3 as int,
                raw@,
                raw@.len(),
            ),
            final(ptr).saved() == old(ptr).saved(),
    {
        let chars = crate::text::chars_of(raw);
        ptr.move_over(&chars);
    }

    /// Move the end of the pointer over the characters `raw`.
    pub fn move_over(&mut self, raw: &Vec<char>)
        requires
            old(self).read_pos.1 + raw@.len() <= u32::MAX,
            old(self).line_pos.2 + raw@.len() <= u32::MAX,
            old(self).line_pos.3 + raw@.len() <= u32::MAX,
        ensures
            final(self).read_pos == (old(self).read_pos.0, (old(self).read_pos.1 + raw@.len()) as u32),
            final(self).line_pos.0 == old(self).line_pos.0,
            final(self).line_pos.1 == old(self).line_pos.1,
            (final(self).line_pos.2 as int, final(self).line_pos.3 as int) == advance_line(
                old(self).line_pos.2 as int,
                old(self).line_pos.3 as int,
                raw@,
                raw@.len(),
            ),
            final(self).saved() == old(self).saved(),
    {
        let ghost start = *self;
        let mut i: usize = 0;
        while i < raw.len()
            invariant
                i <= raw@.len(),
                self.read_pos == (start.read_pos.0, (start.read_pos.1 + i) as u32),
                self.line_pos.0 == start.line_pos.0,
                self.line_pos.1 == start.line_pos.1,
                (self.line_pos.2 as int, self.line_pos.3 as int) == advance_line(
                    start.line_pos.2 as int,
                    start.line_pos.3 as int,
                    raw@,
                    i as nat,
                ),
                self.saved() == start.saved(),
                start.read_pos.1 + raw@.len() <= u32::MAX,
                start.line_pos.2 + raw@.len() <= u32::MAX,
                start.line_pos.3 + raw@.len() <= u32::MAX,
            decreases raw@.len() - i,
        {
            proof {
                lemma_advance_bounds(start.line_pos.2 as int, start.line_pos.3 as int, raw@, i as nat);
            }
            let c = raw[i];
            self.increment();
            if c == '\n' {
                self.increment_line();
            } else if c == '\r' {
                if !(i + 1 < raw.len() && raw[i + 1] == '\n') {
                    self.increment_line();
                }
            }
            i = i + 1;
        }
    }

    /// Move the end column and the end of the read span on by one.
    pub fn increment(&mut self)
        requires
            old(self).line_pos.3 < u32::MAX,
            old(self).read_pos.1 < u32::MAX,
        ensures
            final(self).line_pos == (old(self).line_pos.0, old(self).line_pos.1, old(self).line_pos.2, (old(self).line_pos.3 + 1) as u32),
            final(self).read_pos == (old(self).read_pos.0, (old(self).read_pos.1 + 1) as u32),
            final(self).saved() == old(self).saved(),
    {
        self.line_pos.3 = self.line_pos.3 + 1;
        self.read_pos.1 = self.read_pos.1 + 1;
    }

    /// Move the end to the first column of the next line.
    pub fn increment_line(&mut self)
        requires
            old(self).line_pos.2 < u32::MAX,
        ensures
            final(self).line_pos == (old(self).line_pos.0, old(self).line_pos.1, (old(self).line_pos.2 + 1) as u32, 0u32),
            final(self).read_pos == old(self).read_pos,
            final(self).saved() == old(self).saved(),
    {
        self.line_pos.2 = self.line_pos.2 + 1;
        self.line_pos.3 = 0;
    }

    /// Move the start position up to the end position.
    pub fn commit(&mut self)
        ensures
            final(self).line_pos == (old(self).line_pos.2, old(self).line_pos.3, old(self).line_pos.2, old(self).line_pos.3),
            final(self).read_pos == (old(self).read_pos.1, old(self).read_pos.1),
            final(self).saved() == old(self).saved(),
    {
        self.read_pos.0 = self.read_pos.1;
        self.line_pos.0 = self.line_pos.2;
        self.line_pos.1 = self.line_pos.3;
    }

    /// Move the end position back to the start position.
    pub fn back(&mut self)
        ensures
            final(self).line_pos == (old(self).line_pos.0, old(self).line_pos.1, old(self).line_pos.0, old(self).line_pos.1),
            final(self).read_pos == (old(self).read_pos.0, old(self).read_pos.0),
            final(self).saved() == old(self).saved(),
    {
        self.read_pos.1 = self.read_pos.0;
        self.line_pos.2 = self.line_pos.0;
        self.line_pos.3 = self.line_pos.1;
    }

    /// Save the current position.
    pub fn push(&mut self)
        ensures
            final(self).mark() == old(self).mark(),
            final(self).saved() == old(self).saved().push(old(self).mark()),
    {
        let m: Mark = (self.line_pos, self.read_pos);
        self.stack.push(m);
    }

    /// Return to the most recently saved position and forget it; with nothing
    /// saved, the pointer stays as it is.
    pub fn pop(&mut self)
        ensures
            old(self).saved().len() == 0 ==> final(self).mark() == old(self).mark(),
            old(self).saved().len() == 0 ==> final(self).saved() == old(self).saved(),
            old(self).saved().len() > 0 ==> {
                &&& final(self).mark() == old(self).saved().last()
                &&& final(self).saved() == old(self).saved().drop_last()
            },
    {
        match self.stack.pop() {
            Some(m) => {
                self.line_pos = m.0;
                self.read_pos = m.1;
            },
            None => {},
        }
    }

    /// Forget the most recently saved position, keeping the current one.
    pub fn pull(&mut self)
        ensures
            final(self).mark() == old(self).mark(),
            old(self).saved().len() == 0 ==> final(self).saved() == old(self).saved(),
            old(self).saved().len() > 0 ==> final(self).saved() == old(self).saved().drop_last(),
    {
        let _ = self.stack.pop();
    }

    /// The length of the pending span.
    pub fn len(&self) -> (r: usize)
        requires
            self.wf(),
        ensures
            r == self.read_pos.1 - self.read_pos.0,
    {
        (self.read_pos.1 - self.read_pos.0) as usize
    }
}

impl Clone for ReadPointer {
    /// A copy with the same span, line and column, and saved positions.
    fn clone(&self) -> (r: ReadPointer)
        ensures
            r.mark() == self.mark(),
            r.saved() == self.saved(),
    {
        ReadPointer::from_to(self, self)
    }
}

/// Saving a position and then returning to it gives back the pointer exactly:
/// its span, its line and column, and what it had saved before.
pub proof fn lemma_push_pop_restores(p: ReadPointer, pushed: ReadPointer, q: ReadPointer, popped: ReadPointer)
    requires
        pushed.mark() == p.mark(),
        pushed.saved() == p.saved().push(p.mark()),
        q.saved() == pushed.saved(),
        popped.mark() == q.saved().last(),
        popped.saved() == q.saved().drop_last(),
    ensures
        popped.mark() == p.mark(),
        popped.saved() == p.saved(),
{
    assert(p.saved().push(p.mark()).drop_last() =~= p.saved());
}

} // verus!
