//! A reader over one line of text: the text, and a cursor into it.

use vstd::prelude::*;
use crate::pattern::{find_of, Pattern};
use crate::pointer::{advance_line, lemma_advance_bounds, Mark, ReadPointer};
use crate::text::{chars_of, string_of};

verus! {

/// The mark fits text of `n` characters: the span lies in the text, and the
/// end line and column are no larger than the end offset.
pub open spec fn mark_fits(m: Mark, n: nat) -> bool {
    &&& m.1.0 <= m.1.1 <= n
    &&& m.0.2 <= m.1.1
    &&& m.0.3 <= m.1.1
}

/// The pointer and every position it has saved fit text of `n` characters.
pub open spec fn pointer_fits(p: ReadPointer, n: nat) -> bool {
    &&& mark_fits(p.mark(), n)
    &&& forall|i: int| 0 <= i < p.saved().len() ==> mark_fits(#[trigger] p.saved()[i], n)
}

/// The mark reached by moving the end of `m` over `raw`, keeping its start.
pub open spec fn extend_mark(m: Mark, raw: Seq<char>) -> Mark {
    let lc = advance_line(m.0.2 as int, m.0.3 as int, raw, raw.len());
    ((m.0.0, m.0.1, lc.0 as u32, lc.1 as u32), (m.1.0, (m.1.1 + raw.len()) as u32))
}

/// The mark of a token `raw` read at the end of `m`: it starts where `m` ends.
pub open spec fn token_mark(m: Mark, raw: Seq<char>) -> Mark {
    let lc = advance_line(m.0.2 as int, m.0.3 as int, raw, raw.len());
    ((m.0.2, m.0.3, lc.0 as u32, lc.1 as u32), (m.1.1, (m.1.1 + raw.len()) as u32))
}

/// `m` is a prefix of `s`.
pub open spec fn is_prefix(m: Seq<char>, s: Seq<char>) -> bool {
    m.len() <= s.len() && s.subrange(0, m.len() as int) == m
}

/// What a pattern reads at the start of `rest`: its first find there, when
/// that find is a prefix of `rest`.
pub open spec fn lex_match(pattern: Seq<char>, rest: Seq<char>) -> Option<Seq<char>> {
    match find_of(pattern, rest) {
        Some(m) => if is_prefix(m, rest) { Some(m) } else { None },
        None => None,
    }
}

/// What a value must tell about itself to move a reader on.
pub trait SizeType {
    /// The number of characters this value stands for.
    spec fn spec_size(&self) -> nat;

    /// Get the reader size of a value.
    fn get_size(&self) -> (r: usize)
        ensures
            r == self.spec_size(),
    ;
}

impl SizeType for u32 {
    open spec fn spec_size(&self) -> nat {
        *self as nat
    }

    fn get_size(&self) -> (r: usize) {
        *self as usize
    }
}

/// Takes a line of text for reading, with a cursor into it.
pub struct LineReader {
    content: Vec<char>,
    pointer: ReadPointer,
}

impl LineReader {
    /// The text being read.
    pub closed spec fn text(&self) -> Seq<char> {
        self.content@
    }

    /// The cursor.
    pub closed spec fn cursor(&self) -> ReadPointer {
        self.pointer
    }

    /// The current end of the pending span, where the next read starts.
    pub open spec fn at(&self) -> int {
        self.cursor().read_pos.1 as int
    }

    /// The text not yet read past the end of the pending span.
    pub open spec fn rest(&self) -> Seq<char> {
        self.text().subrange(self.at(), self.text().len() as int)
    }

    pub open spec fn wf(&self) -> bool {
        &&& self.text().len() <= u32::MAX
        &&& pointer_fits(self.cursor(), self.text().len())
    }

    /// Make a new line reader, at the start of `line`.
    pub fn new(line: &str) -> (r: LineReader)
        requires
            line@.len() <= u32::MAX,
        ensures
            r.wf(),
            r.text() == line@,
            r.cursor().mark() == ((0u32, 0u32, 0u32, 0u32), (0u32, 0u32)),
            r.cursor().saved().len() == 0,
    {
        LineReader { content: chars_of(line), pointer: ReadPointer::new() }
    }

    /// The characters `from..to` of the text.
    fn slice(&self, from: usize, to: usize) -> (r: Vec<char>)
        requires
            from <= to <= self.text().len(),
        ensures
            r@ == self.text().subrange(from as int, to as int),
    {
        let mut out: Vec<char> = Vec::new();
        let mut i: usize = from;
        while i < to
            invariant
                from <= i <= to <= self.content@.len(),
                out@ == self.content@.subrange(from as int, i as int),
            decreases to - i,
        {
            out.push(self.content[i]);
            i = i + 1;
            assert(out@ =~= self.content@.subrange(from as int, i as int));
        }
        out
    }

    /// Read the character at the end of the pending span.
    pub fn read_char(&self) -> (r: Option<char>)
        requires
            self.wf(),
        ensures
            self.at() < self.text().len() ==> r == Some(self.text()[self.at()]),
            self.at() >= self.text().len() ==> r is None,
    {
        let i = self.pointer.read_pos.1 as usize;
        if i < self.content.len() {
            Some(self.content[i])
        } else {
            None
        }
    }

    /// Read the pending span.
    pub fn read_current(&self) -> (r: Option<String>)
        requires
            self.wf(),
        ensures
            r matches Some(s) && s@ == self.text().subrange(
                self.cursor().read_pos.0 as int,
                self.cursor().read_pos.1 as int,
            ),
    {
        self.read_pointer(&self.pointer)
    }

    /// Read the text that `ptr` spans; `None` where it does not lie in the text.
    pub fn read_pointer(&self, ptr: &ReadPointer) -> (r: Option<String>)
        ensures
            ptr.read_pos.0 <= ptr.read_pos.1 <= self.text().len() ==> (r matches Some(s) && s@
                == self.text().subrange(ptr.read_pos.0 as int, ptr.read_pos.1 as int)),
            !(ptr.read_pos.0 <= ptr.read_pos.1 <= self.text().len()) ==> r is None,
    {
        let i = ptr.read_pos.0 as usize;
        let j = ptr.read_pos.1 as usize;
        if i <= j && j <= self.content.len() {
            let cs = self.slice(i, j);
            Some(string_of(cs.as_slice()))
        } else {
            None
        }
    }

    /// The pointer of a token `raw` read at the end of `ptr`.
    pub fn get_token_pointer(raw: &Vec<char>, ptr: &ReadPointer) -> (r: ReadPointer)
        requires
            ptr.read_pos.1 + raw@.len() <= u32::MAX,
            ptr.line_pos.2 + raw@.len() <= u32::MAX,
            ptr.line_pos.3 + raw@.len() <= u32::MAX,
        ensures
            r.mark() == token_mark(ptr.mark(), raw@),
            r.saved() == ptr.saved(),
    {
        let mut p = ptr.clone();
        p.commit();
        p.move_over(raw);
        p
    }

    /// Read the next `size` characters after the pending span, with their
    /// pointer; `None` where the text is shorter.
    pub fn read_next(&self, size: usize) -> (r: Option<(String, ReadPointer)>)
        requires
            self.wf(),
        ensures
            self.at() + size <= self.text().len() ==> (r matches Some((s, p)) && {
                &&& s@ == self.text().subrange(self.at(), self.at() + size)
                &&& p.mark() == token_mark(self.cursor().mark(), s@)
                &&& p.saved() == self.cursor().saved()
            }),
            self.at() + size > self.text().len() ==> r is None,
    {
        let i = self.pointer.read_pos.1 as usize;
        if size <= self.content.len() - i {
            let cs = self.slice(i, i + size);
            let p = LineReader::get_token_pointer(&cs, &self.pointer);
            Some((string_of(cs.as_slice()), p))
        } else {
            None
        }
    }

    /// Take what a pattern search over the rest of the text found: accepted
    /// only where it is a prefix of that rest, and then read as a token.
    pub fn accept_match(&self, found: Option<Vec<char>>) -> (r: Option<(String, ReadPointer)>)
        requires
            self.wf(),
        ensures
            (found matches Some(m) && is_prefix(m@, self.rest())) ==> (r matches Some((s, p)) && {
                &&& s@ == found->0@
                &&& p.mark() == token_mark(self.cursor().mark(), s@)
                &&& p.saved() == self.cursor().saved()
            }),
            !(found matches Some(m) && is_prefix(m@, self.rest())) ==> r is None,
    {
        match found {
            None => None,
            Some(m) => {
                let i = self.pointer.read_pos.1 as usize;
                if m.len() > self.content.len() - i {
                    return None;
                }
                let mut k: usize = 0;
                while k < m.len()
                    invariant
                        self.wf(),
                        i == self.at(),
                        i + m@.len() <= self.content@.len(),
                        self.content@ == self.text(),
                        found == Some(m),
                        k <= m@.len(),
                        forall|j: int| 0 <= j < k ==> m@[j] == self.content@[i + j],
                    decreases m@.len() - k,
                {
                    if m[k] != self.content[i + k] {
                        assert(self.rest()[k as int] == self.content@[i + k]);
                        assert(self.rest().subrange(0, m@.len() as int)[k as int] != m@[k as int]);
                        return None;
                    }
                    k = k + 1;
                }
                assert(self.rest().subrange(0, m@.len() as int) =~= m@);
                let p = LineReader::get_token_pointer(&m, &self.pointer);
                Some((string_of(m.as_slice()), p))
            },
        }
    }

    /// Read the text that `regex` matches right after the pending span, with
    /// its pointer.
    pub fn read_regex(&self, regex: &Pattern) -> (r: Option<(String, ReadPointer)>)
        requires
            self.wf(),
        ensures
            lex_match(regex.source(), self.rest()) is None ==> r is None,
            lex_match(regex.source(), self.rest()) matches Some(v) ==> (r matches Some((s, p)) && {
                &&& s@ == v
                &&& p.mark() == token_mark(self.cursor().mark(), s@)
                &&& p.saved() == self.cursor().saved()
            }),
    {
        let i = self.pointer.read_pos.1 as usize;
        let rest = self.slice(i, self.content.len());
        assert(rest@ =~= self.rest());
        let found = regex.find(&rest);
        self.accept_match(found)
    }

    /// The cursor.
    pub fn get_pointer(&self) -> (r: &ReadPointer)
        ensures
            *r == self.cursor(),
    {
        &self.pointer
    }

    /// Move the end of the pending span on by the size of `size`.
    pub fn next<T: SizeType>(&mut self, size: &T) -> (r: Result<(), String>)
        requires
            old(self).wf(),
        ensures
            final(self).wf(),
            final(self).text() == old(self).text(),
            final(self).cursor().saved() == old(self).cursor().saved(),
            old(self).at() + size.spec_size() <= old(self).text().len() ==> {
                &&& r is Ok
                &&& final(self).cursor().mark() == extend_mark(
                    old(self).cursor().mark(),
                    old(self).rest().subrange(0, size.spec_size() as int),
                )
            },
            old(self).at() + size.spec_size() > old(self).text().len() ==> {
                &&& r is Err
                &&& final(self).cursor().mark() == old(self).cursor().mark()
            },
    {
        let count = size.get_size();
        let i = self.pointer.read_pos.1 as usize;
        if count > self.content.len() - i {
            return Err("Couldn't read next".to_owned());
        }
        let cs = self.slice(i, i + count);
        proof {
            assert(cs@ =~= self.rest().subrange(0, count as int));
            lemma_advance_bounds(self.pointer.line_pos.2 as int, self.pointer.line_pos.3 as int, cs@, cs@.len());
        }
        let ptr = LineReader::get_token_pointer(&cs, &self.pointer);
        self.pointer = ReadPointer::from_to(&self.pointer, &ptr);
        Ok(())
    }

    /// Move the start of the pending span up to its end.
    pub fn commit(&mut self)
        requires
            old(self).wf(),
        ensures
            final(self).wf(),
            final(self).text() == old(self).text(),
            final(self).cursor().line_pos == (old(self).cursor().line_pos.2, old(self).cursor().line_pos.3, old(self).cursor().line_pos.2, old(self).cursor().line_pos.3),
            final(self).cursor().read_pos == (old(self).cursor().read_pos.1, old(self).cursor().read_pos.1),
            final(self).cursor().saved() == old(self).cursor().saved(),
    {
        self.pointer.commit();
    }

    /// Move the end of the pending span back to its start.
    pub fn back(&mut self)
        requires
            old(self).wf(),
        ensures
            final(self).text() == old(self).text(),
            final(self).cursor().line_pos == (old(self).cursor().line_pos.0, old(self).cursor().line_pos.1, old(self).cursor().line_pos.0, old(self).cursor().line_pos.1),
            final(self).cursor().read_pos == (old(self).cursor().read_pos.0, old(self).cursor().read_pos.0),
            final(self).cursor().saved() == old(self).cursor().saved(),
    {
        self.pointer.back();
    }

    /// Save the cursor's position.
    pub fn push(&mut self)
        requires
            old(self).wf(),
        ensures
            final(self).wf(),
            final(self).text() == old(self).text(),
            final(self).cursor().mark() == old(self).cursor().mark(),
            final(self).cursor().saved() == old(self).cursor().saved().push(old(self).cursor().mark()),
    {
        self.pointer.push();
    }

    /// Return to the most recently saved position and forget it.
    pub fn pop(&mut self)
        requires
            old(self).wf(),
        ensures
            final(self).wf(),
            final(self).text() == old(self).text(),
            old(self).cursor().saved().len() == 0 ==> final(self).cursor().mark() == old(self).cursor().mark()
                && final(self).cursor().saved() == old(self).cursor().saved(),
            old(self).cursor().saved().len() > 0 ==> final(self).cursor().mark() == old(self).cursor().saved().last()
                && final(self).cursor().saved() == old(self).cursor().saved().drop_last(),
    {
        self.pointer.pop();
    }

    /// Forget the most recently saved position, keeping the current one.
    pub fn pull(&mut self)
        requires
            old(self).wf(),
        ensures
            final(self).wf(),
            final(self).text() == old(self).text(),
            final(self).cursor().mark() == old(self).cursor().mark(),
            old(self).cursor().saved().len() == 0 ==> final(self).cursor().saved() == old(self).cursor().saved(),
            old(self).cursor().saved().len() > 0 ==> final(self).cursor().saved() == old(self).cursor().saved().drop_last(),
    {
        self.pointer.pull();
    }
}

} // verus!
