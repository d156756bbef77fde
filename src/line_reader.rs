//! A line-buffering reader bound to one channel: it accumulates the bytes
//! that the channel delivered and hands them out one line at a time.
use vstd::prelude::*;

verus! {

/// The byte that ends a line.
pub const LF: u8 = 10;

/// No byte of `s` ends a line.
pub open spec fn no_line_end(s: Seq<u8>) -> bool {
    forall|i: int| 0 <= i < s.len() ==> s[i] != LF
}

/// `line` is a complete line: it ends with the line end and holds no other.
pub open spec fn is_complete_line(line: Seq<u8>) -> bool {
    &&& line.len() > 0
    &&& line.last() == LF
    &&& no_line_end(line.drop_last())
}

/// Bytes read from a channel and not yet handed out.
pub struct LineReader {
    buf: Vec<u8>,
}

impl View for LineReader {
    type V = Seq<u8>;

    closed spec fn view(&self) -> Seq<u8> {
        self.buf@
    }
}

impl LineReader {
    /// A reader holding nothing.
    pub fn new() -> (r: Self)
        ensures
            r@ == Seq::<u8>::empty(),
    {
        LineReader { buf: Vec::new() }
    }

    /// Appends the bytes that one read of the channel delivered.
    pub fn fill(&mut self, bytes: &Vec<u8>)
        ensures
            final(self)@ == old(self)@ + bytes@,
    {
        let mut i: usize = 0;
        while i < bytes.len()
            invariant
                0 <= i <= bytes@.len(),
                self@ == old(self)@ + bytes@.subrange(0, i as int),
            decreases bytes@.len() - i,
        {
            self.buf.push(bytes[i]);
            i = i + 1;
            assert(self@ =~= old(self)@ + bytes@.subrange(0, i as int));
        }
        assert(bytes@.subrange(0, i as int) =~= bytes@);
    }

    /// Hands out the first complete line, terminator included, if one is buffered.
    pub fn take_line(&mut self) -> (r: Option<Vec<u8>>)
        ensures
            r is None ==> no_line_end(old(self)@) && final(self)@ == old(self)@,
            r is Some ==> is_complete_line(r->0@) && old(self)@ == r->0@ + final(self)@,
    {
        let mut k: usize = 0;
        while k < self.buf.len()
            invariant
                0 <= k <= self@.len(),
                self@ == old(self)@,
                no_line_end(self@.subrange(0, k as int)),
            decreases self@.len() - k,
        {
            if self.buf[k] == LF {
                let mut rest = self.buf.split_off(k + 1);
                std::mem::swap(&mut self.buf, &mut rest);
                assert(rest@.drop_last() =~= old(self)@.subrange(0, k as int));
                assert(old(self)@ =~= rest@ + self@);
                return Some(rest);
            }
            k = k + 1;
            assert(self@.subrange(0, k as int) =~= self@.subrange(0, k - 1).push(self@[k - 1]));
        }
        assert(self@.subrange(0, k as int) =~= self@);
        None
    }

    /// Hands out everything buffered, complete line or not.
    pub fn take_rest(&mut self) -> (r: Vec<u8>)
        ensures
            r@ == old(self)@,
            final(self)@ == Seq::<u8>::empty(),
    {
        let mut rest = Vec::new();
        std::mem::swap(&mut self.buf, &mut rest);
        rest
    }

    /// Drops everything buffered.
    pub fn clear(&mut self)
        ensures
            final(self)@ == Seq::<u8>::empty(),
    {
        self.buf.clear();
    }

    /// The number of bytes buffered.
    pub fn len(&self) -> (r: usize)
        ensures
            r == self@.len(),
    {
        self.buf.len()
    }
}

} // verus!
