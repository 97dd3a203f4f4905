use vstd::prelude::*;
use crate::generator::{GenState, Generator};

verus! {

/// What a `LineReader` reports after each character.
#[derive(Debug, PartialEq, Eq)]
pub enum Line {
    /// The line so far is not finished.
    Pending,
    /// A finished line, without its terminator.
    Ready(Vec<char>),
}

impl View for Line {
    type V = Option<Seq<char>>;

    open spec fn view(&self) -> Option<Seq<char>> {
        match self {
            Line::Pending => None,
            Line::Ready(text) => Some(text@),
        }
    }
}

/// Gathers characters into lines.
///
/// A newline ends the line so far; a NUL character ends the last line. After that
/// last line the reader completes on its next resume, whatever the character.
pub struct LineReader {
    buf: Vec<char>,
    flushed: bool,
}

impl View for LineReader {
    /// The characters of the unfinished line, and whether the last line was handed out.
    type V = (Seq<char>, bool);

    closed spec fn view(&self) -> (Seq<char>, bool) {
        (self.buf@, self.flushed)
    }
}

impl LineReader {
    /// A reader at the start of its first line.
    pub fn new() -> (r: LineReader)
        ensures
            r@ == (Seq::<char>::empty(), false),
    {
        LineReader { buf: Vec::new(), flushed: false }
    }

    fn copy_buf(&self) -> (r: Vec<char>)
        ensures
            r@ == self.buf@,
    {
        let mut r: Vec<char> = Vec::new();
        let mut i: usize = 0;
        while i < self.buf.len()
            invariant
                i <= self.buf@.len(),
                r@ == self.buf@.take(i as int),
            decreases self.buf@.len() - i,
        {
            r.push(self.buf[i]);
            i = i + 1;
            assert(r@ =~= self.buf@.take(i as int));
        }
        assert(self.buf@.take(i as int) =~= self.buf@);
        r
    }
}

impl Generator<char> for LineReader {
    type Yield = Line;
    type Return = ();

    open spec fn transition(state: (Seq<char>, bool), arg: char) -> ((Seq<char>, bool), GenState<
        Option<Seq<char>>,
        (),
    >) {
        let (buf, flushed) = state;
        if flushed {
            (state, GenState::Complete(()))
        } else if arg == '\0' {
            ((buf, true), GenState::Yielded(Some(buf)))
        } else if arg == '\n' {
            ((Seq::empty(), false), GenState::Yielded(Some(buf)))
        } else {
            ((buf.push(arg), false), GenState::Yielded(None))
        }
    }

    fn resume(&mut self, arg: char) -> (r: GenState<Line, ()>) {
        if self.flushed {
            GenState::Complete(())
        } else if arg == '\0' {
            self.flushed = true;
            GenState::Yielded(Line::Ready(self.copy_buf()))
        } else if arg == '\n' {
            let line = self.copy_buf();
            self.buf = Vec::new();
            GenState::Yielded(Line::Ready(line))
        } else {
            self.buf.push(arg);
            GenState::Yielded(Line::Pending)
        }
    }
}

} // verus!
