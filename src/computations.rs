use vstd::prelude::*;
use crate::generator::{GenState, Generator};

verus! {

/// Yields each input doubled and never completes.
pub struct Doubler;

impl View for Doubler {
    type V = ();

    open spec fn view(&self) -> () {
        ()
    }
}

impl Generator<i32> for Doubler {
    type Yield = i64;
    type Return = ();

    open spec fn transition(state: (), arg: i32) -> ((), GenState<i64, ()>) {
        ((), GenState::Yielded((2 * arg) as i64))
    }

    fn resume(&mut self, arg: i32) -> (r: GenState<i64, ()>) {
        GenState::Yielded(2 * (arg as i64))
    }
}

/// Completes with its value on the first resume, whatever the argument.
pub struct Returns<T> {
    value: T,
}

impl<T: View> View for Returns<T> {
    type V = T::V;

    closed spec fn view(&self) -> T::V {
        self.value@
    }
}

impl<T: View + Copy> Returns<T> {
    /// A computation whose final value is `value`.
    pub fn new(value: T) -> (r: Returns<T>)
        ensures
            r@ == value@,
    {
        Returns { value }
    }
}

impl<R, T: View + Copy> Generator<R> for Returns<T> {
    type Yield = ();
    type Return = T;

    open spec fn transition(state: T::V, arg: R) -> (T::V, GenState<(), T::V>) {
        (state, GenState::Complete(state))
    }

    fn resume(&mut self, arg: R) -> (r: GenState<(), T>) {
        GenState::Complete(self.value)
    }
}

/// Yields the integers from its start up to, not including, its end, one per resume,
/// whatever the argument; then completes.
pub struct Counter {
    next: i32,
    end: i32,
}

impl View for Counter {
    /// The next integer to yield, and the end.
    type V = (i32, i32);

    closed spec fn view(&self) -> (i32, i32) {
        (self.next, self.end)
    }
}

impl Counter {
    /// A counter over `start..end`.
    pub fn new(start: i32, end: i32) -> (r: Counter)
        ensures
            r@ == (start, end),
    {
        Counter { next: start, end }
    }
}

impl<R> Generator<R> for Counter {
    type Yield = i32;
    type Return = ();

    open spec fn transition(state: (i32, i32), arg: R) -> ((i32, i32), GenState<i32, ()>) {
        let (next, end) = state;
        if next < end {
            (((next + 1) as i32, end), GenState::Yielded(next))
        } else {
            (state, GenState::Complete(()))
        }
    }

    fn resume(&mut self, arg: R) -> (r: GenState<i32, ()>) {
        if self.next < self.end {
            let n = self.next;
            self.next = self.next + 1;
            GenState::Yielded(n)
        } else {
            GenState::Complete(())
        }
    }
}

} // verus!
