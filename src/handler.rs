use vstd::prelude::*;

verus! {

/// What is done with a computation's final value.
///
/// The handler's abstract state is its view; `finished` gives the state after it has
/// handled a value (on the value's view).
pub trait Finish<T: View>: View + Sized {
    spec fn finished(state: Self::V, value: T::V) -> Self::V;

    fn finish(&mut self, value: T)
        ensures
            final(self)@ == Self::finished(old(self)@, value@),
    ;
}

/// The handler state after a run whose final value, if the computation completed, is `out`.
pub open spec fn handled<T: View, F: Finish<T>>(h: F::V, out: Option<T::V>) -> F::V {
    match out {
        Some(t) => F::finished(h, t),
        None => h,
    }
}

/// A handler that drops the final value.
pub struct Ignore;

impl View for Ignore {
    type V = ();

    open spec fn view(&self) -> () {
        ()
    }
}

impl<T: View> Finish<T> for Ignore {
    open spec fn finished(state: (), value: T::V) -> () {
        ()
    }

    fn finish(&mut self, value: T) {
    }
}

/// A handler that keeps every final value handed to it, in order.
pub struct Recorder<T> {
    values: Vec<T>,
}

impl<T: View> View for Recorder<T> {
    type V = Seq<T::V>;

    closed spec fn view(&self) -> Seq<T::V> {
        self.values@.map_values(|v: T| v@)
    }
}

impl<T: View> Recorder<T> {
    /// A recorder that holds no value yet.
    pub fn new() -> (r: Recorder<T>)
        ensures
            r@ == Seq::<T::V>::empty(),
    {
        let r = Recorder { values: Vec::new() };
        assert(r@ =~= Seq::<T::V>::empty());
        r
    }

    /// The values handed over so far, in order.
    pub fn values(&self) -> (r: &Vec<T>)
        ensures
            r@.map_values(|v: T| v@) == self@,
    {
        &self.values
    }

    /// How many values have been handed over.
    pub fn count(&self) -> (r: usize)
        ensures
            r == self@.len(),
    {
        self.values.len()
    }
}

impl<T: View> Finish<T> for Recorder<T> {
    open spec fn finished(state: Seq<T::V>, value: T::V) -> Seq<T::V> {
        state.push(value)
    }

    fn finish(&mut self, value: T) {
        self.values.push(value);
        assert(self@ =~= old(self)@.push(value@));
    }
}

} // verus!
