use vstd::prelude::*;
use crate::generator::{GenState, Generator, yields, outcome};
use crate::handler::{handled, Finish, Ignore};
use crate::source::{Source, Inputs, lemma_pulled_inputs};

verus! {

/// A resumable computation `G` driven by a stream of inputs `I`, whose final value
/// goes to the handler `F`.
///
/// Each pull takes one input and resumes the computation with it. Once the inputs run
/// out, or the computation completes, the driver is done: it never resumes the
/// computation again and every later pull reports no item.
pub struct GenIter<G, I, F> {
    gen: G,
    iter: I,
    on_complete: F,
    done: bool,
}

impl<G, I, F> GenIter<G, I, F> {
    /// The computation being driven.
    pub closed spec fn generator(self) -> G {
        self.gen
    }

    /// The inputs still to be fed to it.
    pub closed spec fn source(self) -> I {
        self.iter
    }

    /// The handler of the final value.
    pub closed spec fn handler(self) -> F {
        self.on_complete
    }

    /// Whether the driver has stopped for good.
    pub closed spec fn is_done(self) -> bool {
        self.done
    }

    /// The handler of the final value.
    pub fn handler_ref(&self) -> (r: &F)
        ensures
            *r == self.handler(),
    {
        &self.on_complete
    }

    /// Whether the driver has stopped for good.
    pub fn finished(&self) -> (r: bool)
        ensures
            r == self.is_done(),
    {
        self.done
    }
}

/// `after` is `before` with its first value taken.
pub open spec fn pulled<I: Source>(before: I, after: I) -> bool {
    forall|i: nat| #[trigger] after.upcoming(i) == before.upcoming(i + 1)
}

/// Couples a stream of inputs, a computation and a handler of its final value.
pub fn bind<G, I, F>(iter: I, generator: G, on_complete: F) -> (r: GenIter<G, I, F>)
    ensures
        r.generator() == generator,
        r.source() == iter,
        r.handler() == on_complete,
        !r.is_done(),
{
    GenIter { gen: generator, iter, on_complete, done: false }
}

/// Couples a stream of inputs and a computation whose final value is dropped.
pub fn bind_ignore<G, I>(iter: I, generator: G) -> (r: GenIter<G, I, Ignore>)
    ensures
        r.generator() == generator,
        r.source() == iter,
        r.handler() == Ignore,
        !r.is_done(),
{
    bind(iter, generator, Ignore)
}

/// Couples the values of `items`, in order, a computation and a handler of its final value.
pub fn bind_items<G, R, F>(items: Vec<R>, generator: G, on_complete: F) -> (r: GenIter<G, Inputs<R>, F>)
    ensures
        r.generator() == generator,
        r.source()@ == items@,
        r.handler() == on_complete,
        !r.is_done(),
{
    bind(Inputs::from_vec(items), generator, on_complete)
}

impl<G, I, F> GenIter<G, I, F> where
    I: Source,
    G: Generator<I::Item>,
    F: Finish<G::Return>,
 {
    /// One pull takes `self` to `next` and reports `out`.
    pub open spec fn advances(self, next: Self, out: Option<G::Yield>) -> bool {
        if self.is_done() {
            next == self && out is None
        } else {
            &&& pulled(self.source(), next.source())
            &&& match self.source().upcoming(0) {
                None => {
                    &&& out is None
                    &&& next.is_done()
                    &&& next.generator() == self.generator()
                    &&& next.handler() == self.handler()
                },
                Some(arg) => {
                    let (state, reply) = G::transition(self.generator()@, arg);
                    &&& next.generator()@ == state
                    &&& match reply {
                        GenState::Yielded(y) => {
                            &&& out matches Some(v) && v@ == y
                            &&& !next.is_done()
                            &&& next.handler() == self.handler()
                        },
                        GenState::Complete(t) => {
                            &&& out is None
                            &&& next.is_done()
                            &&& next.handler()@ == F::finished(self.handler()@, t)
                        },
                    }
                },
            }
        }
    }

    /// Pulls the next yielded value: takes one input and resumes the computation with it.
    /// Hands the final value to the handler when the computation completes.
    pub fn next(&mut self) -> (r: Option<G::Yield>)
        ensures
            old(self).advances(*final(self), r),
    {
        if self.done {
            return None;
        }
        match self.iter.pull() {
            None => {
                self.done = true;
                None
            },
            Some(arg) => match self.gen.resume(arg) {
                GenState::Yielded(y) => Some(y),
                GenState::Complete(t) => {
                    self.on_complete.finish(t);
                    self.done = true;
                    None
                },
            },
        }
    }
}

/// Once a pull reports no item, the driver is done: every later pull reports no item
/// and changes nothing, so the handler is not called again.
pub proof fn lemma_exhaustion_is_final<G, I, F>(
    d0: GenIter<G, I, F>,
    d1: GenIter<G, I, F>,
    d2: GenIter<G, I, F>,
    out: Option<G::Yield>,
) where I: Source, G: Generator<I::Item>, F: Finish<G::Return>
    requires
        d0.advances(d1, None),
        d1.advances(d2, out),
    ensures
        d1.is_done(),
        out is None,
        d2 == d1,
{
}

impl<G, R, F> GenIter<G, Inputs<R>, F> where G: Generator<R>, F: Finish<G::Return> {
    /// Pulls until the driver is done and returns what was yielded, in order.
    pub fn drain(&mut self) -> (r: Vec<G::Yield>)
        ensures
            final(self).is_done(),
            old(self).is_done() ==> r@.len() == 0 && *final(self) == *old(self),
            !old(self).is_done() ==> {
                let (g, xs) = (old(self).generator()@, old(self).source()@);
                &&& r@.map_values(|y: G::Yield| y@) == yields::<R, G>(g, xs)
                &&& final(self).handler()@ == handled::<G::Return, F>(
                    old(self).handler()@,
                    outcome::<R, G>(g, xs),
                )
            },
    {
        let mut out: Vec<G::Yield> = Vec::new();
        let ghost g0 = self.gen@;
        let ghost xs0 = self.iter@;
        let ghost h0 = self.on_complete@;
        let ghost was_done = self.done;
        assert(out@.map_values(|y: G::Yield| y@) =~= Seq::empty());
        while !self.done
            invariant
                was_done ==> self.done && out@.len() == 0 && *self == *old(self),
                !was_done ==> g0 == old(self).gen@ && xs0 == old(self).iter@ && h0 == old(self).on_complete@,
                !self.done ==> {
                    &&& out@.map_values(|y: G::Yield| y@) + yields::<R, G>(self.gen@, self.iter@)
                        == yields::<R, G>(g0, xs0)
                    &&& outcome::<R, G>(self.gen@, self.iter@) == outcome::<R, G>(g0, xs0)
                    &&& self.on_complete@ == h0
                },
                self.done && !was_done ==> {
                    &&& out@.map_values(|y: G::Yield| y@) == yields::<R, G>(g0, xs0)
                    &&& self.on_complete@ == handled::<G::Return, F>(h0, outcome::<R, G>(g0, xs0))
                },
            decreases self.iter@.len() + if self.done { 0int } else { 1int },
        {
            let ghost before = *self;
            let ghost seen = out@.map_values(|y: G::Yield| y@);
            let r = self.next();
            proof {
                lemma_pulled_inputs(before.iter, self.iter);
            }
            match r {
                Some(y) => {
                    out.push(y);
                    assert(out@.map_values(|y: G::Yield| y@) =~= seen.push(y@));
                    assert(before.iter@ =~= seq![before.iter@[0]] + self.iter@);
                    assert(seen + yields::<R, G>(before.gen@, before.iter@) =~= seen.push(y@)
                        + yields::<R, G>(self.gen@, self.iter@));
                },
                None => {},
            }
        }
        out
    }
}

} // verus!
