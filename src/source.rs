use vstd::prelude::*;
use std::collections::VecDeque;

verus! {

/// A pull-based stream of values, finite or endless.
///
/// `upcoming(i)` is the `i`-th value still to come; `None` once the stream has run out.
pub trait Source: Sized {
    type Item;

    spec fn upcoming(&self, i: nat) -> Option<Self::Item>;

    fn pull(&mut self) -> (r: Option<Self::Item>)
        ensures
            r == old(self).upcoming(0),
            forall|i: nat| #[trigger] final(self).upcoming(i) == old(self).upcoming(i + 1),
    ;
}

/// A finite stream that hands out the values it was given, front first.
pub struct Inputs<R> {
    items: VecDeque<R>,
}

impl<R> View for Inputs<R> {
    type V = Seq<R>;

    closed spec fn view(&self) -> Seq<R> {
        self.items@
    }
}

impl<R> Inputs<R> {
    /// A stream of the values of `v`, in order.
    pub fn from_vec(v: Vec<R>) -> (r: Inputs<R>)
        ensures
            r@ == v@,
    {
        let mut v = v;
        let ghost all = v@;
        let mut items: VecDeque<R> = VecDeque::new();
        while v.len() > 0
            invariant
                v@ + items@ == all,
            decreases v.len(),
        {
            let x = v.pop().unwrap();
            items.push_front(x);
            assert(v@ + items@ =~= all);
        }
        assert(items@ =~= all);
        Inputs { items }
    }

    /// How many values are still to come.
    pub fn len(&self) -> (r: usize)
        ensures
            r == self@.len(),
    {
        self.items.len()
    }
}

impl<R> Source for Inputs<R> {
    type Item = R;

    open spec fn upcoming(&self, i: nat) -> Option<R> {
        if i < self@.len() {
            Some(self@[i as int])
        } else {
            None
        }
    }

    fn pull(&mut self) -> (r: Option<R>) {
        self.items.pop_front()
    }
}

/// Once a stream of `Inputs` has been pulled, what is left is the rest of it.
pub proof fn lemma_pulled_inputs<R>(before: Inputs<R>, after: Inputs<R>)
    requires
        forall|i: nat| #[trigger] after.upcoming(i) == before.upcoming(i + 1),
    ensures
        before@.len() > 0 ==> after@ == before@.drop_first(),
        before@.len() == 0 ==> after@.len() == 0,
{
    if after@.len() > 0 {
        assert(after.upcoming((after@.len() - 1) as nat) is Some);
        assert(before.upcoming(after@.len() as nat) is Some);
    }
    if before@.len() > 0 {
        if before@.len() > 1 {
            let k = (before@.len() - 2) as nat;
            assert(after.upcoming(k) == before.upcoming(k + 1));
        }
        assert forall|i: int| 0 <= i < after@.len() implies after@[i] == before@.drop_first()[i] by {
            assert(after.upcoming(i as nat) == before.upcoming((i + 1) as nat));
        }
        assert(after@ =~= before@.drop_first());
    }
}

/// The endless stream of unit values.
pub struct Void;

impl Source for Void {
    type Item = ();

    open spec fn upcoming(&self, i: nat) -> Option<()> {
        Some(())
    }

    fn pull(&mut self) -> (r: Option<()>) {
        Some(())
    }
}

/// An endless stream of unit values, to drive a computation that needs no input.
pub fn void() -> (r: Void)
    ensures
        forall|i: nat| #[trigger] r.upcoming(i) == Some(()),
{
    Void
}

} // verus!
