use vstd::prelude::*;

use crate::handler::{handled, Finish};

verus! {

/// What a suspended computation reports each time it is resumed.
pub enum GenState<Y, T> {
    /// The computation paused and produced an intermediate value; it may be resumed again.
    Yielded(Y),
    /// The computation finished for good with its final value.
    Complete(T),
}

impl<Y: View, T: View> View for GenState<Y, T> {
    type V = GenState<Y::V, T::V>;

    open spec fn view(&self) -> GenState<Y::V, T::V> {
        match self {
            GenState::Yielded(y) => GenState::Yielded(y@),
            GenState::Complete(t) => GenState::Complete(t@),
        }
    }
}

/// A computation that suspends after every step and is resumed with an argument of type `R`.
///
/// Its abstract state is its view; `transition` gives, for a state and an argument, the
/// state after the resume and what the resume reports (on the views of the reported values).
pub trait Generator<R>: View + Sized {
    type Yield: View;
    type Return: View;

    spec fn transition(state: Self::V, arg: R) -> (Self::V, GenState<
        <Self::Yield as View>::V,
        <Self::Return as View>::V,
    >);

    fn resume(&mut self, arg: R) -> (r: GenState<Self::Yield, Self::Return>)
        ensures
            (final(self)@, r@) == Self::transition(old(self)@, arg),
    ;
}

/// The values yielded when a computation in state `s` is resumed with `inputs`, in order,
/// up to the first resume that completes (or to the end of `inputs`).
pub open spec fn yields<R, G: Generator<R>>(s: G::V, inputs: Seq<R>) -> Seq<<G::Yield as View>::V>
    decreases inputs.len(),
{
    if inputs.len() == 0 {
        Seq::empty()
    } else {
        let (next, out) = G::transition(s, inputs[0]);
        match out {
            GenState::Yielded(y) => seq![y] + yields::<R, G>(next, inputs.drop_first()),
            GenState::Complete(_) => Seq::empty(),
        }
    }
}

/// The final value of a computation in state `s` resumed with `inputs`, in order,
/// or `None` where `inputs` run out before it completes.
pub open spec fn outcome<R, G: Generator<R>>(s: G::V, inputs: Seq<R>) -> Option<<G::Return as View>::V>
    decreases inputs.len(),
{
    if inputs.len() == 0 {
        None
    } else {
        let (next, out) = G::transition(s, inputs[0]);
        match out {
            GenState::Yielded(_) => outcome::<R, G>(next, inputs.drop_first()),
            GenState::Complete(t) => Some(t),
        }
    }
}

/// The state of a computation in state `s` after it has been resumed with each of `inputs`.
pub open spec fn state_after<R, G: Generator<R>>(s: G::V, inputs: Seq<R>) -> G::V
    decreases inputs.len(),
{
    if inputs.len() == 0 {
        s
    } else {
        state_after::<R, G>(G::transition(s, inputs[0]).0, inputs.drop_first())
    }
}

/// What the computation reports when, started in state `s`, it is resumed with
/// `inputs[i]` after the inputs before it.
pub open spec fn response<R, G: Generator<R>>(s: G::V, inputs: Seq<R>, i: int) -> GenState<
    <G::Yield as View>::V,
    <G::Return as View>::V,
> {
    G::transition(state_after::<R, G>(s, inputs.take(i)), inputs[i]).1
}

/// Resuming with `inputs[i + 1]` after the first input is resuming the state that
/// first input led to with the rest of the inputs.
proof fn lemma_response_shift<R, G: Generator<R>>(s: G::V, inputs: Seq<R>, i: int)
    requires
        0 <= i,
        i + 1 < inputs.len(),
    ensures
        response::<R, G>(s, inputs, i + 1) == response::<R, G>(
            G::transition(s, inputs[0]).0,
            inputs.drop_first(),
            i,
        ),
{
    let prefix = inputs.take(i + 1);
    assert(prefix.drop_first() =~= inputs.drop_first().take(i));
    assert(prefix[0] == inputs[0]);
}

/// When a computation yields on each of the first `k` inputs and, if an input is left,
/// completes on the next one, what comes out is exactly those `k` yields; the final
/// value reaches the handler once if the computation completed within the inputs, and
/// the handler is untouched if the inputs ran out first.
pub proof fn lemma_completes_after<R, G: Generator<R>, F: Finish<G::Return>>(
    s: G::V,
    inputs: Seq<R>,
    k: nat,
    h: F::V,
)
    requires
        k <= inputs.len(),
        forall|i: int| 0 <= i < k ==> #[trigger] response::<R, G>(s, inputs, i) is Yielded,
        k < inputs.len() ==> response::<R, G>(s, inputs, k as int) is Complete,
    ensures
        yields::<R, G>(s, inputs).len() == k,
        forall|i: int|
            0 <= i < k ==> #[trigger] yields::<R, G>(s, inputs)[i] == response::<R, G>(
                s,
                inputs,
                i,
            )->Yielded_0,
        k == inputs.len() ==> outcome::<R, G>(s, inputs) is None,
        k == inputs.len() ==> handled::<G::Return, F>(h, outcome::<R, G>(s, inputs)) == h,
        k < inputs.len() ==> outcome::<R, G>(s, inputs) == Some(
            response::<R, G>(s, inputs, k as int)->Complete_0,
        ),
        k < inputs.len() ==> handled::<G::Return, F>(h, outcome::<R, G>(s, inputs)) == F::finished(
            h,
            outcome::<R, G>(s, inputs).unwrap(),
        ),
    decreases inputs.len(),
{
    if inputs.len() > 0 {
        assert(inputs.take(0) =~= Seq::<R>::empty());
        let (next, out) = G::transition(s, inputs[0]);
        if k > 0 {
            let rest = inputs.drop_first();
            assert(response::<R, G>(s, inputs, 0) is Yielded);
            assert forall|i: int| 0 <= i < k - 1 implies #[trigger] response::<R, G>(next, rest, i) is Yielded by {
                lemma_response_shift::<R, G>(s, inputs, i);
                assert(response::<R, G>(s, inputs, i + 1) is Yielded);
            }
            if k < inputs.len() {
                lemma_response_shift::<R, G>(s, inputs, k - 1);
            }
            lemma_completes_after::<R, G, F>(next, rest, (k - 1) as nat, h);
            assert forall|i: int| 0 <= i < k implies #[trigger] yields::<R, G>(s, inputs)[i]
                == response::<R, G>(s, inputs, i)->Yielded_0 by {
                if i > 0 {
                    lemma_response_shift::<R, G>(s, inputs, i - 1);
                    assert(yields::<R, G>(s, inputs)[i] == yields::<R, G>(next, rest)[i - 1]);
                }
            }
        }
    }
}

/// When a computation yields on every one of `inputs`, one value comes out per input,
/// each being the computation's reply to that input, and no final value is reached.
pub proof fn lemma_one_yield_per_input<R, G: Generator<R>>(s: G::V, inputs: Seq<R>)
    requires
        forall|i: int| 0 <= i < inputs.len() ==> #[trigger] response::<R, G>(s, inputs, i) is Yielded,
    ensures
        yields::<R, G>(s, inputs).len() == inputs.len(),
        forall|i: int|
            0 <= i < inputs.len() ==> #[trigger] yields::<R, G>(s, inputs)[i] == response::<R, G>(
                s,
                inputs,
                i,
            )->Yielded_0,
        outcome::<R, G>(s, inputs) is None,
{
    lemma_completes_after::<R, G, crate::handler::Ignore>(s, inputs, inputs.len(), ());
}

} // verus!
