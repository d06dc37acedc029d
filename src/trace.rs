//! Laws about successive steps of a handle and successive pulls from a sequence.
use crate::gen::{Senerator, Senor, State};
use crate::iter::{bounded, stepped_once};
use vstd::prelude::*;

verus! {

/// `hs` are the states of one handle, each reached from the one before by a
/// single step.
pub open spec fn is_run<G: Senerator>(hs: Seq<G>) -> bool {
    forall|i: int| 0 <= i < hs.len() - 1 ==> stepped_once(#[trigger] hs[i], hs[i + 1])
}

/// Once a handle is exhausted, it stays exhausted for every later step.
pub proof fn lemma_exhausted_stays_exhausted<G: Senerator>(hs: Seq<G>, i: int, j: int)
    requires
        is_run(hs),
        0 <= i <= j < hs.len(),
        !hs[i].live(),
    ensures
        !hs[j].live(),
    decreases j - i,
{
    if i < j {
        assert(stepped_once(hs[i], hs[i + 1]));
        lemma_exhausted_stays_exhausted(hs, i + 1, j);
    }
}

/// A handle that completes at some step is exhausted at every later one.
pub proof fn lemma_completed_then_exhausted<G: Senerator>(hs: Seq<G>, i: int, j: int)
    requires
        is_run(hs),
        0 <= i < j < hs.len(),
        hs[i].live(),
        hs[i].pending().len() == 0,
    ensures
        !hs[j].live(),
{
    assert(stepped_once(hs[i], hs[i + 1]));
    lemma_exhausted_stays_exhausted(hs, i + 1, j);
}

/// After `i` steps a handle is still live, has dropped exactly its first `i`
/// intermediate values, and will complete with the same final value; so its
/// `i`-th step produces its `i`-th intermediate value.
pub proof fn lemma_run_order<G: Senerator>(hs: Seq<G>, i: int)
    requires
        is_run(hs),
        0 <= i < hs.len(),
        hs[0].live(),
        i <= hs[0].pending().len(),
    ensures
        hs[i].live(),
        hs[i].pending() == hs[0].pending().skip(i),
        hs[i].final_value() == hs[0].final_value(),
    decreases i,
{
    if i > 0 {
        lemma_run_order(hs, i - 1);
        assert(stepped_once(hs[i - 1], hs[i]));
        assert(hs[i].pending() =~= hs[0].pending().skip(i));
    }
}

/// The step after every intermediate value has come completes the handle,
/// and every step after that finds it exhausted.
pub proof fn lemma_run_completes<G: Senerator>(hs: Seq<G>, j: int)
    requires
        is_run(hs),
        hs[0].live(),
        hs[0].pending().len() < j < hs.len(),
    ensures
        !hs[j].live(),
{
    let n = hs[0].pending().len() as int;
    lemma_run_order(hs, n);
    lemma_completed_then_exhausted(hs, n, j);
}

/// A handle whose intermediate values are `first` followed by `second` (as
/// a chain's are) produces all of `first`, in order, before any of `second`,
/// then completes.
pub proof fn lemma_concatenated_run<G: Senerator>(
    hs: Seq<G>,
    first: Seq<G::Yield>,
    second: Seq<G::Yield>,
    i: int,
)
    requires
        is_run(hs),
        hs[0].live(),
        hs[0].pending() == first + second,
        0 <= i < first.len() + second.len(),
        i < hs.len(),
    ensures
        hs[i].live(),
        i < first.len() ==> hs[i].pending()[0] == first[i],
        i >= first.len() ==> hs[i].pending()[0] == second[i - first.len()],
        hs[i].final_value() == hs[0].final_value(),
{
    lemma_run_order(hs, i);
}

/// Stepping a handle through a sequence limited to its first `k` values,
/// where more than `k` remain, leaves it live with exactly the values that
/// the limited sequence did not produce: together they are all of the
/// handle's values, in order, none repeated or lost.
pub proof fn lemma_resume_after_limit<G: Senerator>(hs: Seq<G>, k: usize)
    requires
        is_run(hs),
        k < hs.len(),
        hs[0].live(),
        k < hs[0].pending().len(),
    ensures
        hs[k as int].live(),
        bounded(hs[0].pending(), Some(k)) + hs[k as int].pending() == hs[0].pending(),
{
    lemma_run_order(hs, k as int);
    assert(bounded(hs[0].pending(), Some(k)) + hs[k as int].pending() =~= hs[0].pending());
}

/// `outs` are what successive pulls from a sequence produced, and `rems` what
/// the sequence had still to produce before each pull and after the last:
/// each pull produces the first remaining value and drops it, or `None`
/// once nothing remains.
pub open spec fn is_pull_run<T>(rems: Seq<Seq<T>>, outs: Seq<Option<T>>) -> bool {
    &&& rems.len() == outs.len() + 1
    &&& forall|i: int|
        0 <= i < outs.len() ==> {
            &&& #[trigger] rems[i].len() > 0 ==> outs[i] == Some(rems[i][0]) && rems[i + 1]
                == rems[i].drop_first()
            &&& rems[i].len() == 0 ==> outs[i] is None && rems[i + 1].len() == 0
        }
}

/// Successive pulls produce exactly the values the sequence had to produce,
/// in order, each once, and `None` at every pull after them.
pub proof fn lemma_pulls_in_order<T>(rems: Seq<Seq<T>>, outs: Seq<Option<T>>, i: int)
    requires
        is_pull_run(rems, outs),
        0 <= i < outs.len(),
    ensures
        i < rems[0].len() ==> outs[i] == Some(rems[0][i]),
        i >= rems[0].len() ==> outs[i] is None,
{
    lemma_pull_rest(rems, outs, i);
    assert(rems[i].len() > 0 || rems[i].len() == 0);
    if i < rems[0].len() {
        assert(rems[i][0] == rems[0][i]);
    }
}

/// Before pull `i` the sequence has still to produce its values from the
/// `i`-th on.
proof fn lemma_pull_rest<T>(rems: Seq<Seq<T>>, outs: Seq<Option<T>>, i: int)
    requires
        is_pull_run(rems, outs),
        0 <= i <= outs.len(),
    ensures
        i <= rems[0].len() ==> rems[i] == rems[0].skip(i),
        i >= rems[0].len() ==> rems[i].len() == 0,
    decreases i,
{
    if i > 0 {
        lemma_pull_rest(rems, outs, i - 1);
        assert(rems[i - 1].len() > 0 || rems[i - 1].len() == 0);
        if i <= rems[0].len() {
            assert(rems[i] =~= rems[0].skip(i));
        }
    }
}

/// Pulls from a sequence whose values are `first` followed by `second` (a
/// chain's) produce all of `first`, then all of `second`, then `None`.
pub proof fn lemma_pulls_concatenated<T>(
    rems: Seq<Seq<T>>,
    outs: Seq<Option<T>>,
    first: Seq<T>,
    second: Seq<T>,
    i: int,
)
    requires
        is_pull_run(rems, outs),
        rems[0] == first + second,
        0 <= i < outs.len(),
    ensures
        i < first.len() ==> outs[i] == Some(first[i]),
        first.len() <= i < first.len() + second.len() ==> outs[i] == Some(second[i - first.len()]),
        i >= first.len() + second.len() ==> outs[i] is None,
{
    lemma_pulls_in_order(rems, outs, i);
}

/// `outs` are the results of successive steps of a handle through the states
/// `hs`, as the step protocol of [`Senerator`] gives them.
pub open spec fn is_step_run<G: Senerator>(hs: Seq<G>, outs: Seq<Senor<G::Yield, G::Return>>) -> bool {
    &&& hs.len() == outs.len() + 1
    &&& forall|i: int|
        0 <= i < outs.len() ==> {
            &&& stepped_once(#[trigger] hs[i], hs[i + 1])
            &&& !hs[i].live() ==> outs[i] is None
            &&& hs[i].live() && hs[i].pending().len() > 0 ==> outs[i] == Some(
                State::<G::Yield, G::Return>::Yield(hs[i].pending()[0]),
            )
            &&& hs[i].live() && hs[i].pending().len() == 0 ==> outs[i] == Some(
                State::<G::Yield, G::Return>::Return(hs[i].final_value()),
            )
        }
}

/// Successive steps of a live handle report its intermediate values in order,
/// then its final value once, then `None` at every later step.
pub proof fn lemma_steps_in_order<G: Senerator>(
    hs: Seq<G>,
    outs: Seq<Senor<G::Yield, G::Return>>,
    i: int,
)
    requires
        is_step_run(hs, outs),
        hs[0].live(),
        0 <= i < outs.len(),
    ensures
        i < hs[0].pending().len() ==> outs[i] == Some(
            State::<G::Yield, G::Return>::Yield(hs[0].pending()[i]),
        ),
        i == hs[0].pending().len() ==> outs[i] == Some(
            State::<G::Yield, G::Return>::Return(hs[0].final_value()),
        ),
        i > hs[0].pending().len() ==> outs[i] is None,
{
    assert(is_run(hs)) by {
        assert forall|j: int| 0 <= j < hs.len() - 1 implies stepped_once(#[trigger] hs[j], hs[j + 1]) by {
            assert(0 <= j < outs.len());
        }
    }
    let n = hs[0].pending().len() as int;
    if i <= n {
        lemma_run_order(hs, i);
    } else {
        lemma_run_completes(hs, i);
    }
}

/// Successive steps of a handle whose intermediate values are `first`
/// followed by `second` (a chain's) report all of `first`, then all of
/// `second`, then the final value, then `None`.
pub proof fn lemma_steps_concatenated<G: Senerator>(
    hs: Seq<G>,
    outs: Seq<Senor<G::Yield, G::Return>>,
    first: Seq<G::Yield>,
    second: Seq<G::Yield>,
    i: int,
)
    requires
        is_step_run(hs, outs),
        hs[0].live(),
        hs[0].pending() == first + second,
        0 <= i < outs.len(),
    ensures
        i < first.len() ==> outs[i] == Some(State::<G::Yield, G::Return>::Yield(first[i])),
        first.len() <= i < first.len() + second.len() ==> outs[i] == Some(
            State::<G::Yield, G::Return>::Yield(second[i - first.len()]),
        ),
        i == first.len() + second.len() ==> outs[i] == Some(
            State::<G::Yield, G::Return>::Return(hs[0].final_value()),
        ),
        i > first.len() + second.len() ==> outs[i] is None,
{
    lemma_steps_in_order(hs, outs, i);
}

} // verus!
