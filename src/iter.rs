use crate::gen::{converted, Callable, Generator, Senerator, State};
use vstd::prelude::*;
use vstd::std_specs::convert::IntoSpec;

verus! {

/// The first `limit` items of `s`, or all of them where there is no limit.
pub open spec fn bounded<T>(s: Seq<T>, limit: Option<usize>) -> Seq<T> {
    match limit {
        Some(n) => if n < s.len() {
            s.take(n as int)
        } else {
            s
        },
        None => s,
    }
}

/// The limit that remains once `limit` has let one item through.
pub open spec fn after_one(limit: Option<usize>) -> Option<usize> {
    match limit {
        Some(n) => Some((n - 1) as usize),
        None => None,
    }
}

/// The limit of a sequence limited by `limit` and then by `n`.
pub open spec fn narrowed(limit: Option<usize>, n: usize) -> Option<usize> {
    match limit {
        Some(m) => Some(if m < n { m } else { n }),
        None => Some(n),
    }
}

/// `after` is `before` advanced by one step, as a handle's step protocol
/// describes it.
pub open spec fn stepped_once<G: Senerator>(before: G, after: G) -> bool {
    &&& after.safe()
    &&& !before.live() ==> !after.live()
    &&& before.live() && before.pending().len() > 0 ==> {
        &&& after.live()
        &&& after.pending() == before.pending().drop_first()
        &&& after.final_value() == before.final_value()
    }
    &&& before.live() && before.pending().len() == 0 ==> !after.live()
}

/// What a sequence of the intermediate values of `h`, limited by `limit`,
/// has still to produce.
pub open spec fn yield_rest<H: Senerator>(h: H, limit: Option<usize>) -> Seq<H::Yield> {
    if h.live() {
        bounded(h.pending(), limit)
    } else {
        Seq::empty()
    }
}

/// What a sequence of the intermediate values of `h` and then its converted
/// final value, limited by `limit`, has still to produce.
pub open spec fn all_rest<Y, R: Into<Y>, H: Senerator<Yield = Y, Return = R>>(
    h: H,
    limit: Option<usize>,
) -> Seq<Y> {
    if h.live() {
        bounded(h.pending().push(converted::<Y, R>(h.final_value())), limit)
    } else {
        Seq::empty()
    }
}

/// `after` is where a sequence limited by `limit` leaves the handle `before`
/// once drained: still live, short of its first `n` values, when the limit
/// `n` stops it before the final value; exhausted otherwise.
pub open spec fn drained_to<H: Senerator>(before: H, after: H, limit: Option<usize>) -> bool {
    &&& after.safe()
    &&& if before.live() && limit is Some && limit->0 <= before.pending().len() {
        &&& after.live()
        &&& after.pending() == before.pending().skip(limit->0 as int)
        &&& after.final_value() == before.final_value()
    } else {
        !after.live()
    }
}

/// The limit left after `k` values came through `limit`.
pub open spec fn spent_limit(limit: Option<usize>, k: nat) -> Option<usize> {
    match limit {
        Some(n) => Some((n - k) as usize),
        None => None,
    }
}

/// Draws the next intermediate value from `h` under `limit`.
fn pull_yielded<H: Senerator>(h: &mut H, limit: &mut Option<usize>) -> (r: Option<H::Yield>)
    requires
        old(h).safe(),
    ensures
        final(h).safe(),
        yield_rest(*old(h), *old(limit)).len() > 0 ==> {
            &&& r == Some(yield_rest(*old(h), *old(limit))[0])
            &&& yield_rest(*final(h), *final(limit)) == yield_rest(*old(h), *old(limit)).drop_first()
        },
        yield_rest(*old(h), *old(limit)).len() == 0 ==> {
            &&& r is None
            &&& yield_rest(*final(h), *final(limit)).len() == 0
        },
        *old(limit) == Some(0usize) ==> *final(h) == *old(h) && *final(limit) == *old(limit),
        *old(limit) != Some(0usize) ==> {
            &&& stepped_once(*old(h), *final(h))
            &&& *final(limit) == after_one(*old(limit))
        },
{
    if *limit == Some(0usize) {
        return None;
    }
    *limit = match *limit {
        Some(n) => Some(n - 1),
        None => None,
    };
    let r = match h.resume_with_yield() {
        Some(State::Yield(y)) => Some(y),
        _ => None,
    };
    proof {
        if h.live() {
            assert(yield_rest(*h, *limit) =~= yield_rest(*old(h), *old(limit)).drop_first());
        }
    }
    r
}

/// Draws the next value from `h` under `limit`: an intermediate one, or the
/// converted final value.
fn pull_all<Y, R: Into<Y>, H: Senerator<Yield = Y, Return = R>>(
    h: &mut H,
    limit: &mut Option<usize>,
) -> (r: Option<Y>)
    requires
        old(h).safe(),
    ensures
        final(h).safe(),
        all_rest(*old(h), *old(limit)).len() > 0 ==> {
            &&& r is Some
            &&& all_rest(*final(h), *final(limit)) == all_rest(*old(h), *old(limit)).drop_first()
        },
        all_rest(*old(h), *old(limit)).len() > 0 && (R::obeys_into_spec() || old(h).pending().len()
            > 0) ==> r == Some(all_rest(*old(h), *old(limit))[0]),
        all_rest(*old(h), *old(limit)).len() == 0 ==> {
            &&& r is None
            &&& all_rest(*final(h), *final(limit)).len() == 0
        },
        *old(limit) == Some(0usize) ==> *final(h) == *old(h) && *final(limit) == *old(limit),
        *old(limit) != Some(0usize) ==> {
            &&& stepped_once(*old(h), *final(h))
            &&& *final(limit) == after_one(*old(limit))
        },
{
    if *limit == Some(0usize) {
        return None;
    }
    *limit = match *limit {
        Some(n) => Some(n - 1),
        None => None,
    };
    let r = match h.resume_with_yield() {
        Some(state) => state.into(),
        None => None,
    };
    proof {
        if h.live() {
            assert(all_rest(*h, *limit) =~= all_rest(*old(h), *old(limit)).drop_first());
        }
    }
    r
}

/// Draws every value that a sequence of the intermediate values of `h`,
/// limited by `limit`, has still to produce.
fn drain_yielded<H: Senerator>(h: &mut H, limit: Option<usize>) -> (v: Vec<H::Yield>)
    requires
        old(h).safe(),
    ensures
        v@ == yield_rest(*old(h), limit),
        drained_to(*old(h), *final(h), limit),
{
    let ghost h0 = *h;
    let ghost p0 = h0.pending();
    let mut lim = limit;
    let mut v: Vec<H::Yield> = Vec::new();
    loop
        invariant
            h0 == *old(h),
            p0 == h0.pending(),
            h.safe(),
            v@ + yield_rest(*h, lim) == yield_rest(h0, limit),
            lim == spent_limit(limit, v@.len()),
            limit matches Some(n) ==> v@.len() <= n,
            !h0.live() ==> !h.live(),
            h0.live() && h.live() ==> {
                &&& v@.len() <= p0.len()
                &&& h.pending() == p0.skip(v@.len() as int)
                &&& h.final_value() == h0.final_value()
            },
            h0.live() && !h.live() ==> v@.len() == p0.len() && !(limit matches Some(n) && n <= p0.len()),
        decreases yield_rest(*h, lim).len(),
    {
        let ghost before = *h;
        let ghost lim0 = lim;
        let ghost rest = yield_rest(*h, lim);
        match pull_yielded(h, &mut lim) {
            Some(y) => {
                v.push(y);
                proof {
                    assert(rest =~= seq![y] + yield_rest(*h, lim));
                    assert(v@ + yield_rest(*h, lim) =~= yield_rest(h0, limit));
                    if h.live() {
                        assert(h.pending() =~= p0.skip(v@.len() as int));
                    }
                }
            },
            None => {
                assert(v@ + yield_rest(*h, lim) =~= v@);
                proof {
                    if h0.live() && limit is Some && limit->0 <= p0.len() {
                        assert(h.pending() =~= p0.skip(limit->0 as int));
                    }
                }
                return v;
            },
        }
    }
}

/// Draws every value that a sequence of the intermediate values of `h` and
/// then its converted final value, limited by `limit`, has still to produce;
/// each equal to what the sequence was to produce, the final one where its
/// conversion is specified.
fn drain_all<Y, R: Into<Y>, H: Senerator<Yield = Y, Return = R>>(
    h: &mut H,
    limit: Option<usize>,
) -> (v: Vec<Y>)
    requires
        old(h).safe(),
    ensures
        v@.len() == all_rest(*old(h), limit).len(),
        forall|i: int|
            0 <= i < v@.len() && (R::obeys_into_spec() || i < old(h).pending().len()) ==> v@[i]
                == all_rest(*old(h), limit)[i],
        drained_to(*old(h), *final(h), limit),
{
    let ghost h0 = *h;
    let ghost p0 = h0.pending();
    let ghost all0 = all_rest(h0, limit);
    let mut lim = limit;
    let mut v: Vec<Y> = Vec::new();
    loop
        invariant
            h0 == *old(h),
            p0 == h0.pending(),
            all0 == all_rest(h0, limit),
            h.safe(),
            v@.len() + all_rest(*h, lim).len() == all0.len(),
            forall|j: int| 0 <= j < all_rest(*h, lim).len() ==> all_rest(*h, lim)[j] == all0[v@.len() + j],
            forall|i: int|
                0 <= i < v@.len() && (R::obeys_into_spec() || i < p0.len()) ==> v@[i] == all0[i],
            lim == spent_limit(limit, v@.len()),
            limit matches Some(n) ==> v@.len() <= n,
            !h0.live() ==> !h.live(),
            h0.live() && h.live() ==> {
                &&& v@.len() <= p0.len()
                &&& h.pending() == p0.skip(v@.len() as int)
                &&& h.final_value() == h0.final_value()
            },
            h0.live() && !h.live() ==> v@.len() == p0.len() + 1 && !(limit matches Some(n) && n <= p0.len()),
        decreases all_rest(*h, lim).len(),
    {
        let ghost before = *h;
        let ghost rest = all_rest(*h, lim);
        let ghost k = v@.len();
        match pull_all(h, &mut lim) {
            Some(y) => {
                v.push(y);
                proof {
                    assert(rest[0] == all0[k as int]);
                    if before.live() && before.pending().len() > 0 {
                        assert(before.pending() == p0.skip(k as int));
                        assert(k < p0.len());
                    }
                    if h.live() {
                        assert(h.pending() =~= p0.skip(v@.len() as int));
                    }
                    assert forall|j: int| 0 <= j < all_rest(*h, lim).len() implies all_rest(*h, lim)[j]
                        == all0[v@.len() + j] by {
                        assert(all_rest(*h, lim)[j] == rest[j + 1]);
                    }
                }
            },
            None => {
                proof {
                    if h0.live() && limit is Some && limit->0 <= p0.len() {
                        assert(h.pending() =~= p0.skip(limit->0 as int));
                    }
                }
                return v;
            },
        }
    }
}

/// Turns a handle into a sequence of its intermediate values; the final value
/// is dropped.
pub trait YieldIterExt: Senerator + Sized {
    /// Returns the sequence of the intermediate values still to come.
    fn iter_yielded(self) -> (it: YieldIterator<Self>)
        ensures
            it.source() == self,
            it.limit() is None,
    ;
}

impl<G: Senerator> YieldIterExt for G {
    fn iter_yielded(self) -> (it: YieldIterator<G>) {
        YieldIterator(self, None)
    }
}

/// The intermediate values of a handle, one per step, possibly limited to a
/// first few. The handle is a wrapper it owns, or one it was lent.
pub struct YieldIterator<G>(pub G, pub Option<usize>);

impl<G: Senerator> YieldIterator<G> {
    /// The handle the values are drawn from.
    pub open spec fn source(&self) -> G {
        self.0
    }

    /// How many more values may be drawn, if the sequence is limited.
    pub open spec fn limit(&self) -> Option<usize> {
        self.1
    }

    /// The handle may be stepped.
    pub open spec fn wf(&self) -> bool {
        self.source().safe()
    }

    /// The values the sequence has still to produce, in order.
    pub open spec fn remaining(&self) -> Seq<G::Yield> {
        yield_rest(self.source(), self.limit())
    }

    /// Limits the sequence to its first `n` values; the handle is not stepped.
    pub fn take(self, n: usize) -> (it: Self)
        ensures
            it.source() == self.source(),
            it.limit() == narrowed(self.limit(), n),
            it.remaining() == bounded(self.remaining(), Some(n)),
    {
        let limit = match self.1 {
            Some(m) => if m < n {
                m
            } else {
                n
            },
            None => n,
        };
        let it = YieldIterator(self.0, Some(limit));
        assert(it.remaining() =~= bounded(self.remaining(), Some(n)));
        it
    }
}

impl<G: Generator> YieldIterator<Callable<G>> {
    /// Produces the next intermediate value, or `None` once the computation
    /// has completed or the limit is reached. The handle is stepped once,
    /// unless the limit is reached.
    pub fn next(&mut self) -> (r: Option<G::Yield>)
        requires
            old(self).wf(),
        ensures
            final(self).wf(),
            old(self).remaining().len() > 0 ==> {
                &&& r == Some(old(self).remaining()[0])
                &&& final(self).remaining() == old(self).remaining().drop_first()
            },
            old(self).remaining().len() == 0 ==> r is None && final(self).remaining().len() == 0,
            old(self).limit() == Some(0usize) ==> {
                &&& final(self).source() == old(self).source()
                &&& final(self).limit() == old(self).limit()
            },
            old(self).limit() != Some(0usize) ==> {
                &&& stepped_once(old(self).source(), final(self).source())
                &&& final(self).limit() == after_one(old(self).limit())
            },
    {
        pull_yielded(&mut self.0, &mut self.1)
    }

    /// Drains the sequence into a vector.
    pub fn to_vec(self) -> (v: Vec<G::Yield>)
        requires
            self.wf(),
        ensures
            v@ == self.remaining(),
    {
        let mut it = self;
        drain_yielded(&mut it.0, it.1)
    }
}

impl<'a, H: Senerator> YieldIterator<&'a mut H> {
    /// Produces the next intermediate value, or `None` once the computation
    /// has completed or the limit is reached. The handle is stepped once,
    /// unless the limit is reached.
    /// The lent handle is stepped in place.
    pub fn next(&mut self) -> (r: Option<H::Yield>)
        requires
            old(self).wf(),
        ensures
            final(self).wf(),
            old(self).remaining().len() > 0 ==> {
                &&& r == Some(old(self).remaining()[0])
                &&& final(self).remaining() == old(self).remaining().drop_first()
            },
            old(self).remaining().len() == 0 ==> r is None && final(self).remaining().len() == 0,
            old(self).limit() == Some(0usize) ==> {
                &&& *final(self).source() == *old(self).source()
                &&& final(self).limit() == old(self).limit()
            },
            old(self).limit() != Some(0usize) ==> {
                &&& stepped_once(*old(self).source(), *final(self).source())
                &&& final(self).limit() == after_one(old(self).limit())
            },
            *final(final(self).source()) == *final(old(self).source()),
    {
        pull_yielded(&mut *self.0, &mut self.1)
    }

    /// Drains the sequence into a vector.
    /// The lent handle is left where the sequence stopped.
    pub fn to_vec(self) -> (v: Vec<H::Yield>)
        requires
            self.wf(),
        ensures
            v@ == self.remaining(),
            drained_to(*self.source(), *final(self.source()), self.limit()),
    {
        drain_yielded(self.0, self.1)
    }
}

/// Turns a handle into a sequence of its intermediate values followed by its
/// final value, converted to the type of the intermediate ones.
pub trait ReturnIterExt<Y, R>: Senerator<Yield = Y, Return = R> + Sized where R: Into<Y> {
    /// Returns the sequence of the values still to come, the final one last.
    fn iter_all(self) -> (it: ReturnIterator<Self>)
        ensures
            it.source() == self,
            it.limit() is None,
    ;
}

impl<Y, R, G> ReturnIterExt<Y, R> for G where G: Senerator<Yield = Y, Return = R>, R: Into<Y> {
    fn iter_all(self) -> (it: ReturnIterator<G>) {
        ReturnIterator(self, None)
    }
}

/// The intermediate values of a handle and then its final value, one per
/// step, possibly limited to a first few. The handle is a wrapper it owns,
/// or one it was lent.
pub struct ReturnIterator<G>(pub G, pub Option<usize>);

impl<Y, R, G> ReturnIterator<G> where G: Senerator<Yield = Y, Return = R>, R: Into<Y> {
    /// The handle the values are drawn from.
    pub open spec fn source(&self) -> G {
        self.0
    }

    /// How many more values may be drawn, if the sequence is limited.
    pub open spec fn limit(&self) -> Option<usize> {
        self.1
    }

    /// The handle may be stepped.
    pub open spec fn wf(&self) -> bool {
        self.source().safe()
    }

    /// The final value is converted as its conversion's specification says.
    pub open spec fn converts() -> bool {
        R::obeys_into_spec()
    }

    /// The values the sequence has still to produce, in order.
    pub open spec fn remaining(&self) -> Seq<Y> {
        all_rest(self.source(), self.limit())
    }

    /// Limits the sequence to its first `n` values; the handle is not stepped.
    pub fn take(self, n: usize) -> (it: Self)
        ensures
            it.source() == self.source(),
            it.limit() == narrowed(self.limit(), n),
            it.remaining() == bounded(self.remaining(), Some(n)),
    {
        let limit = match self.1 {
            Some(m) => if m < n {
                m
            } else {
                n
            },
            None => n,
        };
        let it = ReturnIterator(self.0, Some(limit));
        assert(it.remaining() =~= bounded(self.remaining(), Some(n)));
        it
    }
}

impl<Y, R, G> ReturnIterator<Callable<G>> where G: Generator<Yield = Y, Return = R>, R: Into<Y> {
    /// Produces the next value: an intermediate one, or the converted final
    /// value when the computation completes; `None` after that or once the
    /// limit is reached. The handle is stepped once, unless the limit is
    /// reached.
    pub fn next(&mut self) -> (r: Option<Y>)
        requires
            old(self).wf(),
        ensures
            final(self).wf(),
            old(self).remaining().len() > 0 ==> {
                &&& r is Some
                &&& final(self).remaining() == old(self).remaining().drop_first()
            },
            old(self).remaining().len() > 0 && (Self::converts() || old(self).source().pending().len()
                > 0) ==> r == Some(old(self).remaining()[0]),
            old(self).remaining().len() == 0 ==> r is None && final(self).remaining().len() == 0,
            old(self).limit() == Some(0usize) ==> {
                &&& final(self).source() == old(self).source()
                &&& final(self).limit() == old(self).limit()
            },
            old(self).limit() != Some(0usize) ==> {
                &&& stepped_once(old(self).source(), final(self).source())
                &&& final(self).limit() == after_one(old(self).limit())
            },
    {
        pull_all(&mut self.0, &mut self.1)
    }

    /// Drains the sequence into a vector: every value it has still to
    /// produce, the converted final value as its conversion is specified.
    pub fn to_vec(self) -> (v: Vec<Y>)
        requires
            self.wf(),
        ensures
            v@.len() == self.remaining().len(),
            forall|i: int|
                0 <= i < v@.len() && (Self::converts() || i < self.source().pending().len()) ==> v@[i]
                    == self.remaining()[i],
    {
        let mut it = self;
        drain_all(&mut it.0, it.1)
    }
}

impl<'a, Y, R, H> ReturnIterator<&'a mut H> where H: Senerator<Yield = Y, Return = R>, R: Into<Y> {
    /// Produces the next value: an intermediate one, or the converted final
    /// value when the computation completes; `None` after that or once the
    /// limit is reached. The handle is stepped once, unless the limit is
    /// reached.
    /// The lent handle is stepped in place.
    pub fn next(&mut self) -> (r: Option<Y>)
        requires
            old(self).wf(),
        ensures
            final(self).wf(),
            old(self).remaining().len() > 0 ==> {
                &&& r is Some
                &&& final(self).remaining() == old(self).remaining().drop_first()
            },
            old(self).remaining().len() > 0 && (Self::converts() || old(self).source().pending().len()
                > 0) ==> r == Some(old(self).remaining()[0]),
            old(self).remaining().len() == 0 ==> r is None && final(self).remaining().len() == 0,
            old(self).limit() == Some(0usize) ==> {
                &&& *final(self).source() == *old(self).source()
                &&& final(self).limit() == old(self).limit()
            },
            old(self).limit() != Some(0usize) ==> {
                &&& stepped_once(*old(self).source(), *final(self).source())
                &&& final(self).limit() == after_one(old(self).limit())
            },
            *final(final(self).source()) == *final(old(self).source()),
    {
        pull_all(&mut *self.0, &mut self.1)
    }

    /// Drains the sequence into a vector: every value it has still to
    /// produce, the converted final value as its conversion is specified.
    /// The lent handle is left where the sequence stopped.
    pub fn to_vec(self) -> (v: Vec<Y>)
        requires
            self.wf(),
        ensures
            v@.len() == self.remaining().len(),
            forall|i: int|
                0 <= i < v@.len() && (Self::converts() || i < self.source().pending().len()) ==> v@[i]
                    == self.remaining()[i],
            drained_to(*self.source(), *final(self.source()), self.limit()),
    {
        drain_all(self.0, self.1)
    }
}

} // verus!
