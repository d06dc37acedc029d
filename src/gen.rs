use vstd::prelude::*;
use vstd::std_specs::convert::IntoSpec;

verus! {

/// The outcome of advancing a computation by one step.
#[derive(Debug)]
pub enum State<Y, R> {
    /// The computation suspended with an intermediate value.
    Yield(Y),
    /// The computation completed with its final value.
    Return(R),
}

/// The intermediate value that a final value converts to.
pub open spec fn converted<Y, R: Into<Y>>(v: R) -> Y {
    v.into_spec()
}

impl<Y, R: Into<Y>> State<Y, R> {
    /// The value a step produced, a final value converted to the type of the
    /// intermediate ones.
    pub fn into(self) -> (r: Option<Y>)
        ensures
            self matches State::Yield(y) ==> r == Some(y),
            self is Return ==> r is Some,
            self matches State::Return(v) ==> (R::obeys_into_spec() ==> r == Some(converted::<Y, R>(v))),
    {
        match self {
            State::Yield(value) => Some(value),
            State::Return(value) => Some(value.into()),
        }
    }
}

/// A resumable computation: the primitive that the rest of the library guards.
///
/// Its behaviour is described by the intermediate values it has still to
/// produce (`rest`), the final value it will complete with (`outcome`), and
/// whether it has already completed (`spent`). Resuming a spent computation is
/// forbidden.
pub trait Generator {
    type Yield;
    type Return;

    /// The intermediate values still to come, in order.
    spec fn rest(&self) -> Seq<Self::Yield>;

    /// The final value, produced once every intermediate value has come.
    spec fn outcome(&self) -> Self::Return;

    /// Whether the computation has completed already.
    spec fn spent(&self) -> bool;

    /// Advances the computation by exactly one suspension point.
    fn resume(&mut self) -> (s: State<Self::Yield, Self::Return>)
        requires
            !old(self).spent(),
        ensures
            old(self).rest().len() > 0 ==> {
                &&& s == State::<Self::Yield, Self::Return>::Yield(old(self).rest()[0])
                &&& !final(self).spent()
                &&& final(self).rest() == old(self).rest().drop_first()
                &&& final(self).outcome() == old(self).outcome()
            },
            old(self).rest().len() == 0 ==> {
                &&& s == State::<Self::Yield, Self::Return>::Return(old(self).outcome())
                &&& final(self).spent()
            },
    ;
}

/// What a step of a [`Futerator`] reports: `None` once exhausted.
pub type Futor<R> = Option<State<(), R>>;

/// What a step of a [`Senerator`] reports: `None` once exhausted.
pub type Senor<Y, R> = Option<State<Y, R>>;

/// A handle that can be polled until its computation completes.
///
/// Intermediate values are reported only as `Yield(())`; the final value is
/// reported once, after which every step returns `None`.
pub trait Futerator {
    type Return;

    /// The handle is in a state in which stepping it is allowed.
    spec fn safe(&self) -> bool;

    /// The handle still holds a computation that has not completed.
    spec fn live(&self) -> bool;

    /// How many intermediate values the live computation has still to produce.
    spec fn steps_left(&self) -> nat;

    /// The final value the live computation will complete with.
    spec fn final_value(&self) -> Self::Return;

    /// Advances the computation by one step, hiding intermediate values.
    fn resume(&mut self) -> (r: Futor<Self::Return>)
        requires
            old(self).safe(),
        ensures
            final(self).safe(),
            !old(self).live() ==> r is None && !final(self).live(),
            old(self).live() && old(self).steps_left() > 0 ==> {
                &&& r == Some(State::<(), Self::Return>::Yield(()))
                &&& final(self).live()
                &&& final(self).steps_left() == old(self).steps_left() - 1
                &&& final(self).final_value() == old(self).final_value()
            },
            old(self).live() && old(self).steps_left() == 0 ==> {
                &&& r == Some(State::<(), Self::Return>::Return(old(self).final_value()))
                &&& !final(self).live()
            },
    ;
}

/// A handle that reports every intermediate value as well as the final one.
pub trait Senerator: Futerator {
    type Yield;

    /// The intermediate values the live computation has still to produce.
    spec fn pending(&self) -> Seq<Self::Yield>;

    /// Advances the computation by one step, reporting what it produced.
    fn resume_with_yield(&mut self) -> (r: Senor<Self::Yield, Self::Return>)
        requires
            old(self).safe(),
        ensures
            final(self).safe(),
            !old(self).live() ==> r is None && !final(self).live(),
            old(self).live() && old(self).pending().len() > 0 ==> {
                &&& r == Some(State::<Self::Yield, Self::Return>::Yield(old(self).pending()[0]))
                &&& final(self).live()
                &&& final(self).pending() == old(self).pending().drop_first()
                &&& final(self).final_value() == old(self).final_value()
            },
            old(self).live() && old(self).pending().len() == 0 ==> {
                &&& r == Some(State::<Self::Yield, Self::Return>::Return(old(self).final_value()))
                &&& !final(self).live()
            },
    ;
}

/// A safe wrapper around a computation.
///
/// Once the computation has completed, the wrapper has dropped it, so it is
/// never resumed again: every further step returns `None`.
pub struct Callable<G>(Option<G>);

impl<G> Callable<G> {
    /// The computation held by the wrapper, if any.
    pub closed spec fn slot(&self) -> Option<G> {
        self.0
    }

    /// Wraps a computation that has not completed yet.
    pub fn new(g: G) -> (c: Self)
        ensures
            c.slot() == Some(g),
    {
        Callable(Some(g))
    }

    /// Consumes the wrapper and hands out its computation, unless it has
    /// completed already.
    pub fn into_inner(self) -> (r: Option<G>)
        ensures
            r == self.slot(),
    {
        self.0
    }

    /// Takes the computation out, leaving the wrapper empty.
    pub fn take(&mut self) -> (r: Option<G>)
        ensures
            r == old(self).slot(),
            final(self).slot() is None,
    {
        self.0.take()
    }

    /// Lends the computation out, unless it has completed already.
    pub fn as_mut(&mut self) -> (r: Option<&mut G>)
        ensures
            old(self).slot() is None ==> r is None && final(self).slot() is None,
            old(self).slot() is Some ==> {
                &&& r is Some
                &&& *r->0 == old(self).slot()->0
                &&& final(self).slot() == Some(*final(r->0))
            },
    {
        self.0.as_mut()
    }
}

impl<G: Generator> Callable<G> {
    /// The wrapper holds no computation that has completed.
    pub open spec fn wf(&self) -> bool {
        self.slot() matches Some(g) ==> !g.spent()
    }

    /// Chains a second computation, built by `g` from the final value of this
    /// one. The new wrapper yields every intermediate value of this
    /// computation, then every one of the second, and completes with the final
    /// value of the second. `g` is called only when this computation completes.
    /// Returns `None` if this computation has completed already.
    pub fn chain<O, F>(self, g: F) -> (r: Option<Callable<Chain<G, F, O>>>) where
        F: FnOnce(G::Return) -> O,
        O: Generator<Yield = G::Yield, Return = G::Return>,

        requires
            self.wf(),
            sound_transform(g),
        ensures
            r is Some <==> self.live(),
            r matches Some(c) ==> {
                &&& c.wf()
                &&& c.safe()
                &&& c.live()
                &&& c.pending() == self.pending() + built_from(g, self.final_value()).rest()
                &&& c.final_value() == built_from(g, self.final_value()).outcome()
            },
    {
        match self.into_inner() {
            Some(generator) => Some(Callable::new(Chain::new(generator, g))),
            None => None,
        }
    }

    /// Hands the computation to `func`, which builds a new one from it.
    /// Returns `None` if this computation has completed already.
    pub fn move_into<O, F>(self, func: F) -> (r: Option<Callable<O>>) where
        F: FnOnce(G) -> O,
        O: Generator,

        requires
            self.wf(),
            self.slot() matches Some(g) ==> func.requires((g,)) && forall|o: O|
                #[trigger] func.ensures((g,), o) ==> !o.spent(),
        ensures
            r is Some <==> self.live(),
            r matches Some(c) ==> {
                &&& c.wf()
                &&& c.safe()
                &&& c.live()
                &&& func.ensures((self.slot()->0,), c.slot()->0)
            },
    {
        match self.into_inner() {
            Some(generator) => Some(Callable::new(func(generator))),
            None => None,
        }
    }

    /// Hands the whole wrapper to `func`, which builds a new computation that
    /// may drive it. Returns `None` if this computation has completed already.
    pub fn make_new<O, F>(self, func: F) -> (r: Option<Callable<O>>) where
        F: FnOnce(Self) -> O,
        O: Generator,

        requires
            self.wf(),
            self.live() ==> func.requires((self,)) && forall|o: O|
                #[trigger] func.ensures((self,), o) ==> !o.spent(),
        ensures
            r is Some <==> self.live(),
            r matches Some(c) ==> {
                &&& c.wf()
                &&& c.safe()
                &&& c.live()
                &&& func.ensures((self,), c.slot()->0)
            },
    {
        if self.0.is_some() {
            return Some(Callable::new(func(self)));
        }
        None
    }

    /// Lends the wrapper to `func`, which builds a new computation that may
    /// drive it; the wrapper stays with its owner. Returns `None` if this
    /// computation has completed already, and leaves the wrapper untouched.
    ///
    /// `func` receives an exclusive reference to the wrapper as it stands; the
    /// contract speaks of every such reference, since each call lends a fresh
    /// one.
    pub fn borrow_mut<'a, 's: 'a, O, F>(&'s mut self, func: F) -> (r: Option<Callable<O>>) where
        F: FnOnce(&'a mut Self) -> O,
        O: Generator,

        requires
            old(self).wf(),
            old(self).live() ==> forall|m: &'a mut Self| *m == *old(self) ==> #[trigger] func.requires((m,)),
            old(self).live() ==> forall|m: &'a mut Self, o: O|
                *m == *old(self) && #[trigger] func.ensures((m,), o) ==> !o.spent(),
        ensures
            r is Some <==> old(self).live(),
            r matches Some(c) ==> {
                &&& c.wf()
                &&& c.safe()
                &&& c.live()
                &&& exists|m: &'a mut Self|
                    {
                        &&& *m == *old(self)
                        &&& #[trigger] func.ensures((m,), c.slot()->0)
                        &&& *final(m) == *final(self)
                    }
            },
            r is None ==> *final(self) == *old(self),
    {
        if self.0.is_some() {
            return Some(Callable::new(func(self)));
        }
        None
    }
}

impl<G: Generator> Futerator for Callable<G> {
    type Return = G::Return;

    open spec fn safe(&self) -> bool {
        self.wf()
    }

    open spec fn live(&self) -> bool {
        self.slot() is Some
    }

    open spec fn steps_left(&self) -> nat {
        self.slot()->0.rest().len()
    }

    open spec fn final_value(&self) -> G::Return {
        self.slot()->0.outcome()
    }

    /// Besides what every handle promises, the intermediate values still to
    /// come lose their first one on each suspension.
    fn resume(&mut self) -> (r: Futor<G::Return>)
        ensures
            old(self).slot() is Some && old(self).slot()->0.rest().len() > 0 ==> {
                final(self).slot()->0.rest() == old(self).slot()->0.rest().drop_first()
            },
    {
        let s = match self.as_mut() {
            Some(g) => g.resume(),
            None => return None,
        };
        match s {
            State::Yield(_) => Some(State::Yield(())),
            State::Return(v) => {
                self.take();
                Some(State::Return(v))
            },
        }
    }
}

impl<G: Generator> Senerator for Callable<G> {
    type Yield = G::Yield;

    open spec fn pending(&self) -> Seq<G::Yield> {
        self.slot()->0.rest()
    }

    fn resume_with_yield(&mut self) -> (r: Senor<G::Yield, G::Return>) {
        let s = match self.as_mut() {
            Some(g) => g.resume(),
            None => return None,
        };
        match s {
            State::Yield(y) => Some(State::Yield(y)),
            State::Return(v) => {
                self.take();
                Some(State::Return(v))
            },
        }
    }
}

impl<'a, G: Futerator> Futerator for &'a mut G {
    type Return = G::Return;

    open spec fn safe(&self) -> bool {
        (**self).safe()
    }

    open spec fn live(&self) -> bool {
        (**self).live()
    }

    open spec fn steps_left(&self) -> nat {
        (**self).steps_left()
    }

    open spec fn final_value(&self) -> G::Return {
        (**self).final_value()
    }

    /// Steps the lent handle in place: it ends where this reference ends.
    fn resume(&mut self) -> (r: Futor<G::Return>)
        ensures
            *final(*final(self)) == *final(*old(self)),
    {
        (**self).resume()
    }
}

impl<'a, G: Senerator> Senerator for &'a mut G {
    type Yield = G::Yield;

    open spec fn pending(&self) -> Seq<G::Yield> {
        (**self).pending()
    }

    /// Steps the lent handle in place: it ends where this reference ends.
    fn resume_with_yield(&mut self) -> (r: Senor<G::Yield, G::Return>)
        ensures
            *final(*final(self)) == *final(*old(self)),
    {
        (**self).resume_with_yield()
    }
}

/// The computation that `f` builds from the final value `r`.
///
/// `f` runs only when `r` is there, so this names whichever computation it
/// returns then; [`sound_transform`] asks that all of those behave alike.
pub open spec fn built_from<R, O, F: FnOnce(R) -> O>(f: F, r: R) -> O {
    choose|o: O| f.ensures((r,), o)
}

/// `f` may be called on every value, and for each value builds computations
/// that have not completed and that all behave alike.
pub open spec fn sound_transform<R, O: Generator, F: FnOnce(R) -> O>(f: F) -> bool {
    &&& forall|r: R| f.requires((r,))
    &&& forall|r: R, o: O| #[trigger] f.ensures((r,), o) ==> !o.spent()
    &&& forall|r: R, o1: O, o2: O|
        #![trigger f.ensures((r,), o1), f.ensures((r,), o2)]
        f.ensures((r,), o1) && f.ensures((r,), o2) ==> {
            &&& o1.rest() == o2.rest()
            &&& o1.outcome() == o2.outcome()
        }
}

/// Two computations run end to end: first `first`, then the one that `func`
/// builds from the final value of `first`.
pub struct Chain<G, F, O> {
    first: Option<G>,
    func: Option<F>,
    second: Option<O>,
}

impl<G, F, O> Chain<G, F, O> where
    G: Generator,
    F: FnOnce(G::Return) -> O,
    O: Generator<Yield = G::Yield, Return = G::Return>,
 {
    /// The first computation is running.
    pub closed spec fn in_first(&self) -> bool {
        &&& self.first matches Some(a) && !a.spent()
        &&& self.func matches Some(f) && sound_transform(f)
        &&& self.second is None
    }

    /// The second computation is running.
    pub closed spec fn in_second(&self) -> bool {
        &&& self.first is None
        &&& self.func is None
        &&& self.second matches Some(b) && !b.spent()
    }

    /// The computation that runs once the first has completed.
    pub closed spec fn successor(&self) -> O {
        if self.in_first() {
            built_from(self.func->0, self.first->0.outcome())
        } else {
            self.second->0
        }
    }

    /// Chains `g` and `f`; nothing runs until the chain is resumed.
    pub fn new(g: G, f: F) -> (c: Self)
        requires
            !g.spent(),
            sound_transform(f),
        ensures
            !c.spent(),
            c.rest() == g.rest() + built_from(f, g.outcome()).rest(),
            c.outcome() == built_from(f, g.outcome()).outcome(),
    {
        Chain { first: Some(g), func: Some(f), second: None }
    }

    /// Drives the second computation by one step.
    fn resume_second(b: O) -> (res: (State<G::Yield, G::Return>, Option<O>))
        requires
            !b.spent(),
        ensures
            b.rest().len() > 0 ==> {
                &&& res.0 == State::<G::Yield, G::Return>::Yield(b.rest()[0])
                &&& res.1 matches Some(nb) && !nb.spent() && nb.rest() == b.rest().drop_first()
                    && nb.outcome() == b.outcome()
            },
            b.rest().len() == 0 ==> {
                &&& res.0 == State::<G::Yield, G::Return>::Return(b.outcome())
                &&& res.1 is None
            },
    {
        let mut b = b;
        match b.resume() {
            State::Yield(y) => (State::Yield(y), Some(b)),
            State::Return(v) => (State::Return(v), None),
        }
    }
}

impl<G, F, O> Generator for Chain<G, F, O> where
    G: Generator,
    F: FnOnce(G::Return) -> O,
    O: Generator<Yield = G::Yield, Return = G::Return>,
 {
    type Yield = G::Yield;

    type Return = G::Return;

    closed spec fn rest(&self) -> Seq<G::Yield> {
        if self.in_first() {
            self.first->0.rest() + self.successor().rest()
        } else {
            self.second->0.rest()
        }
    }

    closed spec fn outcome(&self) -> G::Return {
        self.successor().outcome()
    }

    closed spec fn spent(&self) -> bool {
        !self.in_first() && !self.in_second()
    }

    fn resume(&mut self) -> (s: State<G::Yield, G::Return>) {
        let first = self.first.take();
        match first {
            Some(a) => {
                let mut a = a;
                let ghost f0 = self.func->0;
                let ghost next = built_from(f0, a.outcome());
                match a.resume() {
                    State::Yield(y) => {
                        self.first = Some(a);
                        assert(self.rest() =~= old(self).rest().drop_first());
                        State::Yield(y)
                    },
                    State::Return(v) => {
                        let f = self.func.take().unwrap();
                        let b = f(v);
                        assert(b.rest() == next.rest() && b.outcome() == next.outcome());
                        let (s, nb) = Self::resume_second(b);
                        self.second = nb;
                        proof {
                            if next.rest().len() > 0 {
                                assert(self.rest() =~= old(self).rest().drop_first());
                            }
                        }
                        s
                    },
                }
            },
            None => {
                let b = self.second.take().unwrap();
                let (s, nb) = Self::resume_second(b);
                self.second = nb;
                s
            },
        }
    }
}

} // verus!
