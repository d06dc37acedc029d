//! A computation written out in advance as an explicit state machine.
use crate::gen::{Generator, State};
use vstd::prelude::*;

verus! {

/// The elements of `stack`, last pushed first.
pub open spec fn popped_order<T>(stack: Seq<T>) -> Seq<T> {
    Seq::new(stack.len(), |i: int| stack[stack.len() - 1 - i])
}

/// A computation that yields given values in order, then completes with a
/// given final value.
pub struct Script<Y, R> {
    /// The values still to yield, the next one last.
    stack: Vec<Y>,
    /// The final value, until it has been produced.
    ret: Option<R>,
}

impl<Y, R> Script<Y, R> {
    /// A computation that yields `items` in order, then completes with `ret`.
    pub fn new(items: Vec<Y>, ret: R) -> (s: Self)
        ensures
            !s.spent(),
            s.rest() == items@,
            s.outcome() == ret,
    {
        let ghost all = items@;
        let mut items = items;
        let mut stack: Vec<Y> = Vec::new();
        while items.len() > 0
            invariant
                items@ + popped_order(stack@) == all,
            decreases items.len(),
        {
            let ghost before = popped_order(stack@);
            let x = items.pop().unwrap();
            stack.push(x);
            assert(popped_order(stack@) =~= seq![x] + before);
            assert(items@ + popped_order(stack@) =~= all);
        }
        assert(popped_order(stack@) =~= all);
        Script { stack, ret: Some(ret) }
    }
}

impl<Y, R> Generator for Script<Y, R> {
    type Yield = Y;

    type Return = R;

    closed spec fn rest(&self) -> Seq<Y> {
        popped_order(self.stack@)
    }

    closed spec fn outcome(&self) -> R {
        self.ret->0
    }

    closed spec fn spent(&self) -> bool {
        self.ret is None
    }

    fn resume(&mut self) -> (s: State<Y, R>) {
        match self.stack.pop() {
            Some(y) => {
                assert(self.rest() =~= old(self).rest().drop_first());
                State::Yield(y)
            },
            None => {
                let r = self.ret.take().unwrap();
                State::Return(r)
            },
        }
    }
}

} // verus!
