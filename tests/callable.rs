use gen_chain::gen::{Callable, Chain, Futerator, Generator, Senerator, State};
use gen_chain::iter::{ReturnIterExt, YieldIterExt};
use gen_chain::script::Script;
use std::cell::Cell;

fn chars_then_99() -> Script<char, u8> {
    let chars: Vec<char> = (0..5u8).map(|i| i as char).collect();
    Script::new(chars, 99)
}

#[test]
fn test_generator_into_iterator() {
    let mut callable = Callable::new(chars_then_99());

    {
        let mut g = (&mut callable).iter_all().take(4);
        assert_eq!(g.next(), Some(0 as char));
        assert_eq!(g.next(), Some(1 as char));
        assert_eq!(g.next(), Some(2 as char));
        assert_eq!(g.next(), Some(3 as char));
        assert_eq!(g.next(), None);
    }

    let mut resumed = callable.iter_all();
    assert_eq!(resumed.next(), Some(4 as char));
    assert_eq!(resumed.next(), Some('c'));
    assert_eq!(resumed.next(), None);
}

#[test]
fn test_chain() {
    let generator = Callable::new(Script::new(vec![1, 2], 3));

    let chain_once = generator.chain(|input: i32| Script::new(vec![input * 2], input)).unwrap();

    let chain_twice = chain_once
        .chain(|input: i32| {
            let first = input * 10;
            let input = input * 10;
            Script::new(vec![first], input - 1)
        })
        .unwrap();

    let mut iter = chain_twice.iter_all();

    assert_eq!(iter.next(), Some(1));
    assert_eq!(iter.next(), Some(2));
    assert_eq!(iter.next(), Some(6));

    assert_eq!(iter.next(), Some(30));
    assert_eq!(iter.next(), Some(29));
    assert_eq!(iter.next(), None);
}

#[test]
fn make_new() {
    let mut generator = Callable::new(Script::new((0..10).collect(), 2));

    {
        let mut iter = generator
            .borrow_mut(|gen| {
                Chain::new(Script::new(Vec::new(), 0), move |_: i32| {
                    let sum: i32 = gen.iter_all().take(3).to_vec().iter().sum();
                    Script::new((0..sum).collect(), 0)
                })
            })
            .unwrap()
            .iter_all();

        assert_eq!(iter.next(), Some(0));
        assert_eq!(iter.next(), Some(1));
        assert_eq!(iter.next(), Some(2));
        assert_eq!(iter.next(), Some(0));
        assert_eq!(iter.next(), None);
    }

    let mut iter = generator.iter_all();
    assert_eq!(iter.next(), Some(3));
    assert_eq!(iter.next(), Some(4));
    assert_eq!(iter.next(), Some(5));
    assert_eq!(iter.next(), Some(6));
    assert_eq!(iter.next(), Some(7));
    assert_eq!(iter.next(), Some(8));
    assert_eq!(iter.next(), Some(9));
    assert_eq!(iter.next(), Some(2));
}

#[test]
fn borrow_mut_builder_draws_only_when_stepped() {
    let mut generator = Callable::new(Script::new((0..10).collect(), 2));
    {
        let mut built = generator
            .borrow_mut(|gen| {
                Chain::new(Script::new(Vec::new(), 0), move |_: i32| {
                    let sum: i32 = gen.iter_all().take(3).to_vec().iter().sum();
                    Script::new((0..sum).collect(), 0)
                })
            })
            .unwrap();
        assert!(matches!(built.resume_with_yield(), Some(State::Yield(0))));
    }
    assert_eq!(generator.iter_yielded().to_vec(), vec![3, 4, 5, 6, 7, 8, 9]);

    let mut untouched = Callable::new(Script::new((0..10).collect(), 2));
    {
        let _built = untouched
            .borrow_mut(|gen| {
                Chain::new(Script::new(Vec::new(), 0), move |_: i32| {
                    let sum: i32 = gen.iter_all().take(3).to_vec().iter().sum();
                    Script::new((0..sum).collect(), 0)
                })
            })
            .unwrap();
    }
    assert_eq!(untouched.iter_all().to_vec(), vec![0, 1, 2, 3, 4, 5, 6, 7, 8, 9, 2]);
}

#[test]
fn completed_wrapper_stays_exhausted() {
    let mut c = Callable::new(Script::new(vec![7u32], 8u32));
    assert!(matches!(c.resume_with_yield(), Some(State::Yield(7))));
    assert!(matches!(c.resume_with_yield(), Some(State::Return(8))));
    for _ in 0..3 {
        assert!(c.resume_with_yield().is_none());
        assert!(c.resume().is_none());
    }
    assert!(c.take().is_none());
    assert!(c.as_mut().is_none());
}

#[test]
fn single_result_view_hides_intermediate_values() {
    let mut c = Callable::new(Script::new(vec!['a', 'b'], 5u64));
    assert!(matches!(c.resume(), Some(State::Yield(()))));
    assert!(matches!(c.resume(), Some(State::Yield(()))));
    assert!(matches!(c.resume(), Some(State::Return(5))));
    assert!(c.resume().is_none());
}

#[test]
fn borrowed_handle_steps_the_wrapper() {
    let mut c = Callable::new(Script::new(vec![1, 2], 3));
    {
        let h = &mut c;
        assert!(matches!(h.resume_with_yield(), Some(State::Yield(1))));
        assert!(matches!(h.resume(), Some(State::Yield(()))));
    }
    assert!(matches!(c.resume_with_yield(), Some(State::Return(3))));
    assert!(c.resume_with_yield().is_none());
}

#[test]
fn yield_only_sequence_drops_final_value() {
    let c = Callable::new(Script::new(vec![0, 1, 2, 3, 4], 99));
    let mut it = c.iter_yielded();
    for expected in 0..5 {
        assert_eq!(it.next(), Some(expected));
    }
    assert_eq!(it.next(), None);
    assert_eq!(it.next(), None);
}

#[test]
fn sequences_collect_in_order() {
    let c = Callable::new(Script::new(vec![0, 1, 2, 3, 4], 99));
    assert_eq!(c.iter_yielded().to_vec(), vec![0, 1, 2, 3, 4]);
    let c = Callable::new(Script::new(vec![0, 1, 2, 3, 4], 99));
    assert_eq!(c.iter_all().to_vec(), vec![0, 1, 2, 3, 4, 99]);
}

#[test]
fn final_value_is_converted() {
    let c = Callable::new(Script::new(vec![1u64, 2], 3u8));
    assert_eq!(c.iter_all().to_vec(), vec![1u64, 2, 3]);
}

#[test]
fn computation_without_intermediate_values() {
    let c = Callable::new(Script::new(Vec::<i64>::new(), -4));
    assert_eq!(c.iter_yielded().to_vec(), Vec::<i64>::new());
    let c = Callable::new(Script::new(Vec::<i64>::new(), -4));
    assert_eq!(c.iter_all().to_vec(), vec![-4]);
}

#[test]
fn limited_view_then_fresh_view_resumes() {
    let mut c = Callable::new(Script::new(vec![10, 20, 30, 40, 50], 0));
    let first = (&mut c).iter_yielded().take(2).to_vec();
    assert_eq!(first, vec![10, 20]);
    let rest = c.iter_all().to_vec();
    assert_eq!(rest, vec![30, 40, 50, 0]);
}

#[test]
fn limited_view_of_zero_does_not_step() {
    let mut c = Callable::new(Script::new(vec![1, 2], 3));
    {
        let mut it = (&mut c).iter_all().take(0);
        assert_eq!(it.next(), None);
        assert_eq!(it.next(), None);
    }
    assert_eq!(c.iter_all().to_vec(), vec![1, 2, 3]);
}

#[test]
fn limits_narrow() {
    let c = Callable::new(Script::new(vec![1, 2, 3, 4, 5], 6));
    assert_eq!(c.iter_all().take(4).take(2).to_vec(), vec![1, 2]);
    let c = Callable::new(Script::new(vec![1, 2, 3, 4, 5], 6));
    assert_eq!(c.iter_yielded().take(2).take(4).to_vec(), vec![1, 2]);
    let c = Callable::new(Script::new(vec![1, 2], 3));
    assert_eq!(c.iter_all().take(10).to_vec(), vec![1, 2, 3]);
}

#[test]
fn chain_yields_first_then_second() {
    let a = Callable::new(Script::new(vec![1, 2], 3));
    let c = a.chain(|v: i32| Script::new(vec![v * 100, v * 200], v + 1)).unwrap();
    assert_eq!(c.iter_all().to_vec(), vec![1, 2, 300, 600, 4]);
}

#[test]
fn chain_calls_transform_lazily_and_once() {
    let calls = Cell::new(0);
    let a = Callable::new(Script::new(vec![1], 2));
    let mut c = a
        .chain(|v: i32| {
            calls.set(calls.get() + 1);
            Script::new(vec![v], v)
        })
        .unwrap();
    assert_eq!(calls.get(), 0);
    assert!(matches!(c.resume_with_yield(), Some(State::Yield(1))));
    assert_eq!(calls.get(), 0);
    assert!(matches!(c.resume_with_yield(), Some(State::Yield(2))));
    assert_eq!(calls.get(), 1);
    assert!(matches!(c.resume_with_yield(), Some(State::Return(2))));
    assert!(c.resume_with_yield().is_none());
    assert_eq!(calls.get(), 1);
}

#[test]
fn chain_of_empty_second() {
    let a = Callable::new(Script::new(vec![5], 6));
    let c = a.chain(|v: i32| Script::new(Vec::new(), v * 2)).unwrap();
    assert_eq!(c.iter_all().to_vec(), vec![5, 12]);
}

#[test]
fn combinators_refuse_exhausted_wrapper() {
    let mut c = Callable::new(Script::new(Vec::<i32>::new(), 1));
    assert!(matches!(c.resume_with_yield(), Some(State::Return(1))));
    assert!(c.borrow_mut(|_w| Script::new(vec![0], 0)).is_none());

    let mut c = Callable::new(Script::new(Vec::<i32>::new(), 1));
    c.resume();
    assert!(c.chain(|v: i32| Script::new(vec![v], v)).is_none());

    let mut c = Callable::new(Script::new(Vec::<i32>::new(), 1));
    c.resume();
    assert!(c.move_into(|g| g).is_none());

    let mut c = Callable::new(Script::new(Vec::<i32>::new(), 1));
    c.resume();
    assert!(c.make_new(|_w| Script::new(vec![0], 0)).is_none());
}

#[test]
fn move_into_hands_over_the_computation() {
    let c = Callable::new(Script::new(vec![1, 2], 9));
    let moved = c
        .move_into(|g| Chain::new(g, |v: i32| Script::new(vec![v], -1)))
        .unwrap();
    assert_eq!(moved.iter_all().to_vec(), vec![1, 2, 9, -1]);
}

#[test]
fn make_new_hands_over_the_wrapper() {
    let c = Callable::new(Script::new(vec![4, 5, 6], 0));
    let built = c
        .make_new(|w| {
            let sum: i32 = w.iter_yielded().to_vec().iter().sum();
            Script::new(vec![sum], sum * 2)
        })
        .unwrap();
    assert_eq!(built.iter_all().to_vec(), vec![15, 30]);
}

#[test]
fn take_and_into_inner() {
    let mut c = Callable::new(Script::new(vec![1], 2));
    let g = c.take();
    assert!(g.is_some());
    assert!(c.take().is_none());
    assert!(c.resume().is_none());
    assert!(c.into_inner().is_none());

    let c = Callable::new(Script::new(vec![1], 2));
    let mut g = c.into_inner().unwrap();
    assert!(matches!(g.resume(), State::Yield(1)));
}

#[test]
fn as_mut_lends_the_computation() {
    let mut c = Callable::new(Script::new(vec![1, 2], 3));
    match c.as_mut() {
        Some(g) => assert!(matches!(g.resume(), State::Yield(1))),
        None => panic!("wrapper should be live"),
    }
    assert_eq!(c.iter_all().to_vec(), vec![2, 3]);
}

#[test]
fn state_into_option() {
    let y: State<char, u8> = State::Yield('x');
    assert_eq!(y.into(), Some('x'));
    let r: State<char, u8> = State::Return(99);
    assert_eq!(r.into(), Some('c'));
}
