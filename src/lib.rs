//! Safe driving, chaining and iteration of resumable computations.
//!
//! A resumable computation (a [`gen::Generator`]) runs in steps: each step
//! either suspends with an intermediate value or completes with a final value,
//! after which it must never be resumed again. [`gen::Callable`] guards such a
//! computation so that no step can reach it after completion, and the adapters
//! of [`iter`] expose it as a pull-based sequence.

pub mod gen;
pub mod iter;
pub mod script;
pub mod trace;
