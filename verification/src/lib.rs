//! A small evaluator of symbolic functions.
//!
//! A [`function::Function`] has named parameters and a body, a tree of
//! variables, numbers and binary operations. Evaluating it binds a number to
//! each variable and reduces the tree to one number, or to the first failure
//! in evaluation order: a division by zero, or a variable without a binding.
//!
//! Numbers are IEEE 754 doubles, held as bit patterns. The evaluator decides
//! everything but the arithmetic itself: the order of evaluation, what is
//! bound to what, where a failure arose, whether a divisor is zero. The
//! arithmetic is left to the caller. An evaluation that comes to an
//! operation returns it as a [`operation::Request`]; the caller carries it
//! out, adds the result to the answers, and evaluates again:
//!
//! ```text
//! let mut answers = Vec::new();
//! loop {
//!     match function.solve_args_in_order(&values, &answers)? {
//!         Progress::Done(number) => return Ok(number),
//!         Progress::Ask(request) => answers.push(carry_out(request)),
//!     }
//! }
//! ```
//!
//! Each call walks the body from its root and reads the answers in the order
//! in which they were asked for, so it is a function of its arguments alone.
//! The module [`semantics`] says what a term denotes under an arithmetic,
//! and [`laws`] proves that the loop above arrives there.

pub mod bindings;
pub mod error;
pub mod function;
pub mod laws;
pub mod number;
pub mod operation;
pub mod semantics;
pub mod term;
pub mod value;
