use crate::error::{ArithmeticError, EvalError};
use crate::number::Number;
use vstd::prelude::*;

verus! {

/// A binary arithmetic operator.
#[derive(Clone, Copy, Debug, PartialEq, Eq, Structural)]
pub enum Operation {
    Add,
    Subtract,
    Multiply,
    Divide,
    Power,
}

/// One arithmetic operation on two known operands, for the caller to carry
/// out in floating point: the sum, difference, product or quotient of `left`
/// and `right`, or `left` raised to the power `right`.
#[derive(Clone, Copy, Debug, PartialEq, Eq, Structural)]
pub struct Request {
    pub operation: Operation,
    pub left: Number,
    pub right: Number,
}

/// How far an evaluation that did not fail has come.
#[derive(Clone, Copy, Debug, PartialEq, Eq, Structural)]
pub enum Progress {
    /// The result.
    Done(Number),
    /// The evaluation stands at this operation and goes on once its answer
    /// has been added to the answers.
    Ask(Request),
}

/// The answer at position `at`, if that many answers have been given.
pub open spec fn answer_at(answers: Seq<Number>, at: nat) -> Option<Number> {
    if at < answers.len() {
        Some(answers[at as int])
    } else {
        None
    }
}

impl Operation {
    /// Whether the operation has no result on this right operand: a division
    /// by a number that compares equal to zero.
    pub open spec fn rejects(self, right: Number) -> bool {
        self == Operation::Divide && right.is_zero()
    }

    /// What applying the operation comes to, given the answer of the
    /// arithmetic where there is one.
    pub open spec fn spec_apply(self, left: Number, right: Number, answer: Option<Number>) -> Result<
        Progress,
        ArithmeticError,
    > {
        if self.rejects(right) {
            Err(ArithmeticError::DivisionByZero)
        } else {
            match answer {
                Some(result) => Ok(Progress::Done(result)),
                None => Ok(Progress::Ask(Request { operation: self, left, right })),
            }
        }
    }

    /// What applying the operation comes to when the answers are read from
    /// position `at`, and the position to read from next: one further where
    /// an answer was used.
    pub open spec fn spec_resume(self, left: Number, right: Number, answers: Seq<Number>, at: nat) -> (
        Result<Progress, EvalError>,
        nat,
    ) {
        match self.spec_apply(left, right, answer_at(answers, at)) {
            Ok(Progress::Done(result)) => (Ok(Progress::Done(result)), at + 1),
            Ok(Progress::Ask(request)) => (Ok(Progress::Ask(request)), at),
            Err(error) => (Err(EvalError::Arithmetic(error)), at),
        }
    }

    /// Applies the operation to two operands.
    ///
    /// A division by zero fails, whatever `answer` holds: the divisor is
    /// compared exactly, and both zeros count. Otherwise the result is
    /// `answer` where the arithmetic has been carried out, and else the
    /// request to carry it out on these operands, in this order.
    pub fn apply(&self, left: Number, right: Number, answer: Option<Number>) -> (outcome: Result<
        Progress,
        ArithmeticError,
    >)
        ensures
            outcome == self.spec_apply(left, right, answer),
            outcome is Err <==> self == Operation::Divide && right.is_zero(),
    {
        if matches!(self, Operation::Divide) && right.is_zero() {
            return Err(ArithmeticError::DivisionByZero);
        }
        match answer {
            Some(result) => Ok(Progress::Done(result)),
            None => Ok(Progress::Ask(Request { operation: *self, left, right })),
        }
    }

    /// Applies the operation with the answer at position `at` of `answers`,
    /// if there is one, and returns the position to read from next.
    pub fn resume(&self, left: Number, right: Number, answers: &Vec<Number>, at: usize) -> (turn: (
        Result<Progress, EvalError>,
        usize,
    ))
        ensures
            turn.0 == self.spec_resume(left, right, answers@, at as nat).0,
            turn.1 == self.spec_resume(left, right, answers@, at as nat).1,
            at <= turn.1,
            turn.1 <= answers.len() || turn.1 == at,
    {
        let answer = if at < answers.len() {
            Some(answers[at])
        } else {
            None
        };
        match self.apply(left, right, answer) {
            Ok(Progress::Done(result)) => (Ok(Progress::Done(result)), at + 1),
            Ok(Progress::Ask(request)) => (Ok(Progress::Ask(request)), at),
            Err(error) => (Err(EvalError::Arithmetic(error)), at),
        }
    }
}

} // verus!
