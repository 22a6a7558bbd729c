use crate::error::EvalError;
use crate::number::Number;
use crate::operation::{Operation, Progress};
use vstd::prelude::*;

verus! {

/// A closed expression: a number, or an operation on two closed expressions.
/// No variable occurs in it, so it is evaluated without bindings.
#[derive(Debug, PartialEq, Eq)]
pub enum Value {
    Literal(Number),
    Calculation { left: Box<Value>, right: Box<Value>, operation: Operation },
}

impl Value {
    /// The evaluation of the expression with the answers read from position
    /// `at`, and the position to read from next.
    ///
    /// A literal is its number. A calculation evaluates its left operand,
    /// then its right operand, then applies its operation to the two
    /// results; each operation that is applied uses the next answer. The
    /// first operand that fails, or that stands at an operation without an
    /// answer, ends the evaluation: the failure is wrapped after the side it
    /// came from, the request is handed on as it is.
    pub open spec fn spec_get_from(self, answers: Seq<Number>, at: nat) -> (Result<Progress, EvalError>, nat)
        decreases self,
    {
        match self {
            Value::Literal(number) => (Ok(Progress::Done(number)), at),
            Value::Calculation { left, right, operation } => {
                let l = left.spec_get_from(answers, at);
                match l.0 {
                    Err(error) => (Err(EvalError::LeftSide(Box::new(error))), l.1),
                    Ok(Progress::Ask(request)) => (Ok(Progress::Ask(request)), l.1),
                    Ok(Progress::Done(a)) => {
                        let r = right.spec_get_from(answers, l.1);
                        match r.0 {
                            Err(error) => (Err(EvalError::RightSide(Box::new(error))), r.1),
                            Ok(Progress::Ask(request)) => (Ok(Progress::Ask(request)), r.1),
                            Ok(Progress::Done(b)) => operation.spec_resume(a, b, answers, r.1),
                        }
                    },
                }
            },
        }
    }

    /// The evaluation of the expression with the given answers.
    pub open spec fn spec_get(self, answers: Seq<Number>) -> Result<Progress, EvalError> {
        self.spec_get_from(answers, 0).0
    }

    /// Evaluates the expression with the answers read from position `at`,
    /// and returns with the outcome the position to read from next.
    pub fn get_from(&self, answers: &Vec<Number>, at: usize) -> (turn: (Result<Progress, EvalError>, usize))
        ensures
            turn.0 == self.spec_get_from(answers@, at as nat).0,
            turn.1 == self.spec_get_from(answers@, at as nat).1,
            at <= turn.1,
            turn.1 <= answers.len() || turn.1 == at,
        decreases self,
    {
        match self {
            Value::Literal(number) => (Ok(Progress::Done(*number)), at),
            Value::Calculation { left, right, operation } => {
                let (l, mid) = left.get_from(answers, at);
                match l {
                    Err(error) => (Err(EvalError::LeftSide(Box::new(error))), mid),
                    Ok(Progress::Ask(request)) => (Ok(Progress::Ask(request)), mid),
                    Ok(Progress::Done(a)) => {
                        let (r, end) = right.get_from(answers, mid);
                        match r {
                            Err(error) => (Err(EvalError::RightSide(Box::new(error))), end),
                            Ok(Progress::Ask(request)) => (Ok(Progress::Ask(request)), end),
                            Ok(Progress::Done(b)) => operation.resume(a, b, answers, end),
                        }
                    },
                }
            },
        }
    }

    /// Evaluates the expression as far as `answers` reach.
    ///
    /// `answers` holds, in the order in which they were asked for, the
    /// results of the operations that earlier calls on the same expression
    /// returned as `Ask`. The outcome is the expression's number, the first
    /// failure in evaluation order, or the next operation to carry out.
    pub fn get(&self, answers: &Vec<Number>) -> (outcome: Result<Progress, EvalError>)
        ensures
            outcome == self.spec_get(answers@),
    {
        self.get_from(answers, 0).0
    }
}

} // verus!
