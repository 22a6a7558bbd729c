use crate::error::{ArithmeticError, EvalError};
use crate::number::Number;
use crate::operation::{Operation, Progress, Request};
use crate::term::FunctionTerm;
use crate::value::Value;
use vstd::prelude::*;

verus! {

/// An arithmetic: the answer to every request. It stands for the
/// floating-point unit that carries the requests out.
pub type Arithmetic = spec_fn(Request) -> Number;

/// The outcome of an evaluation that has come to its end with `result`.
pub open spec fn finished(result: Result<Number, EvalError>) -> Result<Progress, EvalError> {
    match result {
        Ok(number) => Ok(Progress::Done(number)),
        Err(error) => Err(error),
    }
}

impl Operation {
    /// The result of the operation under an arithmetic: the arithmetic's
    /// answer, but for a division by zero, which has none.
    pub open spec fn value_under(self, left: Number, right: Number, arithmetic: Arithmetic) -> Result<
        Number,
        EvalError,
    > {
        if self.rejects(right) {
            Err(EvalError::Arithmetic(ArithmeticError::DivisionByZero))
        } else {
            Ok(arithmetic(Request { operation: self, left, right }))
        }
    }

    /// The answers that applying the operation takes: one, or none where it
    /// fails.
    pub open spec fn answers_under(self, left: Number, right: Number, arithmetic: Arithmetic) -> Seq<
        Number,
    > {
        if self.rejects(right) {
            Seq::empty()
        } else {
            seq![arithmetic(Request { operation: self, left, right })]
        }
    }
}

impl Value {
    /// The number of operations in the expression.
    pub open spec fn operations(self) -> nat
        decreases self,
    {
        match self {
            Value::Literal(_) => 0,
            Value::Calculation { left, right, .. } => left.operations() + right.operations() + 1,
        }
    }

    /// The number that the expression denotes under an arithmetic, or its
    /// first failure: operands left before right, the operation last.
    pub open spec fn value_under(self, arithmetic: Arithmetic) -> Result<Number, EvalError>
        decreases self,
    {
        match self {
            Value::Literal(number) => Ok(number),
            Value::Calculation { left, right, operation } => match left.value_under(arithmetic) {
                Err(error) => Err(EvalError::LeftSide(Box::new(error))),
                Ok(a) => match right.value_under(arithmetic) {
                    Err(error) => Err(EvalError::RightSide(Box::new(error))),
                    Ok(b) => operation.value_under(a, b, arithmetic),
                },
            },
        }
    }

    /// The answers that evaluating the expression under an arithmetic
    /// takes, in the order in which they are asked for.
    pub open spec fn answers_under(self, arithmetic: Arithmetic) -> Seq<Number>
        decreases self,
    {
        match self {
            Value::Literal(_) => Seq::empty(),
            Value::Calculation { left, right, operation } => left.answers_under(arithmetic) + (
            match left.value_under(arithmetic) {
                Err(_) => Seq::empty(),
                Ok(a) => right.answers_under(arithmetic) + (match right.value_under(arithmetic) {
                    Err(_) => Seq::empty(),
                    Ok(b) => operation.answers_under(a, b, arithmetic),
                }),
            }),
        }
    }
}

impl FunctionTerm {
    /// The number of operations in the term.
    pub open spec fn operations(self) -> nat
        decreases self,
    {
        match self {
            FunctionTerm::Variable(_) => 0,
            FunctionTerm::Value(value) => value.operations(),
            FunctionTerm::Calculation { left, right, .. } => left.operations() + right.operations() + 1,
        }
    }

    /// The number that the term denotes under bindings and an arithmetic,
    /// or its first failure: operands left before right, the operation last.
    pub open spec fn value_under(self, bindings: Map<char, Number>, arithmetic: Arithmetic) -> Result<
        Number,
        EvalError,
    >
        decreases self,
    {
        match self {
            FunctionTerm::Variable(variable) => if bindings.contains_key(variable) {
                Ok(bindings[variable])
            } else {
                Err(EvalError::UnboundVariable { variable })
            },
            FunctionTerm::Value(value) => value.value_under(arithmetic),
            FunctionTerm::Calculation { left, right, operation } => match left.value_under(
                bindings,
                arithmetic,
            ) {
                Err(error) => Err(EvalError::LeftSide(Box::new(error))),
                Ok(a) => match right.value_under(bindings, arithmetic) {
                    Err(error) => Err(EvalError::RightSide(Box::new(error))),
                    Ok(b) => operation.value_under(a, b, arithmetic),
                },
            },
        }
    }

    /// The answers that evaluating the term under bindings and an
    /// arithmetic takes, in the order in which they are asked for.
    pub open spec fn answers_under(self, bindings: Map<char, Number>, arithmetic: Arithmetic) -> Seq<
        Number,
    >
        decreases self,
    {
        match self {
            FunctionTerm::Variable(_) => Seq::empty(),
            FunctionTerm::Value(value) => value.answers_under(arithmetic),
            FunctionTerm::Calculation { left, right, operation } => left.answers_under(
                bindings,
                arithmetic,
            ) + (match left.value_under(bindings, arithmetic) {
                Err(_) => Seq::empty(),
                Ok(a) => right.answers_under(bindings, arithmetic) + (match right.value_under(
                    bindings,
                    arithmetic,
                ) {
                    Err(_) => Seq::empty(),
                    Ok(b) => operation.answers_under(a, b, arithmetic),
                }),
            }),
        }
    }
}

/// Whether the answers from position `at` on are those of `log`, as far as
/// both reach.
pub open spec fn follows(answers: Seq<Number>, at: nat, log: Seq<Number>) -> bool {
    forall|i: int| 0 <= i < log.len() && at + i < answers.len() ==> answers[at + i] == log[i]
}

/// What an evaluation that takes the answers `log` under `arithmetic` and
/// ends with `result` comes to with the answers read from position `at`:
/// its end, one position further for each answer, where the answers reach;
/// else, with all answers read, the request whose answer is the first that
/// is missing.
pub open spec fn replays(
    turn: (Result<Progress, EvalError>, nat),
    answers: Seq<Number>,
    at: nat,
    log: Seq<Number>,
    result: Result<Number, EvalError>,
    arithmetic: Arithmetic,
) -> bool {
    if at + log.len() <= answers.len() {
        turn == (finished(result), at + log.len())
    } else {
        &&& turn.1 == answers.len()
        &&& turn.0 matches Ok(Progress::Ask(request))
        &&& arithmetic(request) == log[answers.len() - at]
    }
}

} // verus!
