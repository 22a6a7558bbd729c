use crate::bindings::Bindings;
use crate::error::EvalError;
use crate::number::Number;
use crate::operation::{Operation, Progress};
use crate::value::Value;
use vstd::prelude::*;

verus! {

/// An expression over variables: a variable, a closed expression, or an
/// operation on two expressions.
#[derive(Debug, PartialEq, Eq)]
pub enum FunctionTerm {
    Variable(char),
    Value(Value),
    Calculation { left: Box<FunctionTerm>, right: Box<FunctionTerm>, operation: Operation },
}

/// The literal of a small non-negative integer, as a term ready to stand as
/// an operand.
impl From<u32> for Box<FunctionTerm> {
    fn from(value: u32) -> (term: Self) {
        Box::new(FunctionTerm::Value(Value::Literal(Number::from_u32(value))))
    }
}

impl vstd::std_specs::convert::FromSpecImpl<u32> for Box<FunctionTerm> {
    open spec fn obeys_from_spec() -> bool {
        true
    }

    open spec fn from_spec(value: u32) -> Self {
        Box::new(FunctionTerm::Value(Value::Literal(Number::spec_from_u32(value))))
    }
}

impl FunctionTerm {
    /// Whether the variable `name` occurs in the term.
    pub open spec fn mentions(self, name: char) -> bool
        decreases self,
    {
        match self {
            FunctionTerm::Variable(variable) => variable == name,
            FunctionTerm::Value(_) => false,
            FunctionTerm::Calculation { left, right, .. } => left.mentions(name) || right.mentions(name),
        }
    }

    /// The evaluation of the term under `bindings` with the answers read
    /// from position `at`, and the position to read from next.
    ///
    /// A variable is the number bound to it, and fails where none is. A
    /// closed expression is evaluated as such. A calculation evaluates its
    /// left operand, then its right operand, then applies its operation to
    /// the two results; each operation that is applied uses the next answer.
    /// The first operand that fails, or that stands at an operation without
    /// an answer, ends the evaluation: the failure is wrapped after the side
    /// it came from, the request is handed on as it is.
    pub open spec fn spec_solve_from(self, bindings: Map<char, Number>, answers: Seq<Number>, at: nat) -> (
        Result<Progress, EvalError>,
        nat,
    )
        decreases self,
    {
        match self {
            FunctionTerm::Variable(variable) => if bindings.contains_key(variable) {
                (Ok(Progress::Done(bindings[variable])), at)
            } else {
                (Err(EvalError::UnboundVariable { variable }), at)
            },
            FunctionTerm::Value(value) => value.spec_get_from(answers, at),
            FunctionTerm::Calculation { left, right, operation } => {
                let l = left.spec_solve_from(bindings, answers, at);
                match l.0 {
                    Err(error) => (Err(EvalError::LeftSide(Box::new(error))), l.1),
                    Ok(Progress::Ask(request)) => (Ok(Progress::Ask(request)), l.1),
                    Ok(Progress::Done(a)) => {
                        let r = right.spec_solve_from(bindings, answers, l.1);
                        match r.0 {
                            Err(error) => (Err(EvalError::RightSide(Box::new(error))), r.1),
                            Ok(Progress::Ask(request)) => (Ok(Progress::Ask(request)), r.1),
                            Ok(Progress::Done(b)) => operation.spec_resume(a, b, answers, r.1),
                        }
                    },
                }
            },
        }
    }

    /// The evaluation of the term under `bindings` with the given answers.
    pub open spec fn spec_solve(self, bindings: Map<char, Number>, answers: Seq<Number>) -> Result<
        Progress,
        EvalError,
    > {
        self.spec_solve_from(bindings, answers, 0).0
    }

    /// Evaluates the term with the answers read from position `at`, and
    /// returns with the outcome the position to read from next.
    pub fn solve_from(&self, args: &Bindings, answers: &Vec<Number>, at: usize) -> (turn: (
        Result<Progress, EvalError>,
        usize,
    ))
        ensures
            turn.0 == self.spec_solve_from(args@, answers@, at as nat).0,
            turn.1 == self.spec_solve_from(args@, answers@, at as nat).1,
            at <= turn.1,
            turn.1 <= answers.len() || turn.1 == at,
        decreases self,
    {
        match self {
            FunctionTerm::Variable(variable) => match args.get(*variable) {
                Some(number) => (Ok(Progress::Done(number)), at),
                None => (Err(EvalError::UnboundVariable { variable: *variable }), at),
            },
            FunctionTerm::Value(value) => value.get_from(answers, at),
            FunctionTerm::Calculation { left, right, operation } => {
                let (l, mid) = left.solve_from(args, answers, at);
                match l {
                    Err(error) => (Err(EvalError::LeftSide(Box::new(error))), mid),
                    Ok(Progress::Ask(request)) => (Ok(Progress::Ask(request)), mid),
                    Ok(Progress::Done(a)) => {
                        let (r, end) = right.solve_from(args, answers, mid);
                        match r {
                            Err(error) => (Err(EvalError::RightSide(Box::new(error))), end),
                            Ok(Progress::Ask(request)) => (Ok(Progress::Ask(request)), end),
                            Ok(Progress::Done(b)) => operation.resume(a, b, answers, end),
                        }
                    },
                }
            },
        }
    }

    /// Evaluates the term under `args` as far as `answers` reach.
    ///
    /// `answers` holds, in the order in which they were asked for, the
    /// results of the operations that earlier calls on the same term and
    /// bindings returned as `Ask`. The outcome is the term's number, the
    /// first failure in evaluation order, or the next operation to carry
    /// out. A variable without a binding is a failure, not a panic.
    ///
    /// Every call walks the term from its root, so what an evaluation costs
    /// grows with the size of the term times the number of its operations.
    pub fn solve(&self, args: &Bindings, answers: &Vec<Number>) -> (outcome: Result<Progress, EvalError>)
        ensures
            outcome == self.spec_solve(args@, answers@),
    {
        self.solve_from(args, answers, 0).0
    }
}

} // verus!
