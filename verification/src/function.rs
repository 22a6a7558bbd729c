use crate::bindings::Bindings;
use crate::error::{DeclarationError, EvalError};
use crate::number::Number;
use crate::operation::Progress;
use crate::term::FunctionTerm;
use crate::value::Value;
use vstd::prelude::*;

verus! {

/// A function of named variables: its parameters, in the order in which
/// positional values are bound to them, and the term that is its body.
///
/// A function is made with its parameters and a body that is the literal
/// zero. The body proper is built with `variable`, which admits declared
/// names only, and then stored in `term`.
#[derive(Debug)]
pub struct Function {
    pub arguments: Vec<char>,
    pub term: FunctionTerm,
}

/// The bindings of the first `count` parameters to the first `count` values,
/// made in that order: where a name stands twice, its later value stays.
pub open spec fn bound_in_order(arguments: Seq<char>, values: Seq<Number>, count: nat) -> Map<char, Number>
    decreases count,
{
    if count == 0 {
        Map::empty()
    } else {
        bound_in_order(arguments, values, (count - 1) as nat).insert(
            arguments[count - 1],
            values[count - 1],
        )
    }
}

/// The number of pairs when parameters and values are paired off from the
/// front: the length of the shorter of the two.
pub open spec fn paired(arguments: Seq<char>, values: Seq<Number>) -> nat {
    if arguments.len() <= values.len() {
        arguments.len()
    } else {
        values.len()
    }
}

/// The bindings of parameters to values by position. What is left over of
/// the longer sequence is bound to nothing.
pub open spec fn positional(arguments: Seq<char>, values: Seq<Number>) -> Map<char, Number> {
    bound_in_order(arguments, values, paired(arguments, values))
}

impl Function {
    /// Whether every variable of the body is a declared parameter.
    pub open spec fn well_formed(self) -> bool {
        forall|name: char| #[trigger] self.term.mentions(name) ==> self.arguments@.contains(name)
    }

    /// The term that refers to `name`, where the function declares it.
    pub open spec fn spec_variable(self, name: char) -> Result<Box<FunctionTerm>, DeclarationError> {
        if self.arguments@.contains(name) {
            Ok(Box::new(FunctionTerm::Variable(name)))
        } else {
            Err(DeclarationError::NoSuchVariable { variable: name })
        }
    }

    /// The evaluation of the body under `bindings` with the given answers.
    pub open spec fn spec_solve_for(self, bindings: Map<char, Number>, answers: Seq<Number>) -> Result<
        Progress,
        EvalError,
    > {
        self.term.spec_solve(bindings, answers)
    }

    /// The evaluation of the body with `values` bound to the parameters by
    /// position.
    pub open spec fn spec_solve_args_in_order(self, values: Seq<Number>, answers: Seq<Number>) -> Result<
        Progress,
        EvalError,
    > {
        self.spec_solve_for(positional(self.arguments@, values), answers)
    }

    /// A function of the given parameters whose body is the literal zero.
    pub fn new(arguments: Vec<char>) -> (function: Function)
        ensures
            function.arguments == arguments,
            function.term == FunctionTerm::Value(Value::Literal(Number { bits: 0 })),
            function.well_formed(),
    {
        Function { arguments, term: FunctionTerm::Value(Value::Literal(Number { bits: 0 })) }
    }

    /// The term that refers to the parameter `name`, or `NoSuchVariable`
    /// where the function declares no such parameter.
    pub fn variable(&self, name: char) -> (term: Result<Box<FunctionTerm>, DeclarationError>)
        ensures
            term == self.spec_variable(name),
            term is Ok <==> self.arguments@.contains(name),
    {
        let mut index: usize = 0;
        while index < self.arguments.len()
            invariant
                index <= self.arguments.len(),
                forall|i: int| 0 <= i < index ==> self.arguments@[i] != name,
            decreases self.arguments.len() - index,
        {
            if self.arguments[index] == name {
                return Ok(Box::new(FunctionTerm::Variable(name)));
            }
            index = index + 1;
        }
        Err(DeclarationError::NoSuchVariable { variable: name })
    }

    /// Evaluates the body under `args` as far as `answers` reach: see
    /// `FunctionTerm::solve`. That `args` binds a parameter is not checked
    /// before the evaluation comes to a variable that needs it.
    pub fn solve_for(&self, args: &Bindings, answers: &Vec<Number>) -> (outcome: Result<Progress, EvalError>)
        ensures
            outcome == self.spec_solve_for(args@, answers@),
    {
        self.term.solve(args, answers)
    }

    /// Evaluates the body with the values of `in_order` bound to the
    /// parameters by position, as far as `answers` reach.
    ///
    /// The first value goes to the first parameter, and so on to the end of
    /// the shorter of the two sequences. Parameters beyond it stay unbound,
    /// and values beyond it are not used; neither is a failure by itself.
    pub fn solve_args_in_order(&self, in_order: &Vec<Number>, answers: &Vec<Number>) -> (outcome: Result<
        Progress,
        EvalError,
    >)
        ensures
            outcome == self.spec_solve_args_in_order(in_order@, answers@),
    {
        let mut args = Bindings::new();
        let mut index: usize = 0;
        while index < self.arguments.len() && index < in_order.len()
            invariant
                index <= self.arguments.len(),
                index <= in_order.len(),
                args@ == bound_in_order(self.arguments@, in_order@, index as nat),
            decreases self.arguments.len() - index,
        {
            args.insert(self.arguments[index], in_order[index]);
            index = index + 1;
        }
        self.solve_for(&args, answers)
    }
}

} // verus!
