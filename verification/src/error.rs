use vstd::prelude::*;

verus! {

/// `String::push` of the standard library: the string afterwards is the
/// string before with the one character added at its end.
pub assume_specification[ String::push ](text: &mut String, ch: char)
    ensures
        final(text)@ == old(text)@.push(ch),
;

/// `String::push_str` of the standard library: the string afterwards is the
/// string before with the characters of the slice added at its end.
pub assume_specification[ String::push_str ](text: &mut String, string: &str)
    ensures
        final(text)@ == old(text)@ + string@,
;

/// Why an operation has no result.
#[derive(Clone, Copy, Debug, PartialEq, Eq, Structural)]
pub enum ArithmeticError {
    /// The right operand of a division was zero.
    DivisionByZero,
}

/// Why a term could not be built for a function.
#[derive(Clone, Copy, Debug, PartialEq, Eq, Structural)]
pub enum DeclarationError {
    /// The name is not one of the function's declared parameters.
    NoSuchVariable { variable: char },
}

/// Why an evaluation failed, and where in the tree.
///
/// The failure itself is `Arithmetic` or `UnboundVariable`. Every calculation
/// that the failure passes on its way up wraps it once, in `LeftSide` or
/// `RightSide` after the operand it came from, so that the outermost wrapper
/// belongs to the root of the tree.
#[derive(Debug, PartialEq, Eq)]
pub enum EvalError {
    /// An operation had no result.
    Arithmetic(ArithmeticError),
    /// A variable of the term has no binding.
    UnboundVariable { variable: char },
    /// The left operand of a calculation failed.
    LeftSide(Box<EvalError>),
    /// The right operand of a calculation failed.
    RightSide(Box<EvalError>),
}

impl ArithmeticError {
    /// The text of `message`.
    pub open spec fn spec_message(self) -> Seq<char> {
        "Cannot divide by zero!"@
    }

    /// The error in words.
    pub fn message(&self) -> (text: String)
        ensures
            text@ == self.spec_message(),
    {
        "Cannot divide by zero!".to_owned()
    }
}

impl DeclarationError {
    /// The text of `message`: it names the variable.
    pub open spec fn spec_message(self) -> Seq<char> {
        match self {
            DeclarationError::NoSuchVariable { variable } => "The variable "@.push(variable)
                + " does not exist for this function."@,
        }
    }

    /// The error in words.
    pub fn message(&self) -> (text: String)
        ensures
            text@ == self.spec_message(),
    {
        match self {
            DeclarationError::NoSuchVariable { variable } => {
                let mut text = "The variable ".to_owned();
                text.push(*variable);
                text.push_str(" does not exist for this function.");
                text
            },
        }
    }
}

impl EvalError {
    /// The text of `message`: that of the failure itself, or of the
    /// outermost wrapper round it.
    pub open spec fn spec_message(self) -> Seq<char> {
        match self {
            EvalError::Arithmetic(cause) => cause.spec_message(),
            EvalError::UnboundVariable { variable } => "The variable "@.push(variable)
                + " has no value in this evaluation."@,
            EvalError::LeftSide(_) => "Failed to solve the left hand side."@,
            EvalError::RightSide(_) => "Failed to solve the right hand side."@,
        }
    }

    /// The error in words. A wrapper says which side failed; what failed
    /// there is the message of `inner`.
    pub fn message(&self) -> (text: String)
        ensures
            text@ == self.spec_message(),
    {
        match self {
            EvalError::Arithmetic(cause) => cause.message(),
            EvalError::UnboundVariable { variable } => {
                let mut text = "The variable ".to_owned();
                text.push(*variable);
                text.push_str(" has no value in this evaluation.");
                text
            },
            EvalError::LeftSide(_) => "Failed to solve the left hand side.".to_owned(),
            EvalError::RightSide(_) => "Failed to solve the right hand side.".to_owned(),
        }
    }

    /// The failure without the wrappers round it.
    pub open spec fn spec_root(self) -> EvalError
        decreases self,
    {
        match self {
            EvalError::LeftSide(inner) => inner.spec_root(),
            EvalError::RightSide(inner) => inner.spec_root(),
            _ => self,
        }
    }

    /// The failure without the wrappers round it.
    pub fn root(&self) -> (root: &EvalError)
        ensures
            *root == self.spec_root(),
        decreases self,
    {
        match self {
            EvalError::LeftSide(inner) => inner.root(),
            EvalError::RightSide(inner) => inner.root(),
            _ => self,
        }
    }

    /// The failure one level down, where this one is a wrapper.
    pub fn inner(&self) -> (inner: Option<&EvalError>)
        ensures
            match *self {
                EvalError::LeftSide(e) => inner == Some(&*e),
                EvalError::RightSide(e) => inner == Some(&*e),
                _ => inner is None,
            },
    {
        match self {
            EvalError::LeftSide(inner) => Some(&**inner),
            EvalError::RightSide(inner) => Some(&**inner),
            _ => None,
        }
    }
}

} // verus!
