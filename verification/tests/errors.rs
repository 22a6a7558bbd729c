use symbolic_eval::error::{ArithmeticError, DeclarationError, EvalError};

fn division() -> EvalError {
    EvalError::Arithmetic(ArithmeticError::DivisionByZero)
}

#[test]
fn division_by_zero_in_words() {
    assert_eq!(ArithmeticError::DivisionByZero.message(), "Cannot divide by zero!");
    assert_eq!(division().message(), "Cannot divide by zero!");
}

#[test]
fn no_such_variable_in_words() {
    let error = DeclarationError::NoSuchVariable { variable: 'q' };
    assert_eq!(error.message(), "The variable q does not exist for this function.");
    let error = DeclarationError::NoSuchVariable { variable: 'λ' };
    assert_eq!(error.message(), "The variable λ does not exist for this function.");
}

#[test]
fn unbound_variable_in_words() {
    let error = EvalError::UnboundVariable { variable: 'x' };
    assert_eq!(error.message(), "The variable x has no value in this evaluation.");
}

#[test]
fn a_wrapper_names_its_side() {
    let left = EvalError::LeftSide(Box::new(division()));
    let right = EvalError::RightSide(Box::new(EvalError::UnboundVariable { variable: 'x' }));
    assert_eq!(left.message(), "Failed to solve the left hand side.");
    assert_eq!(right.message(), "Failed to solve the right hand side.");
}

#[test]
fn inner_steps_down_one_wrapper() {
    let error = EvalError::LeftSide(Box::new(EvalError::RightSide(Box::new(division()))));
    let first = error.inner().unwrap();
    assert_eq!(*first, EvalError::RightSide(Box::new(division())));
    let second = first.inner().unwrap();
    assert_eq!(*second, division());
    assert_eq!(second.inner(), None);
    assert_eq!(EvalError::UnboundVariable { variable: 'x' }.inner(), None);
}

#[test]
fn root_is_the_failure_itself() {
    let unbound = EvalError::UnboundVariable { variable: 'y' };
    assert_eq!(*unbound.root(), EvalError::UnboundVariable { variable: 'y' });
    let error = EvalError::RightSide(Box::new(EvalError::LeftSide(Box::new(EvalError::UnboundVariable {
        variable: 'y',
    }))));
    assert_eq!(*error.root(), EvalError::UnboundVariable { variable: 'y' });
    assert_eq!(*division().root(), division());
}
