use crate::error::{ArithmeticError, EvalError};
use crate::function::{bound_in_order, paired, positional, Function};
use crate::number::Number;
use crate::operation::Progress;
use crate::semantics::{finished, follows, replays, Arithmetic};
use crate::term::FunctionTerm;
use crate::value::Value;
use vstd::prelude::*;

verus! {

/// Evaluating a closed expression by answers replays its evaluation under
/// any arithmetic that the answers follow, from any position: to its end
/// where the answers reach, else to the request for the first answer that is
/// missing.
pub proof fn closed_evaluation_replays(value: Value, arithmetic: Arithmetic, answers: Seq<Number>, at: nat)
    requires
        at <= answers.len(),
        follows(answers, at, value.answers_under(arithmetic)),
    ensures
        replays(
            value.spec_get_from(answers, at),
            answers,
            at,
            value.answers_under(arithmetic),
            value.value_under(arithmetic),
            arithmetic,
        ),
    decreases value,
{
    match value {
        Value::Literal(_) => {},
        Value::Calculation { left, right, operation } => {
            let log = value.answers_under(arithmetic);
            let left_log = left.answers_under(arithmetic);
            let right_log = right.answers_under(arithmetic);
            let mid = at + left_log.len();
            // The left operand's answers stand first among the node's.
            assert forall|i: int| 0 <= i < left_log.len() implies left_log[i] == log[i] by {}
            closed_evaluation_replays(*left, arithmetic, answers, at);
            if mid <= answers.len() && left.value_under(arithmetic) is Ok {
                // The right operand's answers come next.
                assert forall|i: int| 0 <= i < right_log.len() implies right_log[i]
                    == log[left_log.len() + i] by {}
                closed_evaluation_replays(*right, arithmetic, answers, mid);
                // The operation's answer, where it has one, is the last.
                let last = (left_log.len() + right_log.len()) as int;
                if last < log.len() && at + last < answers.len() {
                    assert(answers[at + last] == log[last]);
                }
            }
        },
    }
}

/// Evaluating a term by answers replays its evaluation under any arithmetic
/// that the answers follow, from any position: to its end where the answers
/// reach, else to the request for the first answer that is missing.
pub proof fn evaluation_replays(
    term: FunctionTerm,
    bindings: Map<char, Number>,
    arithmetic: Arithmetic,
    answers: Seq<Number>,
    at: nat,
)
    requires
        at <= answers.len(),
        follows(answers, at, term.answers_under(bindings, arithmetic)),
    ensures
        replays(
            term.spec_solve_from(bindings, answers, at),
            answers,
            at,
            term.answers_under(bindings, arithmetic),
            term.value_under(bindings, arithmetic),
            arithmetic,
        ),
    decreases term,
{
    match term {
        FunctionTerm::Variable(_) => {},
        FunctionTerm::Value(value) => {
            closed_evaluation_replays(value, arithmetic, answers, at);
        },
        FunctionTerm::Calculation { left, right, operation } => {
            let log = term.answers_under(bindings, arithmetic);
            let left_log = left.answers_under(bindings, arithmetic);
            let right_log = right.answers_under(bindings, arithmetic);
            let mid = at + left_log.len();
            // The left operand's answers stand first among the node's.
            assert forall|i: int| 0 <= i < left_log.len() implies left_log[i] == log[i] by {}
            evaluation_replays(*left, bindings, arithmetic, answers, at);
            if mid <= answers.len() && left.value_under(bindings, arithmetic) is Ok {
                // The right operand's answers come next.
                assert forall|i: int| 0 <= i < right_log.len() implies right_log[i]
                    == log[left_log.len() + i] by {}
                evaluation_replays(*right, bindings, arithmetic, answers, mid);
                // The operation's answer, where it has one, is the last.
                let last = (left_log.len() + right_log.len()) as int;
                if last < log.len() && at + last < answers.len() {
                    assert(answers[at + last] == log[last]);
                }
            }
        },
    }
}

/// Whether `answers` came about as the evaluation's caller makes them: each
/// answer is the arithmetic's answer to the request that the evaluation
/// returned for the answers before it.
pub open spec fn driven(
    term: FunctionTerm,
    bindings: Map<char, Number>,
    arithmetic: Arithmetic,
    answers: Seq<Number>,
) -> bool {
    forall|given: int|
        0 <= given < answers.len() ==> match #[trigger] term.spec_solve(bindings, answers.take(given)) {
            Ok(Progress::Ask(request)) => answers[given] == arithmetic(request),
            _ => false,
        }
}

/// With all the answers that the evaluation takes under an arithmetic, the
/// term evaluates to the number that it denotes under that arithmetic, or
/// to its first failure.
pub proof fn all_answers_finish(term: FunctionTerm, bindings: Map<char, Number>, arithmetic: Arithmetic)
    ensures
        term.spec_solve(bindings, term.answers_under(bindings, arithmetic)) == finished(
            term.value_under(bindings, arithmetic),
        ),
{
    evaluation_replays(term, bindings, arithmetic, term.answers_under(bindings, arithmetic), 0);
}

/// With only the first `given` of the answers that the evaluation takes
/// under an arithmetic, the term evaluates to a request, and the
/// arithmetic's answer to it is the next of those answers.
pub proof fn some_answers_ask(
    term: FunctionTerm,
    bindings: Map<char, Number>,
    arithmetic: Arithmetic,
    given: nat,
)
    requires
        given < term.answers_under(bindings, arithmetic).len(),
    ensures
        term.spec_solve(bindings, term.answers_under(bindings, arithmetic).take(given as int)) matches Ok(
            Progress::Ask(request),
        ) && arithmetic(request) == term.answers_under(bindings, arithmetic)[given as int],
{
    let log = term.answers_under(bindings, arithmetic);
    evaluation_replays(term, bindings, arithmetic, log.take(given as int), 0);
}

/// Answers made by asking an arithmetic are the first of the answers that
/// the evaluation takes under it.
pub proof fn driven_answers_are_the_first(
    term: FunctionTerm,
    bindings: Map<char, Number>,
    arithmetic: Arithmetic,
    answers: Seq<Number>,
)
    requires
        driven(term, bindings, arithmetic, answers),
    ensures
        answers.len() <= term.answers_under(bindings, arithmetic).len(),
        answers == term.answers_under(bindings, arithmetic).take(answers.len() as int),
    decreases answers.len(),
{
    let log = term.answers_under(bindings, arithmetic);
    if answers.len() > 0 {
        let given = (answers.len() - 1) as nat;
        let before = answers.take(given as int);
        // The answers before the last were made in the same way.
        assert forall|i: int| 0 <= i < before.len() implies match #[trigger] term.spec_solve(
            bindings,
            before.take(i),
        ) {
            Ok(Progress::Ask(request)) => before[i] == arithmetic(request),
            _ => false,
        } by {
            assert(before.take(i) == answers.take(i));
        }
        driven_answers_are_the_first(term, bindings, arithmetic, before);
        // The last answer was made for the request that those before it
        // give: so they were not all yet, and the last is the next.
        if given < log.len() {
            some_answers_ask(term, bindings, arithmetic, given);
        } else {
            assert(log.take(given as int) == log);
            all_answers_finish(term, bindings, arithmetic);
        }
    }
}

/// An evaluation whose answers were made by asking an arithmetic ends, if
/// it ends, as the term's evaluation under that arithmetic does. So its
/// result rests on the term, the bindings and the arithmetic alone: with
/// the same three, every evaluation has the same end.
pub proof fn driven_evaluation_is_determined(
    term: FunctionTerm,
    bindings: Map<char, Number>,
    arithmetic: Arithmetic,
    answers: Seq<Number>,
)
    requires
        driven(term, bindings, arithmetic, answers),
    ensures
        term.spec_solve(bindings, answers) is Ok && term.spec_solve(bindings, answers)->Ok_0 is Ask
            <==> answers.len() < term.answers_under(bindings, arithmetic).len(),
        answers.len() == term.answers_under(bindings, arithmetic).len() ==> term.spec_solve(
            bindings,
            answers,
        ) == finished(term.value_under(bindings, arithmetic)),
{
    let log = term.answers_under(bindings, arithmetic);
    driven_answers_are_the_first(term, bindings, arithmetic, answers);
    if answers.len() < log.len() {
        some_answers_ask(term, bindings, arithmetic, answers.len());
    } else {
        assert(log.take(answers.len() as int) == log);
        all_answers_finish(term, bindings, arithmetic);
    }
}

/// Two evaluations of one function under the same bindings, each carried
/// to its end with the answers of the same arithmetic, took the same answers
/// and have the same end.
pub proof fn evaluations_agree(
    function: Function,
    bindings: Map<char, Number>,
    arithmetic: Arithmetic,
    first: Seq<Number>,
    second: Seq<Number>,
)
    requires
        driven(function.term, bindings, arithmetic, first),
        driven(function.term, bindings, arithmetic, second),
        !(function.spec_solve_for(bindings, first) matches Ok(Progress::Ask(_))),
        !(function.spec_solve_for(bindings, second) matches Ok(Progress::Ask(_))),
    ensures
        first == second,
        function.spec_solve_for(bindings, first) == function.spec_solve_for(bindings, second),
{
    driven_evaluation_is_determined(function.term, bindings, arithmetic, first);
    driven_evaluation_is_determined(function.term, bindings, arithmetic, second);
    driven_answers_are_the_first(function.term, bindings, arithmetic, first);
    driven_answers_are_the_first(function.term, bindings, arithmetic, second);
}

/// An evaluation takes at most one answer for each operation of the term:
/// after that many answers, its caller has the end.
pub proof fn answers_are_bounded(term: FunctionTerm, bindings: Map<char, Number>, arithmetic: Arithmetic)
    ensures
        term.answers_under(bindings, arithmetic).len() <= term.operations(),
    decreases term,
{
    match term {
        FunctionTerm::Variable(_) => {},
        FunctionTerm::Value(value) => {
            lemma_closed_answers_are_bounded(value, arithmetic);
        },
        FunctionTerm::Calculation { left, right, operation } => {
            answers_are_bounded(*left, bindings, arithmetic);
            answers_are_bounded(*right, bindings, arithmetic);
        },
    }
}

/// A closed expression takes at most one answer for each of its operations.
proof fn lemma_closed_answers_are_bounded(value: Value, arithmetic: Arithmetic)
    ensures
        value.answers_under(arithmetic).len() <= value.operations(),
    decreases value,
{
    match value {
        Value::Literal(_) => {},
        Value::Calculation { left, right, operation } => {
            lemma_closed_answers_are_bounded(*left, arithmetic);
            lemma_closed_answers_are_bounded(*right, arithmetic);
        },
    }
}

/// A closed expression evaluates alike under all bindings: as it does by
/// itself, with none.
pub proof fn closed_value_ignores_bindings(
    value: Value,
    bindings: Map<char, Number>,
    arithmetic: Arithmetic,
    answers: Seq<Number>,
)
    ensures
        FunctionTerm::Value(value).spec_solve(bindings, answers) == value.spec_get(answers),
        FunctionTerm::Value(value).value_under(bindings, arithmetic) == value.value_under(arithmetic),
        FunctionTerm::Value(value).answers_under(bindings, arithmetic) == value.answers_under(arithmetic),
{
}

/// A closed expression fails by division by zero or not at all.
pub proof fn closed_value_fails_by_division_only(value: Value, answers: Seq<Number>, at: nat)
    ensures
        value.spec_get_from(answers, at).0 matches Err(error) ==> error.spec_root() == EvalError::Arithmetic(
            ArithmeticError::DivisionByZero,
        ),
    decreases value,
{
    match value {
        Value::Literal(_) => {},
        Value::Calculation { left, right, operation } => {
            closed_value_fails_by_division_only(*left, answers, at);
            closed_value_fails_by_division_only(*right, answers, left.spec_get_from(answers, at).1);
        },
    }
}

/// A term fails by division by zero, or by one of its variables that the
/// bindings leave out, and by nothing else.
pub proof fn failures_are_genuine(term: FunctionTerm, bindings: Map<char, Number>, answers: Seq<Number>, at: nat)
    ensures
        term.spec_solve_from(bindings, answers, at).0 matches Err(error) ==> match error.spec_root() {
            EvalError::Arithmetic(cause) => cause == ArithmeticError::DivisionByZero,
            EvalError::UnboundVariable { variable } => term.mentions(variable) && !bindings.contains_key(
                variable,
            ),
            _ => false,
        },
    decreases term,
{
    match term {
        FunctionTerm::Variable(_) => {},
        FunctionTerm::Value(value) => {
            closed_value_fails_by_division_only(value, answers, at);
        },
        FunctionTerm::Calculation { left, right, operation } => {
            failures_are_genuine(*left, bindings, answers, at);
            failures_are_genuine(*right, bindings, answers, left.spec_solve_from(bindings, answers, at).1);
        },
    }
}

/// Where the bindings hold every parameter of a well-formed function, no
/// evaluation of it fails for want of a binding.
pub proof fn bound_parameters_suffice(function: Function, bindings: Map<char, Number>, answers: Seq<Number>)
    requires
        function.well_formed(),
        forall|i: int| 0 <= i < function.arguments@.len() ==> bindings.contains_key(function.arguments@[i]),
    ensures
        function.spec_solve_for(bindings, answers) matches Err(error) ==> error.spec_root()
            == EvalError::Arithmetic(ArithmeticError::DivisionByZero),
{
    failures_are_genuine(function.term, bindings, answers, 0);
}

/// The term that `variable` gives for a declared parameter evaluates to
/// the number that the bindings hold for that parameter.
pub proof fn declared_variable_is_its_binding(
    function: Function,
    name: char,
    bindings: Map<char, Number>,
    answers: Seq<Number>,
)
    requires
        function.arguments@.contains(name),
        bindings.contains_key(name),
    ensures
        function.spec_variable(name) matches Ok(term) && term.spec_solve(bindings, answers) == Ok::<
            Progress,
            EvalError,
        >(Progress::Done(bindings[name])),
{
}

/// A term with a variable that the bindings leave out never evaluates to a
/// number: whatever the answers, it fails or stands at a request, and under
/// every arithmetic it denotes a failure.
pub proof fn unbound_variable_fails(
    term: FunctionTerm,
    bindings: Map<char, Number>,
    name: char,
    arithmetic: Arithmetic,
    answers: Seq<Number>,
    at: nat,
)
    requires
        term.mentions(name),
        !bindings.contains_key(name),
    ensures
        !(term.spec_solve_from(bindings, answers, at).0 matches Ok(Progress::Done(_))),
        term.value_under(bindings, arithmetic) is Err,
    decreases term,
{
    match term {
        FunctionTerm::Variable(_) => {},
        FunctionTerm::Value(_) => {},
        FunctionTerm::Calculation { left, right, operation } => {
            if left.mentions(name) {
                unbound_variable_fails(*left, bindings, name, arithmetic, answers, at);
            } else {
                unbound_variable_fails(
                    *right,
                    bindings,
                    name,
                    arithmetic,
                    answers,
                    left.spec_solve_from(bindings, answers, at).1,
                );
            }
        },
    }
}

/// Binding by position binds the parameters that have a value at their
/// position, and no others: the first `paired` of them. Each is bound to
/// the value at its position, but for a name that stands again further on
/// among them, whose later value stays.
pub proof fn positional_binds_the_shared_front(arguments: Seq<char>, values: Seq<Number>)
    ensures
        positional(arguments, values).dom() == arguments.take(paired(arguments, values) as int).to_set(),
        forall|i: int|
            0 <= i < paired(arguments, values) && (forall|j: int|
                i < j < paired(arguments, values) ==> arguments[j] != arguments[i])
                ==> #[trigger] positional(arguments, values)[arguments[i]] == values[i],
{
    lemma_bound_in_order(arguments, values, paired(arguments, values));
}

/// The bindings of the first `count` pairs: the names bound, and the value
/// of each.
proof fn lemma_bound_in_order(arguments: Seq<char>, values: Seq<Number>, count: nat)
    requires
        count <= arguments.len(),
        count <= values.len(),
    ensures
        bound_in_order(arguments, values, count).dom() == arguments.take(count as int).to_set(),
        forall|i: int|
            0 <= i < count && (forall|j: int| i < j < count ==> arguments[j] != arguments[i])
                ==> #[trigger] bound_in_order(arguments, values, count)[arguments[i]] == values[i],
    decreases count,
{
    if count > 0 {
        let before = (count - 1) as nat;
        lemma_bound_in_order(arguments, values, before);
        assert(arguments.take(count as int) == arguments.take(before as int).push(arguments[before as int]));
        arguments.take(before as int).lemma_push_to_set_commute(arguments[before as int]);
    }
}

/// With a value for every parameter, no evaluation of a well-formed
/// function by position fails for want of a binding.
pub proof fn enough_values_suffice(function: Function, values: Seq<Number>, answers: Seq<Number>)
    requires
        function.well_formed(),
        function.arguments@.len() <= values.len(),
    ensures
        function.spec_solve_args_in_order(values, answers) matches Err(error) ==> error.spec_root()
            == EvalError::Arithmetic(ArithmeticError::DivisionByZero),
{
    let arguments = function.arguments@;
    positional_binds_the_shared_front(arguments, values);
    assert(arguments.take(arguments.len() as int) == arguments);
    bound_parameters_suffice(function, positional(arguments, values), answers);
}

/// With fewer values than parameters, and the parameters distinct, a
/// function whose body refers to a parameter beyond the values never
/// evaluates to a number.
pub proof fn missing_values_fail(
    function: Function,
    values: Seq<Number>,
    position: int,
    arithmetic: Arithmetic,
    answers: Seq<Number>,
)
    requires
        function.arguments@.no_duplicates(),
        values.len() <= position < function.arguments@.len(),
        function.term.mentions(function.arguments@[position]),
    ensures
        !(function.spec_solve_args_in_order(values, answers) matches Ok(Progress::Done(_))),
        function.term.value_under(positional(function.arguments@, values), arithmetic) is Err,
{
    let arguments = function.arguments@;
    let name = arguments[position];
    positional_binds_the_shared_front(arguments, values);
    // The parameters are distinct, so the name stands at no position that
    // has a value.
    assert(!arguments.take(paired(arguments, values) as int).contains(name));
    unbound_variable_fails(function.term, positional(arguments, values), name, arithmetic, answers, 0);
}

} // verus!
