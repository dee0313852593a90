//! What evaluation may yield, stated over the content of nodes, values and
//! bindings.
//!
//! The host decides three things: which number a numeral stands for, what an
//! arithmetic operation on two numbers gives, and what a native function
//! does. Evaluation is therefore stated as a relation: it says which
//! outcomes are possible, and it fixes everything that the host does not
//! decide.

use vstd::prelude::*;
use crate::error::Failure;
use crate::number::{holds, is_numeral, is_zero};
use crate::text::decimal;
use crate::token::{ComparisonKind, ExpressionKind, Node, NodeKind};
use crate::value::{Bindings, Value};

verus! {

/// How evaluating one node, or a sequence of nodes, ended: with a value or
/// a failure, and with these bindings.
pub ghost struct Outcome {
    pub result: Result<Value, Failure>,
    pub bindings: Bindings,
}

/// How evaluating the arguments of a call ended.
pub ghost struct ListOutcome {
    pub result: Result<Seq<Value>, Failure>,
    pub bindings: Bindings,
}

/// Always true. It marks the value that an `exists` speaks of, so that a
/// proof can name it.
pub open spec fn chosen<A>(value: A) -> bool {
    true
}

/// Always true. It marks the two values that an `exists` speaks of, so that
/// a proof can name them.
pub open spec fn chosen_pair<A, B>(first: A, second: B) -> bool {
    true
}

/// The failure of an evaluation, with its message.
pub open spec fn semantic(message: Seq<char>) -> Result<Value, Failure> {
    Err(Failure::Semantic(message))
}

/// The message for a name that is not bound.
pub open spec fn undefined_variable(name: Seq<char>) -> Seq<char> {
    "Undefined variable: "@ + name
}

/// The message for a call of a name that is bound to no function.
pub open spec fn not_callable(name: Seq<char>) -> Seq<char> {
    name + " is not callable"@
}

/// The message for a number node that holds no numeral.
pub open spec fn invalid_number(digits: Seq<char>) -> Seq<char> {
    "\""@ + digits + "\" is not a valid number"@
}

/// The message for a call with more or fewer arguments than the function
/// has parameters.
pub open spec fn wrong_argument_count(name: Seq<char>, expected: nat, got: nat) -> Seq<char> {
    "Function "@ + name + " expected "@ + decimal(expected) + " arguments, but got "@ + decimal(
        got,
    )
}

/// What `left operator right` may give. Two numbers give a number that the
/// host computes, but a division by zero fails. Two strings can only be
/// joined. Anything else fails.
pub open spec fn expression_allows(
    operator: ExpressionKind,
    left: Value,
    right: Value,
    result: Result<Value, Failure>,
) -> bool {
    match (left, right) {
        (Value::Number(_), Value::Number(divisor)) => if operator == ExpressionKind::Divide
            && is_zero(divisor) {
            result == semantic("Division by zero"@)
        } else {
            result matches Ok(Value::Number(_))
        },
        (Value::String(first), Value::String(second)) => if operator == ExpressionKind::Add {
            result == Ok::<Value, Failure>(Value::String(first + second))
        } else {
            result == semantic("Invalid string operation; only concatenation is supported"@)
        },
        _ => result == semantic("Cannot evaluate expression with mixed types"@),
    }
}

/// What `left operator right` gives. Numbers compare in all six ways,
/// strings and booleans only for equality.
pub open spec fn comparison_result(operator: ComparisonKind, left: Value, right: Value) -> Result<
    Value,
    Failure,
> {
    match (left, right) {
        (Value::Number(first), Value::Number(second)) => Ok(
            Value::Boolean(holds(operator, first, second)),
        ),
        (Value::String(first), Value::String(second)) => match operator {
            ComparisonKind::Equal => Ok(Value::Boolean(first == second)),
            ComparisonKind::NotEqual => Ok(Value::Boolean(first != second)),
            _ => semantic("Invalid comparison or unsupported types"@),
        },
        (Value::Boolean(first), Value::Boolean(second)) => match operator {
            ComparisonKind::Equal => Ok(Value::Boolean(first == second)),
            ComparisonKind::NotEqual => Ok(Value::Boolean(first != second)),
            _ => semantic("Invalid comparison or unsupported types"@),
        },
        _ => semantic("Invalid comparison or unsupported types"@),
    }
}

/// `bindings` after each parameter is bound to its argument, in order.
pub open spec fn bind_all(bindings: Bindings, parameters: Seq<Seq<char>>, values: Seq<Value>) -> Bindings
    decreases parameters.len(),
{
    if parameters.len() == 0 || values.len() == 0 {
        bindings
    } else {
        bind_all(bindings, parameters.drop_last(), values.drop_last()).insert(
            parameters.last(),
            values.last(),
        )
    }
}

/// Whether the node `node`, an arithmetic expression or a comparison, may
/// end as `outcome` when its left operand ends as `first` and, if that gives
/// a value, its right operand ends as `second`. A failure of an operand is
/// the failure of the node.
pub open spec fn binary_step(
    node: Node,
    bindings: Bindings,
    depth: nat,
    first: Outcome,
    second: Outcome,
    outcome: Outcome,
) -> bool
    decreases depth, 1nat, node, 0nat,
{
    match node.kind {
        NodeKind::Expression(operator, left, right) => {
            &&& node_yields(*left, bindings, depth, first)
            &&& match first.result {
                Err(_) => outcome == first,
                Ok(a) => {
                    &&& node_yields(*right, first.bindings, depth, second)
                    &&& match second.result {
                        Err(_) => outcome == second,
                        Ok(b) => outcome.bindings == second.bindings && expression_allows(
                            operator,
                            a,
                            b,
                            outcome.result,
                        ),
                    }
                },
            }
        },
        NodeKind::Comparison(operator, left, right) => {
            &&& node_yields(*left, bindings, depth, first)
            &&& match first.result {
                Err(_) => outcome == first,
                Ok(a) => {
                    &&& node_yields(*right, first.bindings, depth, second)
                    &&& match second.result {
                        Err(_) => outcome == second,
                        Ok(b) => outcome == Outcome {
                            result: comparison_result(operator, a, b),
                            bindings: second.bindings,
                        },
                    }
                },
            }
        },
        _ => false,
    }
}

/// Whether the node `node`, a `let` with an initializer, may end as
/// `outcome` when the initializer ends as `inner`: its value is bound to the
/// name, in place of what the name was bound to, and is the value of the
/// node.
pub open spec fn let_step(
    node: Node,
    bindings: Bindings,
    depth: nat,
    inner: Outcome,
    outcome: Outcome,
) -> bool
    decreases depth, 1nat, node, 0nat,
{
    match node.kind {
        NodeKind::Let(name, Some(initializer)) => {
            &&& node_yields(*initializer, bindings, depth, inner)
            &&& match inner.result {
                Err(_) => outcome == inner,
                Ok(value) => outcome == Outcome {
                    result: Ok(value),
                    bindings: inner.bindings.insert(name, value),
                },
            }
        },
        _ => false,
    }
}

/// Whether the node `node`, a call of a name that is bound, may end as
/// `outcome` when its arguments end as `evaluated`. The callee is what the
/// name was bound to before the arguments were evaluated.
pub open spec fn call_step(
    node: Node,
    bindings: Bindings,
    depth: nat,
    evaluated: ListOutcome,
    outcome: Outcome,
) -> bool
    decreases depth, 1nat, node, 0nat,
{
    match node.kind {
        NodeKind::Call(name, arguments) => {
            &&& arguments_yield(arguments, bindings, depth, evaluated)
            &&& match evaluated.result {
                Err(failure) => outcome == Outcome {
                    result: Err(failure),
                    bindings: evaluated.bindings,
                },
                Ok(values) => call_yields(
                    name,
                    bindings[name],
                    values,
                    evaluated.bindings,
                    depth,
                    outcome,
                ),
            }
        },
        _ => false,
    }
}

/// Whether evaluating `node` with `bindings` may end as `outcome`, when
/// functions of the program may be nested `depth` deep.
pub open spec fn node_yields(node: Node, bindings: Bindings, depth: nat, outcome: Outcome) -> bool
    decreases depth, 1nat, node, 1nat,
{
    match node.kind {
        NodeKind::Boolean(value) => outcome == Outcome {
            result: Ok(Value::Boolean(value)),
            bindings,
        },
        NodeKind::BracketScope(body) => outcome == Outcome {
            result: Ok(Value::Block(body)),
            bindings,
        },
        NodeKind::LiteralString(text) => outcome == Outcome {
            result: Ok(Value::String(text)),
            bindings,
        },
        NodeKind::Number(numeral) => {
            &&& outcome.bindings == bindings
            &&& if is_numeral(numeral.digits) {
                outcome.result matches Ok(Value::Number(_))
            } else {
                outcome.result == semantic(invalid_number(numeral.digits))
            }
        },
        NodeKind::Expression(_, _, _) | NodeKind::Comparison(_, _, _) => exists|
            first: Outcome,
            second: Outcome,
        | #[trigger] chosen_pair(first, second) && binary_step(node, bindings, depth, first, second, outcome),
        NodeKind::Let(name, None) => outcome == Outcome {
            result: Ok(Value::Empty),
            bindings: bindings.insert(name, Value::Empty),
        },
        NodeKind::Let(_, Some(_)) => exists|inner: Outcome| #[trigger]
            chosen(inner) && let_step(node, bindings, depth, inner, outcome),
        NodeKind::Identifier(name) => outcome == Outcome {
            result: if bindings.contains_key(name) {
                Ok(bindings[name])
            } else {
                semantic(undefined_variable(name))
            },
            bindings,
        },
        NodeKind::Function(name, parameters, body) => outcome == Outcome {
            result: Ok(Value::Empty),
            bindings: match body.kind {
                NodeKind::BracketScope(nodes) => bindings.insert(
                    name,
                    Value::Function(name, parameters, nodes),
                ),
                _ => bindings,
            },
        },
        NodeKind::Call(name, _) => if !bindings.contains_key(name) {
            outcome == Outcome { result: semantic(undefined_variable(name)), bindings }
        } else {
            exists|evaluated: ListOutcome| #[trigger]
                chosen(evaluated) && call_step(node, bindings, depth, evaluated, outcome)
        },
        NodeKind::Attribution | NodeKind::Unknown => outcome == Outcome {
            result: semantic("Unknown token type"@),
            bindings,
        },
    }
}

/// Whether the body of a function, run with the bindings `scope`, may end as
/// `inner`, which gives the call its result.
pub open spec fn body_step(
    body: Seq<Node>,
    scope: Bindings,
    depth: nat,
    inner: Outcome,
    outcome: Outcome,
) -> bool
    decreases depth, 1nat, body, 2nat,
{
    sequence_yields(body, scope, depth, inner) && outcome.result == inner.result
}

/// Whether calling `callee`, found under `name`, with `values` may end as
/// `outcome`. What a native function does is the host's to decide. A
/// function of the program needs as many arguments as it has parameters; its
/// body runs on a copy of the caller's bindings with the parameters bound,
/// and leaves the caller's bindings as they were.
pub open spec fn call_yields(
    name: Seq<char>,
    callee: Value,
    values: Seq<Value>,
    bindings: Bindings,
    depth: nat,
    outcome: Outcome,
) -> bool
    decreases depth, 0nat,
{
    match callee {
        Value::NativeFunction(_) => true,
        Value::Function(_, parameters, body) => {
            &&& outcome.bindings == bindings
            &&& if parameters.len() != values.len() {
                outcome.result == semantic(
                    wrong_argument_count(name, parameters.len(), values.len()),
                )
            } else if depth == 0 {
                outcome.result == semantic("Too many nested function calls"@)
            } else {
                exists|inner: Outcome| #[trigger]
                    chosen(inner) && body_step(
                        body,
                        bind_all(bindings, parameters, values),
                        (depth - 1) as nat,
                        inner,
                        outcome,
                    )
            }
        },
        _ => outcome == Outcome { result: semantic(not_callable(name)), bindings },
    }
}

/// Whether the arguments `arguments`, which are not empty, may end as
/// `outcome` when all but the last end as `before` and, if they give their
/// values, the last ends as `last`.
pub open spec fn arguments_step(
    arguments: Seq<Node>,
    bindings: Bindings,
    depth: nat,
    before: ListOutcome,
    last: Outcome,
    outcome: ListOutcome,
) -> bool
    decreases depth, 1nat, arguments, 0nat,
{
    &&& arguments.len() > 0
    &&& arguments_yield(arguments.drop_last(), bindings, depth, before)
    &&& match before.result {
        Err(_) => outcome == before,
        Ok(values) => {
            &&& node_yields(arguments.last(), before.bindings, depth, last)
            &&& outcome.bindings == last.bindings
            &&& match last.result {
                Err(failure) => outcome.result == Err::<Seq<Value>, Failure>(failure),
                Ok(value) => outcome.result == Ok::<Seq<Value>, Failure>(values.push(value)),
            }
        },
    }
}

/// Whether evaluating `arguments` from left to right may end as `outcome`.
/// The first failure ends it.
pub open spec fn arguments_yield(
    arguments: Seq<Node>,
    bindings: Bindings,
    depth: nat,
    outcome: ListOutcome,
) -> bool
    decreases depth, 1nat, arguments, 1nat,
{
    if arguments.len() == 0 {
        outcome == ListOutcome { result: Ok(Seq::empty()), bindings }
    } else {
        exists|before: ListOutcome, last: Outcome| #[trigger]
            chosen_pair(before, last) && arguments_step(arguments, bindings, depth, before, last, outcome)
    }
}

/// Whether the nodes `nodes`, which are not empty, may end as `outcome` when
/// all but the last end as `before`.
pub open spec fn sequence_step(
    nodes: Seq<Node>,
    bindings: Bindings,
    depth: nat,
    before: Outcome,
    outcome: Outcome,
) -> bool
    decreases depth, 1nat, nodes, 0nat,
{
    &&& nodes.len() > 0
    &&& sequence_yields(nodes.drop_last(), bindings, depth, before)
    &&& match before.result {
        Err(_) => outcome == before,
        Ok(_) => node_yields(nodes.last(), before.bindings, depth, outcome),
    }
}

/// Whether evaluating `nodes` one after another may end as `outcome`: with
/// the value of the last node, or `Empty` if there is none. The first
/// failure ends it.
pub open spec fn sequence_yields(nodes: Seq<Node>, bindings: Bindings, depth: nat, outcome: Outcome) -> bool
    decreases depth, 1nat, nodes, 1nat,
{
    if nodes.len() == 0 {
        outcome == Outcome { result: Ok(Value::Empty), bindings }
    } else {
        exists|before: Outcome| #[trigger]
            chosen(before) && sequence_step(nodes, bindings, depth, before, outcome)
    }
}

/// An expression or a comparison ends as `binary_step` says.
pub proof fn lemma_binary(
    node: Node,
    bindings: Bindings,
    depth: nat,
    first: Outcome,
    second: Outcome,
    outcome: Outcome,
)
    requires
        binary_step(node, bindings, depth, first, second, outcome),
    ensures
        node_yields(node, bindings, depth, outcome),
{
    assert(chosen_pair(first, second));
}

/// A `let` with an initializer ends as `let_step` says.
pub proof fn lemma_let(node: Node, bindings: Bindings, depth: nat, inner: Outcome, outcome: Outcome)
    requires
        let_step(node, bindings, depth, inner, outcome),
    ensures
        node_yields(node, bindings, depth, outcome),
{
    assert(chosen(inner));
}

/// A call of a name that is bound ends as `call_step` says.
pub proof fn lemma_call(
    node: Node,
    bindings: Bindings,
    depth: nat,
    evaluated: ListOutcome,
    outcome: Outcome,
)
    requires
        node.kind matches NodeKind::Call(name, _) && bindings.contains_key(name),
        call_step(node, bindings, depth, evaluated, outcome),
    ensures
        node_yields(node, bindings, depth, outcome),
{
    assert(chosen(evaluated));
}

/// A call of a function of the program with the right number of arguments,
/// where calls may still nest, ends as its body does, and leaves the
/// bindings as they were.
pub proof fn lemma_body(
    name: Seq<char>,
    callee: Value,
    values: Seq<Value>,
    bindings: Bindings,
    depth: nat,
    inner: Outcome,
    outcome: Outcome,
)
    requires
        depth > 0,
        outcome.bindings == bindings,
        callee matches Value::Function(_, parameters, body) && parameters.len() == values.len()
            && body_step(
            body,
            bind_all(bindings, parameters, values),
            (depth - 1) as nat,
            inner,
            outcome,
        ),
    ensures
        call_yields(name, callee, values, bindings, depth, outcome),
{
    assert(chosen(inner));
}

/// Arguments that are not empty end as `arguments_step` says.
pub proof fn lemma_arguments(
    arguments: Seq<Node>,
    bindings: Bindings,
    depth: nat,
    before: ListOutcome,
    last: Outcome,
    outcome: ListOutcome,
)
    requires
        arguments_step(arguments, bindings, depth, before, last, outcome),
    ensures
        arguments_yield(arguments, bindings, depth, outcome),
{
    assert(chosen_pair(before, last));
}

/// Nodes that are not empty end as `sequence_step` says.
pub proof fn lemma_sequence(
    nodes: Seq<Node>,
    bindings: Bindings,
    depth: nat,
    before: Outcome,
    outcome: Outcome,
)
    requires
        sequence_step(nodes, bindings, depth, before, outcome),
    ensures
        sequence_yields(nodes, bindings, depth, outcome),
{
    assert(chosen(before));
}

/// Once a node has failed, the sequence has failed in the same way: the
/// nodes after it are not evaluated.
pub proof fn lemma_sequence_fails(
    nodes: Seq<Node>,
    bindings: Bindings,
    depth: nat,
    count: int,
    outcome: Outcome,
)
    requires
        0 <= count <= nodes.len(),
        sequence_yields(nodes.take(count), bindings, depth, outcome),
        outcome.result is Err,
    ensures
        sequence_yields(nodes, bindings, depth, outcome),
    decreases nodes.len() - count,
{
    if count == nodes.len() {
        assert(nodes.take(count) =~= nodes);
    } else {
        assert(nodes.take(count + 1).drop_last() =~= nodes.take(count));
        lemma_sequence(nodes.take(count + 1), bindings, depth, outcome, outcome);
        lemma_sequence_fails(nodes, bindings, depth, count + 1, outcome);
    }
}

/// Once an argument has failed, the arguments have failed in the same way:
/// the arguments after it are not evaluated.
pub proof fn lemma_arguments_fail(
    arguments: Seq<Node>,
    bindings: Bindings,
    depth: nat,
    count: int,
    outcome: ListOutcome,
)
    requires
        0 <= count <= arguments.len(),
        arguments_yield(arguments.take(count), bindings, depth, outcome),
        outcome.result is Err,
    ensures
        arguments_yield(arguments, bindings, depth, outcome),
    decreases arguments.len() - count,
{
    if count == arguments.len() {
        assert(arguments.take(count) =~= arguments);
    } else {
        assert(arguments.take(count + 1).drop_last() =~= arguments.take(count));
        let unused = Outcome { result: Ok(Value::Empty), bindings };
        lemma_arguments(arguments.take(count + 1), bindings, depth, outcome, unused, outcome);
        lemma_arguments_fail(arguments, bindings, depth, count + 1, outcome);
    }
}

} // verus!
