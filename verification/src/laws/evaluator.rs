//! Laws of the evaluator: what holds of every program.

use vstd::prelude::*;
use crate::error::Failure;
use crate::grammar::{tokenize, ListScan};
use crate::laws::tokenizer::lemma_numeral_tokenizes;
use crate::number::{is_numeral, is_zero};
use crate::semantics::{
    binary_step, call_yields, chosen, expression_allows, let_step, node_yields, semantic,
    sequence_step, sequence_yields, wrong_argument_count, Outcome,
};
use crate::token::{span_of, ExpressionKind, Node, NodeKind, NumeralModel};
use crate::value::{Bindings, Value};

verus! {

/// A numeral evaluates to a number, and leaves the bindings as they were.
/// Which number it is, the host decides.
pub proof fn lemma_numeral_evaluates(node: Node, bindings: Bindings, depth: nat, outcome: Outcome)
    requires
        node.kind matches NodeKind::Number(numeral) && is_numeral(numeral.digits),
        node_yields(node, bindings, depth, outcome),
    ensures
        outcome.result matches Ok(Value::Number(_)),
        outcome.bindings == bindings,
{
}

/// Tokenizing a numeral and evaluating what comes of it gives a number,
/// and leaves the bindings as they were.
pub proof fn lemma_numeral_program(s: Seq<char>, bindings: Bindings, depth: nat, outcome: Outcome)
    requires
        is_numeral(s),
        tokenize(s) matches ListScan::Nodes { nodes, .. } && sequence_yields(
            nodes,
            bindings,
            depth,
            outcome,
        ),
    ensures
        outcome.result matches Ok(Value::Number(_)),
        outcome.bindings == bindings,
{
    lemma_numeral_tokenizes(s);
    let token = Node {
        kind: NodeKind::Number(NumeralModel { negative: false, digits: s }),
        span: span_of(s, 0, s.len() as int),
    };
    let nodes = seq![token];
    let before = choose|before: Outcome| #[trigger]
        chosen(before) && sequence_step(nodes, bindings, depth, before, outcome);
    assert(sequence_step(nodes, bindings, depth, before, outcome));
    assert(nodes.drop_last() =~= Seq::<Node>::empty());
    assert(sequence_yields(Seq::<Node>::empty(), bindings, depth, before));
    assert(nodes.last() == token);
    assert(node_yields(token, bindings, depth, outcome));
}

/// Dividing a number by zero, of either sign, fails: it gives neither an
/// infinity nor something that is not a number.
pub proof fn lemma_division_by_zero(
    node: Node,
    bindings: Bindings,
    depth: nat,
    first: Outcome,
    second: Outcome,
    outcome: Outcome,
)
    requires
        node.kind matches NodeKind::Expression(operator, _, _) && operator
            == ExpressionKind::Divide,
        binary_step(node, bindings, depth, first, second, outcome),
        first.result matches Ok(Value::Number(_)),
        second.result matches Ok(Value::Number(divisor)) && is_zero(divisor),
    ensures
        outcome.result == semantic("Division by zero"@),
{
}

/// Two strings can be joined, and nothing else: `+` gives the first
/// followed by the second, and any other operator fails.
pub proof fn lemma_strings_join(
    operator: ExpressionKind,
    first: Seq<char>,
    second: Seq<char>,
    result: Result<Value, Failure>,
)
    requires
        expression_allows(operator, Value::String(first), Value::String(second), result),
    ensures
        operator == ExpressionKind::Add ==> result == Ok::<Value, Failure>(
            Value::String(first + second),
        ),
        operator != ExpressionKind::Add ==> result == semantic(
            "Invalid string operation; only concatenation is supported"@,
        ),
{
}

/// A `let` binds its name to the value of its initializer, in place of
/// whatever the name was bound to, and has that value.
pub proof fn lemma_let_binds(node: Node, bindings: Bindings, depth: nat, outcome: Outcome)
    requires
        node.kind matches NodeKind::Let(_, Some(_)),
        node_yields(node, bindings, depth, outcome),
        outcome.result is Ok,
    ensures
        node.kind matches NodeKind::Let(name, _) && outcome.bindings.contains_key(name)
            && outcome.bindings[name] == outcome.result->Ok_0,
{
    let inner = choose|inner: Outcome| #[trigger]
        chosen(inner) && let_step(node, bindings, depth, inner, outcome);
    assert(let_step(node, bindings, depth, inner, outcome));
}

/// Binding a name twice replaces the first value: the name is bound once,
/// to the second value, as if the first `let` had bound nothing.
pub proof fn lemma_rebinding_replaces(
    bindings: Bindings,
    name: Seq<char>,
    first: Value,
    second: Value,
)
    ensures
        bindings.insert(name, first).insert(name, second) == bindings.insert(name, second),
        bindings.insert(name, first).insert(name, second)[name] == second,
{
    assert(bindings.insert(name, first).insert(name, second) =~= bindings.insert(name, second));
}

/// After two `let`s of the same name, one after the other, the name is
/// bound to the value of the second, and looking it up gives that value.
pub proof fn lemma_second_let_wins(
    first: Node,
    second: Node,
    lookup: Node,
    bindings: Bindings,
    depth: nat,
    outcome: Outcome,
    found: Outcome,
)
    requires
        first.kind matches NodeKind::Let(name, Some(_)) && second.kind matches NodeKind::Let(
            other,
            Some(_),
        ) && name == other && lookup.kind == NodeKind::Identifier(name),
        sequence_yields(seq![first, second], bindings, depth, outcome),
        outcome.result is Ok,
        node_yields(lookup, outcome.bindings, depth, found),
    ensures
        found.result == outcome.result,
        found.bindings == outcome.bindings,
{
    let nodes = seq![first, second];
    let before = choose|before: Outcome| #[trigger]
        chosen(before) && sequence_step(nodes, bindings, depth, before, outcome);
    assert(sequence_step(nodes, bindings, depth, before, outcome));
    assert(nodes.last() == second);
    assert(node_yields(second, before.bindings, depth, outcome));
    lemma_let_binds(second, before.bindings, depth, outcome);
}

/// Calling a function of the program with more or fewer arguments than it
/// has parameters fails, and leaves the bindings as they were.
pub proof fn lemma_wrong_argument_count(
    name: Seq<char>,
    callee: Value,
    values: Seq<Value>,
    bindings: Bindings,
    depth: nat,
    outcome: Outcome,
)
    requires
        callee matches Value::Function(_, parameters, _) && parameters.len() != values.len(),
        call_yields(name, callee, values, bindings, depth, outcome),
    ensures
        callee matches Value::Function(_, parameters, _) && outcome == (Outcome {
            result: semantic(wrong_argument_count(name, parameters.len(), values.len())),
            bindings,
        }),
{
}

/// Whatever the body of a function binds, the bindings of its caller are
/// after the call what they were before it.
pub proof fn lemma_call_leaves_bindings(
    name: Seq<char>,
    callee: Value,
    values: Seq<Value>,
    bindings: Bindings,
    depth: nat,
    outcome: Outcome,
)
    requires
        callee is Function,
        call_yields(name, callee, values, bindings, depth, outcome),
    ensures
        outcome.bindings == bindings,
{
}

} // verus!
