//! The evaluator: it walks the syntax nodes and gives each its value.
//!
//! Evaluation is sequential and ends at the first failure. A block and the
//! body of a function run in an evaluator of their own, on a copy of the
//! bindings, so nothing that they bind reaches their caller. Calls of the
//! program's functions nest no deeper than the evaluator's limit; a call
//! beyond it fails.

use vstd::prelude::*;
use vstd::string::StringExecFns;
use crate::error::{StrawberryError, StrawberryErrorKind};
use crate::number::{compare, is_numeral, is_zero, numeral, signed, zero};
use crate::semantics::{
    arguments_yield, bind_all, call_yields, comparison_result, expression_allows, lemma_arguments,
    lemma_arguments_fail, lemma_binary, lemma_body, lemma_call, lemma_let, lemma_sequence,
    lemma_sequence_fails, chosen, node_yields, sequence_yields, ListOutcome, Outcome,
};
use crate::text::{decimal_text, enclose};
use crate::token::{
    duplicate_all, duplicate_names, names_of, nodes_of, ComparisonKind, ExpressionKind, Node,
    NodeKind, Token, TokenKind,
};
pub use crate::value::{Environment, StrawberryValue};
use crate::value::{values_of, Bindings, Value};

verus! {

/// How deep calls of the program's functions may nest unless the evaluator
/// is made with another limit.
pub const DEFAULT_DEPTH: usize = 256;

/// What the evaluator asks of its host: the arithmetic of the machine, and
/// the native functions.
///
/// Numbers pass to and from the host as bit patterns. A host on a machine
/// with floating point turns each pattern into the machine's number,
/// computes, and turns the result back into its pattern. The evaluator
/// promises nothing of what the host answers; it promises what it hands to
/// the host: numerals that are well formed, and no division by zero.
pub trait Host {
    /// The number nearest to the numeral `digits`, as its bit pattern.
    fn number(&mut self, digits: &String) -> u64
        requires
            is_numeral(digits@),
    ;

    /// `left operator right`, as a bit pattern. The evaluator never asks for
    /// a division by zero.
    fn arithmetic(&mut self, operator: ExpressionKind, left: u64, right: u64) -> u64
        requires
            operator == ExpressionKind::Divide ==> !is_zero(right),
    ;

    /// The number `number`, written in decimal.
    fn text(&mut self, number: u64) -> String
    ;

    /// Runs the native function `label` on `arguments`. It may read and
    /// change the bindings of `context`, the evaluator that makes the call.
    fn native(
        &mut self,
        label: &String,
        arguments: Vec<StrawberryValue>,
        context: &mut StrawberryParser,
    ) -> Result<StrawberryValue, StrawberryError>
    ;
}

/// The evaluator's state: the nodes to evaluate, the bindings, and how deep
/// calls of the program's functions may still nest.
pub struct StrawberryParser {
    pub tokens: Vec<Token>,
    pub variables: Environment,
    pub depth: usize,
}

/// The content of `result`, with the bindings that `variables` holds.
pub open spec fn outcome_of(
    result: Result<StrawberryValue, StrawberryError>,
    variables: Environment,
) -> Outcome {
    Outcome { result: content_of(result), bindings: variables@ }
}

/// The content of `result`.
pub open spec fn content_of(result: Result<StrawberryValue, StrawberryError>) -> Result<
    Value,
    crate::error::Failure,
> {
    match result {
        Ok(value) => Ok(value@),
        Err(error) => Err(error@),
    }
}

fn semantic_failure(message: String) -> (error: StrawberryError)
    ensures
        error@ == crate::error::Failure::Semantic(message@),
{
    StrawberryError { kind: StrawberryErrorKind::SemanticError(message) }
}

impl StrawberryParser {
    /// An evaluator of `tokens` that starts with the bindings `variables`.
    pub fn new(tokens: Vec<Token>, variables: Environment) -> (parser: Self)
        ensures
            parser.tokens == tokens,
            parser.variables == variables,
            parser.depth == DEFAULT_DEPTH,
    {
        Self { tokens, variables, depth: DEFAULT_DEPTH }
    }

    /// An evaluator of `tokens` in which calls may nest `depth` deep.
    pub fn with_depth(tokens: Vec<Token>, variables: Environment, depth: usize) -> (parser: Self)
        ensures
            parser.tokens == tokens,
            parser.variables == variables,
            parser.depth == depth,
    {
        Self { tokens, variables, depth }
    }

    /// An evaluator of `tokens` on a copy of this one's bindings, with this
    /// one's limit on nesting.
    pub fn fork(&self, tokens: Vec<Token>) -> (parser: Self)
        ensures
            parser.tokens == tokens,
            parser.variables@ == self.variables@,
            parser.depth == self.depth,
    {
        Self { tokens, variables: self.variables.duplicate(), depth: self.depth }
    }

    fn evaluate_numeric_expression<H: Host>(
        host: &mut H,
        operator: ExpressionKind,
        lhs: u64,
        rhs: u64,
    ) -> (result: Result<StrawberryValue, StrawberryError>)
        ensures
            expression_allows(operator, Value::Number(lhs), Value::Number(rhs), content_of(result)),
    {
        match operator {
            ExpressionKind::Divide => {
                if zero(rhs) {
                    return Err(StrawberryError::semantic_error("Division by zero"));
                }
            },
            _ => {},
        }
        Ok(StrawberryValue::Number(host.arithmetic(operator, lhs, rhs)))
    }

    fn evaluate_string_expression(operator: ExpressionKind, lhs: String, rhs: String) -> (result:
        Result<StrawberryValue, StrawberryError>)
        ensures
            expression_allows(operator, Value::String(lhs@), Value::String(rhs@), content_of(result)),
    {
        match operator {
            ExpressionKind::Add => Ok(StrawberryValue::String(lhs.concat(rhs.as_str()))),
            _ => Err(
                StrawberryError::semantic_error(
                    "Invalid string operation; only concatenation is supported",
                ),
            ),
        }
    }

    fn evaluate_expression<H: Host>(
        host: &mut H,
        operator: ExpressionKind,
        left: StrawberryValue,
        right: StrawberryValue,
    ) -> (result: Result<StrawberryValue, StrawberryError>)
        ensures
            expression_allows(operator, left@, right@, content_of(result)),
    {
        match (left, right) {
            (StrawberryValue::Number(lhs), StrawberryValue::Number(rhs)) => {
                Self::evaluate_numeric_expression(host, operator, lhs, rhs)
            },
            (StrawberryValue::String(lhs), StrawberryValue::String(rhs)) => {
                Self::evaluate_string_expression(operator, lhs, rhs)
            },
            _ => Err(
                StrawberryError::semantic_error("Cannot evaluate expression with mixed types"),
            ),
        }
    }

    fn evaluate_comparison(
        operator: ComparisonKind,
        left: StrawberryValue,
        right: StrawberryValue,
    ) -> (result: Result<StrawberryValue, StrawberryError>)
        ensures
            content_of(result) == comparison_result(operator, left@, right@),
    {
        match (left, right) {
            (StrawberryValue::Number(lhs), StrawberryValue::Number(rhs)) => Ok(
                StrawberryValue::Boolean(compare(operator, lhs, rhs)),
            ),
            (StrawberryValue::String(lhs), StrawberryValue::String(rhs)) => match operator {
                ComparisonKind::Equal => Ok(StrawberryValue::Boolean(lhs == rhs)),
                ComparisonKind::NotEqual => Ok(StrawberryValue::Boolean(!(lhs == rhs))),
                _ => Err(
                    StrawberryError::semantic_error("Invalid comparison or unsupported types"),
                ),
            },
            (StrawberryValue::Boolean(lhs), StrawberryValue::Boolean(rhs)) => match operator {
                ComparisonKind::Equal => Ok(StrawberryValue::Boolean(lhs == rhs)),
                ComparisonKind::NotEqual => Ok(StrawberryValue::Boolean(lhs != rhs)),
                _ => Err(
                    StrawberryError::semantic_error("Invalid comparison or unsupported types"),
                ),
            },
            _ => Err(StrawberryError::semantic_error("Invalid comparison or unsupported types")),
        }
    }

    fn visit_expression<H: Host>(&mut self, host: &mut H, token: &Token, depth: usize) -> (result:
        Result<StrawberryValue, StrawberryError>)
        requires
            token.kind is Number || token.kind is LiteralString || token.kind is Expression,
        ensures
            node_yields(
                token@,
                old(self).variables@,
                depth as nat,
                outcome_of(result, final(self).variables),
            ),
        decreases depth, 1nat, token, 0nat,
    {
        match &token.kind {
            TokenKind::Number(literal) => {
                if !numeral(&literal.digits) {
                    return Err(
                        semantic_failure(enclose("\"", &literal.digits, "\" is not a valid number")),
                    );
                }
                let bits = host.number(&literal.digits);
                Ok(StrawberryValue::Number(signed(literal.negative, bits)))
            },
            TokenKind::LiteralString(string) => Ok(StrawberryValue::String(string.clone())),
            TokenKind::Expression(operator, left, right) => {
                let ghost start = self.variables@;
                let left_result = self.parse_token(host, left, depth);
                let ghost first = outcome_of(left_result, self.variables);
                let left_value = match left_result {
                    Ok(value) => value,
                    Err(error) => {
                        proof {
                            lemma_binary(token@, start, depth as nat, first, first, first);
                        }
                        return Err(error);
                    },
                };
                let right_result = self.parse_token(host, right, depth);
                let ghost second = outcome_of(right_result, self.variables);
                let right_value = match right_result {
                    Ok(value) => value,
                    Err(error) => {
                        proof {
                            lemma_binary(token@, start, depth as nat, first, second, second);
                        }
                        return Err(error);
                    },
                };
                let result = Self::evaluate_expression(host, *operator, left_value, right_value);
                proof {
                    lemma_binary(token@, start, depth as nat, first, second, outcome_of(result, self.variables));
                }
                result
            },
            _ => Err(StrawberryError::semantic_error("Invalid expression token")),
        }
    }

    fn visit_comparison<H: Host>(&mut self, host: &mut H, token: &Token, depth: usize) -> (result:
        Result<StrawberryValue, StrawberryError>)
        requires
            token.kind is Comparison,
        ensures
            node_yields(
                token@,
                old(self).variables@,
                depth as nat,
                outcome_of(result, final(self).variables),
            ),
        decreases depth, 1nat, token, 0nat,
    {
        match &token.kind {
            TokenKind::Comparison(operator, left, right) => {
                let ghost start = self.variables@;
                let left_result = self.parse_token(host, left, depth);
                let ghost first = outcome_of(left_result, self.variables);
                let left_value = match left_result {
                    Ok(value) => value,
                    Err(error) => {
                        proof {
                            lemma_binary(token@, start, depth as nat, first, first, first);
                        }
                        return Err(error);
                    },
                };
                let right_result = self.parse_token(host, right, depth);
                let ghost second = outcome_of(right_result, self.variables);
                let right_value = match right_result {
                    Ok(value) => value,
                    Err(error) => {
                        proof {
                            lemma_binary(token@, start, depth as nat, first, second, second);
                        }
                        return Err(error);
                    },
                };
                let result = Self::evaluate_comparison(*operator, left_value, right_value);
                proof {
                    lemma_binary(token@, start, depth as nat, first, second, outcome_of(result, self.variables));
                }
                result
            },
            _ => Err(StrawberryError::semantic_error("Unknown token type")),
        }
    }

    fn visit_let<H: Host>(&mut self, host: &mut H, token: &Token, depth: usize) -> (result: Result<
        StrawberryValue,
        StrawberryError,
    >)
        requires
            token.kind is Let,
        ensures
            node_yields(
                token@,
                old(self).variables@,
                depth as nat,
                outcome_of(result, final(self).variables),
            ),
        decreases depth, 1nat, token, 0nat,
    {
        match &token.kind {
            TokenKind::Let(name, value) => {
                let ghost start = self.variables@;
                let evaluated_value = match value {
                    Some(value_token) => {
                        let evaluated = self.parse_token(host, value_token, depth);
                        let ghost inner = outcome_of(evaluated, self.variables);
                        match evaluated {
                            Ok(value) => {
                                self.variables.insert(name.clone(), value.duplicate());
                                proof {
                                    lemma_let(
                                        token@,
                                        start,
                                        depth as nat,
                                        inner,
                                        outcome_of(Ok(value), self.variables),
                                    );
                                }
                                return Ok(value);
                            },
                            Err(error) => {
                                proof {
                                    lemma_let(token@, start, depth as nat, inner, inner);
                                }
                                return Err(error);
                            },
                        }
                    },
                    None => StrawberryValue::Empty,
                };
                self.variables.insert(name.clone(), evaluated_value.duplicate());
                Ok(evaluated_value)
            },
            _ => Err(StrawberryError::semantic_error("Expected a Let token")),
        }
    }

    fn undefined_variable(name: &String) -> (error: StrawberryError)
        ensures
            error@ == crate::error::Failure::Semantic(crate::semantics::undefined_variable(name@)),
    {
        let mut message = String::from_str("Undefined variable: ");
        message.append(name.as_str());
        semantic_failure(message)
    }

    fn visit_identifier(&self, token: &Token) -> (result: Result<StrawberryValue, StrawberryError>)
        requires
            token.kind is Identifier,
        ensures
            forall|depth: nat| #[trigger]
                node_yields(token@, self.variables@, depth, outcome_of(result, self.variables)),
    {
        match &token.kind {
            TokenKind::Identifier(name) => match self.variables.get(name) {
                Some(value) => Ok(value.duplicate()),
                None => Err(Self::undefined_variable(name)),
            },
            _ => Err(StrawberryError::semantic_error("Expected an Identifier token")),
        }
    }

    fn visit_function(&mut self, token: &Token) -> (result: Result<StrawberryValue, StrawberryError>)
        requires
            token.kind is Function,
        ensures
            forall|depth: nat| #[trigger]
                node_yields(
                    token@,
                    old(self).variables@,
                    depth,
                    outcome_of(result, final(self).variables),
                ),
    {
        match &token.kind {
            TokenKind::Function(name, arguments, scope) => {
                assert(token@.kind == NodeKind::Function(
                    name@,
                    names_of(*arguments),
                    Box::new(scope@),
                ));
                match &scope.kind {
                    TokenKind::BracketScope(tokens) => {
                        assert(scope@.kind == NodeKind::BracketScope(nodes_of(*tokens)));
                        self.variables.insert(
                            name.clone(),
                            StrawberryValue::Function(
                                name.clone(),
                                duplicate_names(arguments),
                                duplicate_all(tokens),
                            ),
                        );
                    },
                    _ => {},
                }
                Ok(StrawberryValue::Empty)
            },
            _ => Err(StrawberryError::semantic_error("Expected a Function token")),
        }
    }

    fn wrong_argument_count(name: &String, expected: usize, got: usize) -> (error: StrawberryError)
        ensures
            error@ == crate::error::Failure::Semantic(
                crate::semantics::wrong_argument_count(name@, expected as nat, got as nat),
            ),
    {
        let mut message = String::from_str("Function ");
        message.append(name.as_str());
        message.append(" expected ");
        message.append(decimal_text(expected).as_str());
        message.append(" arguments, but got ");
        message.append(decimal_text(got).as_str());
        semantic_failure(message)
    }

    fn call<H: Host>(
        &mut self,
        host: &mut H,
        name: &String,
        function: StrawberryValue,
        values: Vec<StrawberryValue>,
        depth: usize,
    ) -> (result: Result<StrawberryValue, StrawberryError>)
        ensures
            call_yields(
                name@,
                function@,
                values_of(values),
                old(self).variables@,
                depth as nat,
                outcome_of(result, final(self).variables),
            ),
        decreases depth, 0nat,
    {
        match function {
            StrawberryValue::NativeFunction(label) => host.native(&label, values, self),
            StrawberryValue::Function(_, params, body) => {
                if params.len() != values.len() {
                    return Err(Self::wrong_argument_count(name, params.len(), values.len()));
                }
                if depth == 0 {
                    return Err(StrawberryError::semantic_error("Too many nested function calls"));
                }
                let mut scope = self.variables.duplicate();
                let mut i: usize = 0;
                while i < params.len()
                    invariant
                        i <= params.len(),
                        params.len() == values.len(),
                        scope@ == bind_all(
                            self.variables@,
                            names_of(params).take(i as int),
                            values_of(values).take(i as int),
                        ),
                    decreases params.len() - i,
                {
                    proof {
                        let p = names_of(params).take(i + 1);
                        let v = values_of(values).take(i + 1);
                        assert(p.drop_last() =~= names_of(params).take(i as int));
                        assert(v.drop_last() =~= values_of(values).take(i as int));
                    }
                    scope.insert(params[i].clone(), values[i].duplicate());
                    i += 1;
                }
                proof {
                    assert(names_of(params).take(i as int) =~= names_of(params));
                    assert(values_of(values).take(i as int) =~= values_of(values));
                }
                let mut inner = StrawberryParser {
                    tokens: duplicate_all(&body),
                    variables: scope,
                    depth: depth - 1,
                };
                let result = inner.evaluate_sequence(host, &body, depth - 1);
                proof {
                    lemma_body(
                        name@,
                        function@,
                        values_of(values),
                        self.variables@,
                        depth as nat,
                        outcome_of(result, inner.variables),
                        outcome_of(result, self.variables),
                    );
                }
                result
            },
            _ => {
                let mut message = name.clone();
                message.append(" is not callable");
                Err(semantic_failure(message))
            },
        }
    }

    fn visit_call<H: Host>(&mut self, host: &mut H, token: &Token, depth: usize) -> (result:
        Result<StrawberryValue, StrawberryError>)
        requires
            token.kind is Call,
        ensures
            node_yields(
                token@,
                old(self).variables@,
                depth as nat,
                outcome_of(result, final(self).variables),
            ),
        decreases depth, 1nat, token, 0nat,
    {
        match &token.kind {
            TokenKind::Call(function_name, args) => {
                let function = match self.variables.get(function_name) {
                    Some(value) => value.duplicate(),
                    None => {
                        return Err(Self::undefined_variable(function_name));
                    },
                };
                let ghost start = self.variables@;
                let ghost nodes = nodes_of(*args);
                let mut args_values: Vec<StrawberryValue> = Vec::new();
                let mut i: usize = 0;
                proof {
                    assert(values_of(args_values) =~= Seq::<Value>::empty());
                    assert(nodes.take(0) =~= Seq::<Node>::empty());
                }
                while i < args.len()
                    invariant
                        i <= args.len(),
                        nodes == nodes_of(*args),
                        token.kind == TokenKind::Call(*function_name, *args),
                        start == old(self).variables@,
                        start.contains_key(function_name@),
                        arguments_yield(
                            nodes.take(i as int),
                            start,
                            depth as nat,
                            ListOutcome {
                                result: Ok(values_of(args_values)),
                                bindings: self.variables@,
                            },
                        ),
                    decreases args.len() - i,
                {
                    let ghost before = ListOutcome {
                        result: Ok(values_of(args_values)),
                        bindings: self.variables@,
                    };
                    let evaluated = self.parse_token(host, &args[i], depth);
                    let ghost last = outcome_of(evaluated, self.variables);
                    proof {
                        assert(nodes.take(i + 1).drop_last() =~= nodes.take(i as int));
                        assert(nodes.take(i + 1).last() == args[i as int]@);
                    }
                    match evaluated {
                        Ok(value) => {
                            let ghost earlier = values_of(args_values);
                            args_values.push(value);
                            proof {
                                assert(values_of(args_values) =~= earlier.push(value@));
                                lemma_arguments(nodes.take(i + 1), start, depth as nat, before, last, ListOutcome { result: Ok(values_of(args_values)), bindings: self.variables@, });
                            }
                        },
                        Err(error) => {
                            proof {
                                let failed = ListOutcome {
                                    result: Err(error@),
                                    bindings: self.variables@,
                                };
                                lemma_arguments(nodes.take(i + 1), start, depth as nat, before, last, failed);
                                lemma_arguments_fail(nodes, start, depth as nat, i + 1, failed);
                                lemma_call(token@, start, depth as nat, failed, outcome_of(Err(error), self.variables));
                            }
                            return Err(error);
                        },
                    }
                    i += 1;
                }
                proof {
                    assert(nodes.take(i as int) =~= nodes);
                }
                let ghost evaluated = ListOutcome {
                    result: Ok(values_of(args_values)),
                    bindings: self.variables@,
                };
                let result = self.call(host, function_name, function, args_values, depth);
                proof {
                    lemma_call(token@, start, depth as nat, evaluated, outcome_of(result, self.variables));
                }
                result
            },
            _ => Err(StrawberryError::semantic_error("Expected a Call token")),
        }
    }

    fn parse_token<H: Host>(&mut self, host: &mut H, token: &Token, depth: usize) -> (result:
        Result<StrawberryValue, StrawberryError>)
        ensures
            node_yields(
                token@,
                old(self).variables@,
                depth as nat,
                outcome_of(result, final(self).variables),
            ),
        decreases depth, 1nat, token, 1nat,
    {
        match &token.kind {
            TokenKind::Boolean(value) => Ok(StrawberryValue::Boolean(*value)),
            TokenKind::BracketScope(value) => Ok(StrawberryValue::Block(duplicate_all(value))),
            TokenKind::LiteralString(_) | TokenKind::Number(_) | TokenKind::Expression(
                _,
                _,
                _,
            ) => self.visit_expression(host, token, depth),
            TokenKind::Let(_, _) => self.visit_let(host, token, depth),
            TokenKind::Identifier(_) => self.visit_identifier(token),
            TokenKind::Function(_, _, _) => self.visit_function(token),
            TokenKind::Call(_, _) => self.visit_call(host, token, depth),
            TokenKind::Comparison(_, _, _) => self.visit_comparison(host, token, depth),
            _ => Err(StrawberryError::semantic_error("Unknown token type")),
        }
    }

    fn evaluate_sequence<H: Host>(&mut self, host: &mut H, tokens: &Vec<Token>, depth: usize) -> (result:
        Result<StrawberryValue, StrawberryError>)
        ensures
            sequence_yields(
                nodes_of(*tokens),
                old(self).variables@,
                depth as nat,
                outcome_of(result, final(self).variables),
            ),
        decreases depth, 1nat, tokens, 0nat,
    {
        let ghost start = self.variables@;
        let ghost nodes = nodes_of(*tokens);
        let mut last_result = StrawberryValue::Empty;
        let mut i: usize = 0;
        proof {
            assert(nodes.take(0) =~= Seq::<Node>::empty());
        }
        while i < tokens.len()
            invariant
                i <= tokens.len(),
                nodes == nodes_of(*tokens),
                start == old(self).variables@,
                sequence_yields(
                    nodes.take(i as int),
                    start,
                    depth as nat,
                    Outcome { result: Ok(last_result@), bindings: self.variables@ },
                ),
            decreases tokens.len() - i,
        {
            let ghost before = Outcome { result: Ok(last_result@), bindings: self.variables@ };
            let evaluated = self.parse_token(host, &tokens[i], depth);
            proof {
                assert(nodes.take(i + 1).drop_last() =~= nodes.take(i as int));
                assert(nodes.take(i + 1).last() == tokens[i as int]@);
                lemma_sequence(nodes.take(i + 1), start, depth as nat, before, outcome_of(evaluated, self.variables));
            }
            match evaluated {
                Ok(value) => {
                    last_result = value;
                },
                Err(error) => {
                    proof {
                        lemma_sequence_fails(
                            nodes,
                            start,
                            depth as nat,
                            i + 1,
                            outcome_of(evaluated, self.variables),
                        );
                    }
                    return Err(error);
                },
            }
            i += 1;
        }
        proof {
            assert(nodes.take(i as int) =~= nodes);
        }
        Ok(last_result)
    }

    /// Evaluates the nodes one after another and returns the value of the
    /// last one, or `Empty` if there is none. The first failure ends the
    /// evaluation.
    pub fn run_token_stream<H: Host>(&mut self, host: &mut H) -> (result: Result<
        StrawberryValue,
        StrawberryError,
    >)
        ensures
            sequence_yields(
                nodes_of(old(self).tokens),
                old(self).variables@,
                old(self).depth as nat,
                outcome_of(result, final(self).variables),
            ),
    {
        let tokens = duplicate_all(&self.tokens);
        let depth = self.depth;
        self.evaluate_sequence(host, &tokens, depth)
    }
}

/// Whether evaluating `nodes` with `bindings` may give `result`, whatever
/// the bindings are in the end.
pub open spec fn evaluation_allows(
    nodes: Seq<Node>,
    bindings: Bindings,
    depth: nat,
    result: Result<Value, crate::error::Failure>,
) -> bool {
    exists|after: Bindings| #[trigger]
        chosen(after) && sequence_yields(nodes, bindings, depth, Outcome { result, bindings: after })
}

/// Evaluates `nodes` one after another, starting with the bindings of
/// `environment`: the value of the last node, or the first failure.
pub fn evaluate<H: Host>(nodes: Vec<Token>, environment: Environment, host: &mut H) -> (result:
    Result<StrawberryValue, StrawberryError>)
    ensures
        evaluation_allows(nodes_of(nodes), environment@, DEFAULT_DEPTH as nat, content_of(result)),
{
    let mut parser = StrawberryParser::new(nodes, environment);
    let result = parser.run_token_stream(host);
    assert(chosen(parser.variables@));
    result
}

} // verus!
