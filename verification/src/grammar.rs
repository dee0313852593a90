//! What the tokenizer makes of a source text, stated over sequences of
//! characters.
//!
//! Scanning and parsing are one pass. A node is scanned with the operand
//! stack of the construct it stands in: the nodes already completed there. An
//! operator takes its left operand from the top of that stack, so operators
//! nest to the left whatever they are: `1 + 2 * 3` is `(1 + 2) * 3`. A block,
//! an argument list and the value of a `let` each start with an empty stack
//! of their own.
//!
//! The first failure is the failure of the whole text.
//!
//! These functions are recursive, and each says by how much the rest of the
//! text shrinks. Where a scan goes on after a node, it therefore asks that
//! the node has taken it further on, within the text. `lemma_scan_advances`
//! among the laws shows that a node always has, so the branch that answers
//! with an empty message is never taken.

use vstd::prelude::*;
use crate::text::{char_is_alphabetic, char_is_whitespace, is_digit, is_operator_char, is_symbol_char};
use crate::token::{span_of, ComparisonKind, ExpressionKind, Node, NodeKind, NumeralModel};

verus! {

/// The outcome of scanning one node.
pub ghost enum Scan {
    /// The node that was scanned, where the scan stopped, and the operand
    /// stack as the scan left it (the node itself not yet on it).
    Node { token: Node, next: int, stack: Seq<Node> },
    /// The text is malformed.
    Failure { message: Seq<char> },
}

/// The outcome of scanning a run of nodes.
pub ghost enum ListScan {
    /// The nodes, in source order, and where the scan stopped.
    Nodes { nodes: Seq<Node>, next: int },
    /// The text is malformed.
    Failure { message: Seq<char> },
}

/// The first place at or after `pos` that holds no white space.
pub open spec fn skip_whitespace(s: Seq<char>, pos: int) -> int
    decreases s.len() - pos,
{
    if 0 <= pos < s.len() && char_is_whitespace(s[pos]) {
        skip_whitespace(s, pos + 1)
    } else {
        pos
    }
}

/// The first place at or after `pos` that holds no operator character.
pub open spec fn operator_end(s: Seq<char>, pos: int) -> int
    decreases s.len() - pos,
{
    if 0 <= pos < s.len() && is_operator_char(s[pos]) {
        operator_end(s, pos + 1)
    } else {
        pos
    }
}

/// The first place at or after `pos` that holds no symbol character.
pub open spec fn symbol_end(s: Seq<char>, pos: int) -> int
    decreases s.len() - pos,
{
    if 0 <= pos < s.len() && is_symbol_char(s[pos]) {
        symbol_end(s, pos + 1)
    } else {
        pos
    }
}

/// Skipping white space stops at or after the place where it starts, within
/// the text.
pub proof fn lemma_skip_whitespace(s: Seq<char>, pos: int)
    requires
        0 <= pos <= s.len(),
    ensures
        pos <= skip_whitespace(s, pos) <= s.len(),
    decreases s.len() - pos,
{
    if pos < s.len() && char_is_whitespace(s[pos]) {
        lemma_skip_whitespace(s, pos + 1);
    }
}

/// A run of operator characters ends at or after the place where it starts,
/// within the text.
pub proof fn lemma_operator_end(s: Seq<char>, pos: int)
    requires
        0 <= pos <= s.len(),
    ensures
        pos <= operator_end(s, pos) <= s.len(),
    decreases s.len() - pos,
{
    if pos < s.len() && is_operator_char(s[pos]) {
        lemma_operator_end(s, pos + 1);
    }
}

/// A run of symbol characters ends at or after the place where it starts,
/// within the text.
pub proof fn lemma_symbol_end(s: Seq<char>, pos: int)
    requires
        0 <= pos <= s.len(),
    ensures
        pos <= symbol_end(s, pos) <= s.len(),
    decreases s.len() - pos,
{
    if pos < s.len() && is_symbol_char(s[pos]) {
        lemma_symbol_end(s, pos + 1);
    }
}

/// Where a number that holds `pos` ends: digits go on, and one point does
/// unless `pointed` says that the number has one already.
pub open spec fn number_end(s: Seq<char>, pos: int, pointed: bool) -> int
    decreases s.len() - pos,
{
    if 0 <= pos < s.len() && is_digit(s[pos]) {
        number_end(s, pos + 1, pointed)
    } else if 0 <= pos < s.len() && s[pos] == '.' && !pointed {
        number_end(s, pos + 1, true)
    } else {
        pos
    }
}

/// The first place at or after `pos` that ends a string: the end of the text,
/// a back quote in a multi-line string, a quote or a line feed in a
/// single-line one.
pub open spec fn string_end(s: Seq<char>, pos: int, multiline: bool) -> int
    decreases s.len() - pos,
{
    if 0 <= pos < s.len() && !ends_string(s[pos], multiline) {
        string_end(s, pos + 1, multiline)
    } else {
        pos
    }
}

/// Whether `c` ends a string: a back quote ends a multi-line string, a
/// quote or a line feed a single-line one.
pub open spec fn ends_string(c: char, multiline: bool) -> bool {
    if multiline {
        c == '`'
    } else {
        c == '\'' || c == '\n'
    }
}

/// The arithmetic operator that `run` spells, if any.
pub open spec fn arithmetic_operator(run: Seq<char>) -> Option<ExpressionKind> {
    if run.len() != 1 {
        None
    } else if run[0] == '+' {
        Some(ExpressionKind::Add)
    } else if run[0] == '-' {
        Some(ExpressionKind::Subtract)
    } else if run[0] == '*' {
        Some(ExpressionKind::Multiply)
    } else if run[0] == '/' {
        Some(ExpressionKind::Divide)
    } else {
        None
    }
}

/// The comparison operator that `run` spells, if any.
pub open spec fn comparison_operator(run: Seq<char>) -> Option<ComparisonKind> {
    if run.len() == 1 && run[0] == '>' {
        Some(ComparisonKind::GreaterThan)
    } else if run.len() == 1 && run[0] == '<' {
        Some(ComparisonKind::LessThan)
    } else if run.len() == 2 && run[1] == '=' && run[0] == '=' {
        Some(ComparisonKind::Equal)
    } else if run.len() == 2 && run[1] == '=' && run[0] == '!' {
        Some(ComparisonKind::NotEqual)
    } else if run.len() == 2 && run[1] == '=' && run[0] == '>' {
        Some(ComparisonKind::GreaterEqual)
    } else if run.len() == 2 && run[1] == '=' && run[0] == '<' {
        Some(ComparisonKind::LessEqual)
    } else {
        None
    }
}

/// Whether `run` is the single character `=`.
pub open spec fn is_attribution(run: Seq<char>) -> bool {
    run.len() == 1 && run[0] == '='
}

/// The message for a run of operator characters that spells no operator,
/// or an operator that lacks an operand.
pub open spec fn unknown_operator(run: Seq<char>) -> Seq<char> {
    "The operator \""@ + run + "\" does not exists."@
}

/// The message for a character that starts no node.
pub open spec fn unexpected_character(c: char) -> Seq<char> {
    "Unexpected character: \""@.push(c) + "\""@
}

/// The parameter names of a function whose signature was scanned as a call
/// with these arguments: an identifier gives its name, anything else the
/// empty name.
pub open spec fn parameter_names(arguments: Seq<Node>) -> Seq<Seq<char>> {
    Seq::new(
        arguments.len(),
        |i: int|
            match arguments[i].kind {
                NodeKind::Identifier(name) => name,
                _ => Seq::empty(),
            },
    )
}

/// The construct whose nodes are being scanned: the whole text, a block,
/// the arguments of a call, or the values of a `let`.
#[derive(Debug, Clone, Copy, PartialEq, Eq)]
pub enum Scope {
    Text,
    Block,
    Arguments,
    Values,
}

/// Whether `c` ends the nodes of `scope`: a brace ends a block, a
/// parenthesis ends arguments, a semicolon ends values, and only its end
/// ends the text.
pub open spec fn closes(scope: Scope, c: char) -> bool {
    match scope {
        Scope::Text => false,
        Scope::Block => c == '}',
        Scope::Arguments => c == ')',
        Scope::Values => c == ';',
    }
}

/// Whether `c` stands between the nodes of `scope`: white space does, and
/// between arguments a comma does.
pub open spec fn separates(scope: Scope, c: char) -> bool {
    char_is_whitespace(c) || (scope == Scope::Arguments && c == ',')
}

/// The message for a text that ends within `scope`.
pub open spec fn unclosed(scope: Scope) -> Seq<char> {
    match scope {
        Scope::Text => Seq::empty(),
        Scope::Block => "Scope was not closed"@,
        Scope::Arguments => "Function call was not closed"@,
        Scope::Values => "Let statement was expecting a semicolon"@,
    }
}

/// A single-line string that starts with the quote at `pos`.
pub open spec fn scan_literal_string(s: Seq<char>, pos: int) -> Scan {
    let end = string_end(s, pos + 1, false);
    if end < s.len() && s[end] == '\'' {
        Scan::Node {
            token: Node {
                kind: NodeKind::LiteralString(s.subrange(pos + 1, end)),
                span: span_of(s, pos, end + 1),
            },
            next: end + 1,
            stack: Seq::empty(),
        }
    } else {
        Scan::Failure { message: "Missing \"'\" at the end of the string"@ }
    }
}

/// A multi-line string that starts with the back quote at `pos`.
pub open spec fn scan_multiline_string(s: Seq<char>, pos: int) -> Scan {
    let end = string_end(s, pos + 1, true);
    if end < s.len() {
        Scan::Node {
            token: Node {
                kind: NodeKind::LiteralString(s.subrange(pos + 1, end)),
                span: span_of(s, pos, end + 1),
            },
            next: end + 1,
            stack: Seq::empty(),
        }
    } else {
        Scan::Failure { message: "Missing \"`\" at the end of the string"@ }
    }
}

/// A number that starts with the digit at `pos`.
pub open spec fn scan_number(s: Seq<char>, pos: int) -> Scan {
    let end = number_end(s, pos, false);
    Scan::Node {
        token: Node {
            kind: NodeKind::Number(
                NumeralModel { negative: false, digits: s.subrange(pos, end) },
            ),
            span: span_of(s, pos, end),
        },
        next: end,
        stack: Seq::empty(),
    }
}

/// `scan` with `stack` as the operand stack it leaves.
pub open spec fn with_stack(scan: Scan, stack: Seq<Node>) -> Scan {
    match scan {
        Scan::Node { token, next, stack: _ } => Scan::Node { token, next, stack },
        Scan::Failure { message } => Scan::Failure { message },
    }
}

/// The node that starts at `pos`, scanned with the operand stack `stack`.
pub open spec fn scan_node(s: Seq<char>, pos: int, stack: Seq<Node>) -> Scan
    decreases s.len() - pos, 2nat,
{
    if !(0 <= pos < s.len()) {
        Scan::Failure { message: "Unexpected EOF."@ }
    } else if s[pos] == '\'' {
        with_stack(scan_literal_string(s, pos), stack)
    } else if s[pos] == '`' {
        with_stack(scan_multiline_string(s, pos), stack)
    } else if s[pos] == '{' {
        with_stack(scan_block(s, pos), stack)
    } else if is_operator_char(s[pos]) {
        scan_operator(s, pos, stack)
    } else if is_digit(s[pos]) {
        with_stack(scan_number(s, pos), stack)
    } else if char_is_alphabetic(s[pos]) {
        scan_symbol(s, pos, stack)
    } else {
        Scan::Failure { message: unexpected_character(s[pos]) }
    }
}

/// The block that starts with the brace at `pos`.
pub open spec fn scan_block(s: Seq<char>, pos: int) -> Scan
    decreases s.len() - pos, 1nat,
{
    if !(0 <= pos < s.len()) {
        Scan::Failure { message: "Scope was not closed"@ }
    } else {
        match scan_run(s, pos + 1, Seq::empty(), Scope::Block) {
            ListScan::Nodes { nodes, next } => Scan::Node {
                token: Node { kind: NodeKind::BracketScope(nodes), span: span_of(s, pos, next) },
                next,
                stack: Seq::empty(),
            },
            ListScan::Failure { message } => Scan::Failure { message },
        }
    }
}

/// The nodes of `scope` from `pos` on, after the nodes in `stack`: up to the
/// character that closes the scope, or to the end of the text where the
/// scope is the text itself. A text that ends within a block, within
/// arguments or within values is malformed.
pub open spec fn scan_run(s: Seq<char>, pos: int, stack: Seq<Node>, scope: Scope) -> ListScan
    decreases s.len() - pos, 3nat,
{
    if !(0 <= pos < s.len()) {
        if scope == Scope::Text {
            ListScan::Nodes { nodes: stack, next: pos }
        } else {
            ListScan::Failure { message: unclosed(scope) }
        }
    } else if closes(scope, s[pos]) {
        ListScan::Nodes { nodes: stack, next: pos + 1 }
    } else if separates(scope, s[pos]) {
        scan_run(s, pos + 1, stack, scope)
    } else {
        match scan_node(s, pos, stack) {
            Scan::Node { token, next, stack: rest } => if pos < next <= s.len() {
                scan_run(s, next, rest.push(token), scope)
            } else {
                ListScan::Failure { message: Seq::empty() }
            },
            Scan::Failure { message } => ListScan::Failure { message },
        }
    }
}

/// The operator that starts at `pos`: the longest run of operator characters.
/// A lone `=` is a node of its own. An arithmetic or comparison operator
/// takes the top of `stack` as its left operand and the next node as its
/// right one; the span of the result starts where the left operand starts.
/// A `-` that cannot be a subtraction negates the number that follows it.
pub open spec fn scan_operator(s: Seq<char>, pos: int, stack: Seq<Node>) -> Scan
    decreases s.len() - pos, 1nat,
{
    let end = operator_end(s, pos + 1);
    let run = s.subrange(pos, end);
    if !(0 <= pos < s.len()) {
        Scan::Failure { message: unknown_operator(run) }
    } else if is_attribution(run) {
        Scan::Node {
            token: Node { kind: NodeKind::Attribution, span: span_of(s, pos, end) },
            next: end,
            stack,
        }
    } else if arithmetic_operator(run) is None && comparison_operator(run) is None {
        Scan::Failure { message: unknown_operator(run) }
    } else {
        let rest = if stack.len() > 0 {
            stack.drop_last()
        } else {
            stack
        };
        let from = skip_whitespace(s, end);
        proof {
            lemma_operator_end(s, pos + 1);
            lemma_skip_whitespace(s, end);
        }
        let right = scan_node(s, from, rest);
        if stack.len() > 0 && right is Node {
            let left = stack.last();
            let kind = match arithmetic_operator(run) {
                Some(operator) => NodeKind::Expression(
                    operator,
                    Box::new(left),
                    Box::new(right->token),
                ),
                None => NodeKind::Comparison(
                    comparison_operator(run)->0,
                    Box::new(left),
                    Box::new(right->token),
                ),
            };
            Scan::Node {
                token: Node { kind, span: span_of(s, left.span.start, right->next) },
                next: right->next,
                stack: right->stack,
            }
        } else if arithmetic_operator(run) == Some(ExpressionKind::Subtract) {
            match right {
                Scan::Node {
                    token: Node { kind: NodeKind::Number(numeral), span: _ },
                    next,
                    stack: after,
                } => Scan::Node {
                    token: Node {
                        kind: NodeKind::Number(
                            NumeralModel { negative: !numeral.negative, digits: numeral.digits },
                        ),
                        span: span_of(s, pos, next),
                    },
                    next,
                    stack: after,
                },
                _ => Scan::Failure {
                    message: "The unary operator can be used only on numbers"@,
                },
            }
        } else {
            Scan::Failure { message: unknown_operator(run) }
        }
    }
}

/// The symbol that starts with the alphabetic character at `pos`: that
/// character and the symbol characters after it. `let` and `function` start
/// a statement, `true` and `false` are literals, a name with `(` right after
/// it is a call, and any other name is an identifier.
pub open spec fn scan_symbol(s: Seq<char>, pos: int, stack: Seq<Node>) -> Scan
    decreases s.len() - pos, 1nat,
{
    let end = symbol_end(s, pos + 1);
    let name = s.subrange(pos, end);
    if !(0 <= pos < s.len()) {
        Scan::Failure { message: "Unexpected EOF."@ }
    } else if name == "let"@ {
        scan_let(s, pos, stack)
    } else if name == "function"@ {
        with_stack(scan_function(s, pos), stack)
    } else if name == "true"@ || name == "false"@ {
        Scan::Node {
            token: Node { kind: NodeKind::Boolean(name == "true"@), span: span_of(s, pos, end) },
            next: end,
            stack,
        }
    } else if pos < end < s.len() && s[end] == '(' {
        match scan_run(s, end + 1, Seq::empty(), Scope::Arguments) {
            ListScan::Nodes { nodes, next } => Scan::Node {
                token: Node { kind: NodeKind::Call(name, nodes), span: span_of(s, pos, next) },
                next,
                stack,
            },
            ListScan::Failure { message } => Scan::Failure { message },
        }
    } else {
        Scan::Node {
            token: Node { kind: NodeKind::Identifier(name), span: span_of(s, pos, end) },
            next: end,
            stack,
        }
    }
}

/// A `let` whose keyword starts at `pos`: after the keyword an identifier,
/// then either a semicolon, or `=`, values and a semicolon. The last value is
/// the initializer; the values before it join `stack`.
pub open spec fn scan_let(s: Seq<char>, pos: int, stack: Seq<Node>) -> Scan
    decreases s.len() - pos, 0nat,
{
    let from = skip_whitespace(s, symbol_end(s, pos + 1));
    let target = if 0 <= pos < s.len() {
        proof {
            lemma_symbol_end(s, pos + 1);
            lemma_skip_whitespace(s, symbol_end(s, pos + 1));
        }
        scan_node(s, from, Seq::empty())
    } else {
        Scan::Failure { message: "Unexpected EOF."@ }
    };
    match target {
        Scan::Failure { .. } => Scan::Failure {
            message: "Set a variable name at the \"let\" statement"@,
        },
        Scan::Node { token: Node { kind: NodeKind::Identifier(name), span: _ }, next, stack: _ } => {
            let mark = skip_whitespace(s, next);
            if 0 <= mark < s.len() && s[mark] == ';' {
                Scan::Node {
                    token: Node { kind: NodeKind::Let(name, None), span: span_of(s, pos, mark + 1) },
                    next: mark + 1,
                    stack,
                }
            } else {
                let sign = if pos < mark <= s.len() {
                    scan_node(s, mark, Seq::empty())
                } else {
                    Scan::Failure { message: Seq::empty() }
                };
                match sign {
                    Scan::Node {
                        token: Node { kind: NodeKind::Attribution, span: _ },
                        next: start,
                        stack: _,
                    } => {
                        let values = if pos < start <= s.len() {
                            scan_run(s, start, Seq::empty(), Scope::Values)
                        } else {
                            ListScan::Failure { message: Seq::empty() }
                        };
                        match values {
                            ListScan::Failure { message } => Scan::Failure { message },
                            ListScan::Nodes { nodes, next: done } => if nodes.len() == 0 {
                                Scan::Failure { message: "Let statement was expecting a value"@ }
                            } else {
                                Scan::Node {
                                    token: Node {
                                        kind: NodeKind::Let(name, Some(Box::new(nodes.last()))),
                                        span: span_of(s, pos, done),
                                    },
                                    next: done,
                                    stack: stack + nodes.drop_last(),
                                }
                            },
                        }
                    },
                    _ => Scan::Failure { message: "Let statement was expecting a semicolon"@ },
                }
            }
        },
        Scan::Node { .. } => Scan::Failure {
            message: "Let statement was expecting an identifier."@,
        },
    }
}

/// A function declaration whose keyword starts at `pos`: after the keyword
/// a signature in the shape of a call, then a block.
pub open spec fn scan_function(s: Seq<char>, pos: int) -> Scan
    decreases s.len() - pos, 0nat,
{
    let from = skip_whitespace(s, symbol_end(s, pos + 1));
    let signature = if 0 <= pos < s.len() {
        proof {
            lemma_symbol_end(s, pos + 1);
            lemma_skip_whitespace(s, symbol_end(s, pos + 1));
        }
        scan_node(s, from, Seq::empty())
    } else {
        Scan::Failure { message: "Unexpected EOF."@ }
    };
    match signature {
        Scan::Failure { .. } => Scan::Failure {
            message: "Expected a function name after 'function'"@,
        },
        Scan::Node { token: Node { kind: NodeKind::Call(name, arguments), span: _ }, next, stack: _ } => {
            let open = skip_whitespace(s, next);
            if pos < open < s.len() && s[open] == '{' {
                match scan_block(s, open) {
                    Scan::Node { token: body, next: done, stack: _ } => Scan::Node {
                        token: Node {
                            kind: NodeKind::Function(
                                name,
                                parameter_names(arguments),
                                Box::new(body),
                            ),
                            span: span_of(s, pos, done),
                        },
                        next: done,
                        stack: Seq::empty(),
                    },
                    Scan::Failure { message } => Scan::Failure { message },
                }
            } else {
                Scan::Failure { message: "Expected '{' to start the function body."@ }
            }
        },
        Scan::Node { .. } => Scan::Failure { message: "Malformed function"@ },
    }
}

/// What tokenizing the text `s` gives.
pub open spec fn tokenize(s: Seq<char>) -> ListScan {
    scan_run(s, 0, Seq::empty(), Scope::Text)
}

} // verus!
