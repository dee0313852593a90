//! Laws of the tokenizer: what holds of every text.

use vstd::prelude::*;
use crate::grammar::{
    closes, ends_string, is_attribution, lemma_operator_end, lemma_skip_whitespace,
    lemma_symbol_end, number_end, operator_end, scan_block, scan_function, scan_let, scan_node,
    scan_number, scan_operator, scan_run, scan_symbol, separates, skip_whitespace, string_end,
    symbol_end, tokenize, with_stack, ListScan, Scan, Scope,
};
use crate::number::is_numeral;
use crate::text::{char_is_alphabetic, is_digit, is_operator_char};
use crate::token::{span_of, Node, NodeKind, NumeralModel};

verus! {

/// A string ends within the text, at the first character that ends it: no
/// character before that one does.
pub proof fn lemma_string_end(s: Seq<char>, pos: int, multiline: bool)
    requires
        0 <= pos <= s.len(),
    ensures
        pos <= string_end(s, pos, multiline) <= s.len(),
        forall|i: int| pos <= i < string_end(s, pos, multiline) ==> !ends_string(s[i], multiline),
        string_end(s, pos, multiline) < s.len() ==> ends_string(
            s[string_end(s, pos, multiline)],
            multiline,
        ),
    decreases s.len() - pos,
{
    if pos < s.len() && !ends_string(s[pos], multiline) {
        lemma_string_end(s, pos + 1, multiline);
    }
}

/// A number ends within the text. What it covers holds digits and points
/// only, and at most one point: none if the number had one before.
pub proof fn lemma_number_end(s: Seq<char>, pos: int, pointed: bool)
    requires
        0 <= pos <= s.len(),
    ensures
        pos <= number_end(s, pos, pointed) <= s.len(),
        forall|i: int| pos <= i < number_end(s, pos, pointed) ==> is_digit(s[i]) || s[i] == '.',
        forall|i: int, j: int|
            pos <= i < j < number_end(s, pos, pointed) ==> !(s[i] == '.' && s[j] == '.'),
        pointed ==> forall|i: int| pos <= i < number_end(s, pos, pointed) ==> s[i] != '.',
    decreases s.len() - pos,
{
    if pos < s.len() && is_digit(s[pos]) {
        lemma_number_end(s, pos + 1, pointed);
    } else if pos < s.len() && s[pos] == '.' && !pointed {
        lemma_number_end(s, pos + 1, true);
    }
}

/// A number that starts with a digit is scanned as a numeral that the host
/// can turn into a number: the digits as they are written, without a sign.
pub proof fn lemma_scanned_number_is_numeral(s: Seq<char>, pos: int)
    requires
        0 <= pos < s.len(),
        is_digit(s[pos]),
    ensures
        scan_number(s, pos) matches Scan::Node { token, next, .. } && pos < next <= s.len()
            && token.span == span_of(s, pos, next) && token.kind == NodeKind::Number(
            NumeralModel { negative: false, digits: s.subrange(pos, next) },
        ) && is_numeral(s.subrange(pos, next)),
{
    lemma_number_end(s, pos, false);
    lemma_number_end(s, pos + 1, false);
    let end = number_end(s, pos, false);
    let digits = s.subrange(pos, end);
    assert forall|i: int| 0 <= i < digits.len() implies is_digit(#[trigger] digits[i])
        || digits[i] == '.' by {
        assert(digits[i] == s[pos + i]);
    }
    assert forall|i: int, j: int| 0 <= i < j < digits.len() implies !(#[trigger] digits[i] == '.'
        && #[trigger] digits[j] == '.') by {
        assert(digits[i] == s[pos + i]);
        assert(digits[j] == s[pos + j]);
    }
}

/// A numeral has its end where the text ends.
proof fn lemma_numeral_ends(s: Seq<char>, pos: int, pointed: bool)
    requires
        0 <= pos <= s.len(),
        forall|i: int| pos <= i < s.len() ==> is_digit(#[trigger] s[i]) || s[i] == '.',
        forall|i: int, j: int|
            pos <= i < j < s.len() ==> !(#[trigger] s[i] == '.' && #[trigger] s[j] == '.'),
        pointed ==> forall|i: int| pos <= i < s.len() ==> #[trigger] s[i] != '.',
    ensures
        number_end(s, pos, pointed) == s.len(),
    decreases s.len() - pos,
{
    if pos < s.len() {
        if is_digit(s[pos]) {
            lemma_numeral_ends(s, pos + 1, pointed);
        } else {
            assert(s[pos] == '.');
            assert forall|i: int| pos + 1 <= i < s.len() implies #[trigger] s[i] != '.' by {
                assert(!(s[pos] == '.' && s[i] == '.'));
            }
            lemma_numeral_ends(s, pos + 1, true);
        }
    }
}

/// A text that is a numeral, digits with at most one point, is tokenized
/// as one node: that numeral, exactly as it is written.
pub proof fn lemma_numeral_tokenizes(s: Seq<char>)
    requires
        is_numeral(s),
    ensures
        tokenize(s) == (ListScan::Nodes {
            nodes: seq![
                Node {
                    kind: NodeKind::Number(NumeralModel { negative: false, digits: s }),
                    span: span_of(s, 0, s.len() as int),
                },
            ],
            next: s.len() as int,
        }),
{
    lemma_numeral_ends(s, 0, false);
    assert(s.subrange(0, s.len() as int) =~= s);
    let token = Node {
        kind: NodeKind::Number(NumeralModel { negative: false, digits: s }),
        span: span_of(s, 0, s.len() as int),
    };
    let empty = Seq::<Node>::empty();
    assert(scan_number(s, 0) == Scan::Node { token, next: s.len() as int, stack: empty });
    assert(scan_node(s, 0, empty) == Scan::Node { token, next: s.len() as int, stack: empty });
    assert(empty.push(token) =~= seq![token]);
    assert(scan_run(s, s.len() as int, seq![token], Scope::Text) == ListScan::Nodes {
        nodes: seq![token],
        next: s.len() as int,
    });
}

/// A single-line string whose quote is not closed before the line or the
/// text ends is a syntax error.
pub proof fn lemma_unterminated_string(s: Seq<char>, pos: int, stack: Seq<Node>)
    requires
        0 <= pos < s.len(),
        s[pos] == '\'',
        forall|i: int|
            pos < i < s.len() && s[i] == '\'' ==> exists|j: int| pos < j < i && s[j] == '\n',
    ensures
        scan_node(s, pos, stack) == (Scan::Failure {
            message: "Missing \"'\" at the end of the string"@,
        }),
{
    lemma_string_end(s, pos + 1, false);
    let end = string_end(s, pos + 1, false);
    if end < s.len() && s[end] == '\'' {
        let j = choose|j: int| pos < j < end && s[j] == '\n';
        assert(!ends_string(s[j], false));
    }
}

/// A multi-line string whose back quote is not closed before the text ends
/// is a syntax error.
pub proof fn lemma_unterminated_multiline_string(s: Seq<char>, pos: int, stack: Seq<Node>)
    requires
        0 <= pos < s.len(),
        s[pos] == '`',
        forall|i: int| pos < i < s.len() ==> s[i] != '`',
    ensures
        scan_node(s, pos, stack) == (Scan::Failure {
            message: "Missing \"`\" at the end of the string"@,
        }),
{
    lemma_string_end(s, pos + 1, true);
}

/// The nodes of a block, of arguments and of values end right after the
/// character that closes them, and the nodes of a text end where the text
/// ends.
pub proof fn lemma_run_closes(s: Seq<char>, pos: int, stack: Seq<Node>, scope: Scope)
    requires
        0 <= pos <= s.len(),
    ensures
        scan_run(s, pos, stack, scope) matches ListScan::Nodes { next, .. } ==> if scope
            == Scope::Text {
            next == s.len()
        } else {
            pos < next <= s.len() && closes(scope, s[next - 1])
        },
    decreases s.len() - pos,
{
    if pos < s.len() && !closes(scope, s[pos]) {
        if separates(scope, s[pos]) {
            lemma_run_closes(s, pos + 1, stack, scope);
        } else {
            match scan_node(s, pos, stack) {
                Scan::Node { token, next, stack: rest } => {
                    if pos < next <= s.len() {
                        lemma_run_closes(s, next, rest.push(token), scope);
                    }
                },
                Scan::Failure { .. } => {},
            }
        }
    }
}

/// A block whose brace is not closed before the text ends is a syntax
/// error.
pub proof fn lemma_unterminated_block(s: Seq<char>, pos: int, stack: Seq<Node>)
    requires
        0 <= pos < s.len(),
        s[pos] == '{',
        forall|i: int| pos < i < s.len() ==> s[i] != '}',
    ensures
        scan_node(s, pos, stack) is Failure,
{
    lemma_run_closes(s, pos + 1, Seq::empty(), Scope::Block);
}

/// A node that is scanned covers at least one character and ends within the
/// text. So wherever a run of nodes is scanned, the scan goes on after each
/// node.
pub proof fn lemma_scan_advances(s: Seq<char>, pos: int, stack: Seq<Node>)
    ensures
        scan_node(s, pos, stack) matches Scan::Node { next, .. } ==> pos < next <= s.len(),
    decreases s.len() - pos, 2nat,
{
    if 0 <= pos < s.len() {
        if s[pos] == '\'' {
            lemma_string_end(s, pos + 1, false);
        } else if s[pos] == '`' {
            lemma_string_end(s, pos + 1, true);
        } else if s[pos] == '{' {
            lemma_run_closes(s, pos + 1, Seq::empty(), Scope::Block);
        } else if is_operator_char(s[pos]) {
            lemma_operator_advances(s, pos, stack);
        } else if is_digit(s[pos]) {
            lemma_number_end(s, pos + 1, false);
        } else if char_is_alphabetic(s[pos]) {
            lemma_symbol_advances(s, pos, stack);
        }
    }
}

proof fn lemma_operator_advances(s: Seq<char>, pos: int, stack: Seq<Node>)
    requires
        0 <= pos < s.len(),
    ensures
        scan_operator(s, pos, stack) matches Scan::Node { next, .. } ==> pos < next <= s.len(),
    decreases s.len() - pos, 1nat,
{
    lemma_operator_end(s, pos + 1);
    let end = operator_end(s, pos + 1);
    lemma_skip_whitespace(s, end);
    let rest = if stack.len() > 0 {
        stack.drop_last()
    } else {
        stack
    };
    lemma_scan_advances(s, skip_whitespace(s, end), rest);
}

proof fn lemma_symbol_advances(s: Seq<char>, pos: int, stack: Seq<Node>)
    requires
        0 <= pos < s.len(),
    ensures
        scan_symbol(s, pos, stack) matches Scan::Node { next, .. } ==> pos < next <= s.len(),
    decreases s.len() - pos, 1nat,
{
    lemma_symbol_end(s, pos + 1);
    let end = symbol_end(s, pos + 1);
    let name = s.subrange(pos, end);
    if name == "let"@ {
        lemma_let_advances(s, pos, stack);
    } else if name == "function"@ {
        lemma_function_advances(s, pos);
    } else if name == "true"@ || name == "false"@ {
    } else if end < s.len() && s[end] == '(' {
        lemma_run_closes(s, end + 1, Seq::empty(), Scope::Arguments);
    }
}

proof fn lemma_let_advances(s: Seq<char>, pos: int, stack: Seq<Node>)
    requires
        0 <= pos < s.len(),
    ensures
        scan_let(s, pos, stack) matches Scan::Node { next, .. } ==> pos < next <= s.len(),
    decreases s.len() - pos, 0nat,
{
    lemma_symbol_end(s, pos + 1);
    let after = symbol_end(s, pos + 1);
    lemma_skip_whitespace(s, after);
    let from = skip_whitespace(s, after);
    lemma_scan_advances(s, from, Seq::empty());
    match scan_node(s, from, Seq::empty()) {
        Scan::Node { token: Node { kind: NodeKind::Identifier(name), span: _ }, next, stack: _ } => {
            lemma_skip_whitespace(s, next);
            let mark = skip_whitespace(s, next);
            lemma_scan_advances(s, mark, Seq::empty());
            match scan_node(s, mark, Seq::empty()) {
                Scan::Node { token: _, next: start, stack: _ } => {
                    lemma_run_closes(s, start, Seq::empty(), Scope::Values);
                },
                _ => {},
            }
        },
        _ => {},
    }
}

proof fn lemma_function_advances(s: Seq<char>, pos: int)
    requires
        0 <= pos < s.len(),
    ensures
        scan_function(s, pos) matches Scan::Node { next, .. } ==> pos < next <= s.len(),
    decreases s.len() - pos, 0nat,
{
    lemma_symbol_end(s, pos + 1);
    let after = symbol_end(s, pos + 1);
    lemma_skip_whitespace(s, after);
    let from = skip_whitespace(s, after);
    lemma_scan_advances(s, from, Seq::empty());
    match scan_node(s, from, Seq::empty()) {
        Scan::Node { token: _, next, stack: _ } => {
            lemma_skip_whitespace(s, next);
            let open = skip_whitespace(s, next);
            if open < s.len() {
                lemma_run_closes(s, open + 1, Seq::empty(), Scope::Block);
            }
        },
        _ => {},
    }
}

/// The span of a node covers exactly the text that was read to make it: it
/// ends where the scan stopped, and it starts where the scan started or, for
/// an operator that took its left operand from the stack, where that operand
/// starts.
pub proof fn lemma_span_covers(s: Seq<char>, pos: int, stack: Seq<Node>)
    ensures
        scan_node(s, pos, stack) matches Scan::Node { token, next, .. } ==> {
            &&& token.span == span_of(s, token.span.start, next)
            &&& token.span.start == pos || (stack.len() > 0 && token.span.start
                == stack.last().span.start)
        },
{
    if 0 <= pos < s.len() {
        if s[pos] == '\'' || s[pos] == '`' {
        } else if s[pos] == '{' {
            assert(scan_node(s, pos, stack) == with_stack(
                scan_block(s, pos),
                stack,
            ));
        } else if is_operator_char(s[pos]) {
            assert(scan_node(s, pos, stack) == scan_operator(s, pos, stack));
        } else if is_digit(s[pos]) {
        } else if char_is_alphabetic(s[pos]) {
            assert(scan_node(s, pos, stack) == scan_symbol(s, pos, stack));
            let end = symbol_end(s, pos + 1);
            let name = s.subrange(pos, end);
            if name == "let"@ {
                assert(scan_symbol(s, pos, stack) == scan_let(s, pos, stack));
            } else if name == "function"@ {
                assert(scan_symbol(s, pos, stack) == with_stack(
                    scan_function(s, pos),
                    stack,
                ));
            }
        }
    }
}

/// Every number in `node`, and in the nodes that it holds, is a numeral
/// that the host can turn into a number.
pub open spec fn numerals_hold(node: Node) -> bool
    decreases node,
{
    match node.kind {
        NodeKind::Number(numeral) => is_numeral(numeral.digits),
        NodeKind::BracketScope(children) => forall|i: int|
            0 <= i < children.len() ==> numerals_hold(#[trigger] children[i]),
        NodeKind::Call(_, arguments) => forall|i: int|
            0 <= i < arguments.len() ==> numerals_hold(#[trigger] arguments[i]),
        NodeKind::Let(_, Some(initializer)) => numerals_hold(*initializer),
        NodeKind::Comparison(_, left, right) => numerals_hold(*left) && numerals_hold(*right),
        NodeKind::Expression(_, left, right) => numerals_hold(*left) && numerals_hold(*right),
        NodeKind::Function(_, _, body) => numerals_hold(*body),
        _ => true,
    }
}

/// Every number in `nodes` is a numeral.
pub open spec fn all_numerals_hold(nodes: Seq<Node>) -> bool {
    forall|i: int| 0 <= i < nodes.len() ==> numerals_hold(#[trigger] nodes[i])
}

/// Every number that the tokenizer makes is a numeral: if it holds of the
/// nodes on the stack, it holds of the node that is scanned and of the stack
/// that the scan leaves.
pub proof fn lemma_scan_keeps_numerals(s: Seq<char>, pos: int, stack: Seq<Node>)
    requires
        all_numerals_hold(stack),
    ensures
        scan_node(s, pos, stack) matches Scan::Node { token, stack: rest, .. } ==> numerals_hold(
            token,
        ) && all_numerals_hold(rest),
    decreases s.len() - pos, 2nat,
{
    if 0 <= pos < s.len() {
        if s[pos] == '\'' || s[pos] == '`' {
        } else if s[pos] == '{' {
            lemma_block_keeps_numerals(s, pos);
        } else if is_operator_char(s[pos]) {
            lemma_operator_keeps_numerals(s, pos, stack);
        } else if is_digit(s[pos]) {
            lemma_scanned_number_is_numeral(s, pos);
        } else if char_is_alphabetic(s[pos]) {
            lemma_symbol_keeps_numerals(s, pos, stack);
        }
    }
}

proof fn lemma_block_keeps_numerals(s: Seq<char>, pos: int)
    requires
        0 <= pos < s.len(),
    ensures
        scan_block(s, pos) matches Scan::Node { token, .. } ==> numerals_hold(token),
    decreases s.len() - pos, 1nat,
{
    lemma_run_keeps_numerals(s, pos + 1, Seq::empty(), Scope::Block);
}

proof fn lemma_run_keeps_numerals(s: Seq<char>, pos: int, stack: Seq<Node>, scope: Scope)
    requires
        0 <= pos <= s.len(),
        all_numerals_hold(stack),
    ensures
        scan_run(s, pos, stack, scope) matches ListScan::Nodes { nodes, .. } ==> all_numerals_hold(
            nodes,
        ),
    decreases s.len() - pos, 3nat,
{
    if pos < s.len() && !closes(scope, s[pos]) {
        if separates(scope, s[pos]) {
            lemma_run_keeps_numerals(s, pos + 1, stack, scope);
        } else {
            lemma_scan_keeps_numerals(s, pos, stack);
            match scan_node(s, pos, stack) {
                Scan::Node { token, next, stack: rest } => {
                    if pos < next <= s.len() {
                        lemma_run_keeps_numerals(s, next, rest.push(token), scope);
                    }
                },
                Scan::Failure { .. } => {},
            }
        }
    }
}

proof fn lemma_operator_keeps_numerals(s: Seq<char>, pos: int, stack: Seq<Node>)
    requires
        0 <= pos < s.len(),
        all_numerals_hold(stack),
    ensures
        scan_operator(s, pos, stack) matches Scan::Node { token, stack: rest, .. }
            ==> numerals_hold(token) && all_numerals_hold(rest),
    decreases s.len() - pos, 1nat,
{
    lemma_operator_end(s, pos + 1);
    let end = operator_end(s, pos + 1);
    lemma_skip_whitespace(s, end);
    let rest = if stack.len() > 0 {
        stack.drop_last()
    } else {
        stack
    };
    lemma_scan_keeps_numerals(s, skip_whitespace(s, end), rest);
}

proof fn lemma_symbol_keeps_numerals(s: Seq<char>, pos: int, stack: Seq<Node>)
    requires
        0 <= pos < s.len(),
        all_numerals_hold(stack),
    ensures
        scan_symbol(s, pos, stack) matches Scan::Node { token, stack: rest, .. } ==> numerals_hold(
            token,
        ) && all_numerals_hold(rest),
    decreases s.len() - pos, 1nat,
{
    lemma_symbol_end(s, pos + 1);
    let end = symbol_end(s, pos + 1);
    let name = s.subrange(pos, end);
    if name == "let"@ {
        lemma_let_keeps_numerals(s, pos, stack);
    } else if name == "function"@ {
        lemma_function_keeps_numerals(s, pos);
    } else if name == "true"@ || name == "false"@ {
    } else if end < s.len() && s[end] == '(' {
        lemma_run_keeps_numerals(s, end + 1, Seq::empty(), Scope::Arguments);
    }
}

proof fn lemma_let_keeps_numerals(s: Seq<char>, pos: int, stack: Seq<Node>)
    requires
        0 <= pos < s.len(),
        all_numerals_hold(stack),
    ensures
        scan_let(s, pos, stack) matches Scan::Node { token, stack: rest, .. } ==> numerals_hold(
            token,
        ) && all_numerals_hold(rest),
    decreases s.len() - pos, 0nat,
{
    lemma_symbol_end(s, pos + 1);
    let after = symbol_end(s, pos + 1);
    lemma_skip_whitespace(s, after);
    let from = skip_whitespace(s, after);
    match scan_node(s, from, Seq::empty()) {
        Scan::Node { token: Node { kind: NodeKind::Identifier(name), span: _ }, next, stack: _ } => {
            let mark = skip_whitespace(s, next);
            if pos < mark <= s.len() {
                match scan_node(s, mark, Seq::empty()) {
                    Scan::Node { token: _, next: start, stack: _ } => {
                        if pos < start <= s.len() {
                            lemma_run_keeps_numerals(s, start, Seq::empty(), Scope::Values);
                        }
                    },
                    _ => {},
                }
            }
        },
        _ => {},
    }
}

proof fn lemma_function_keeps_numerals(s: Seq<char>, pos: int)
    requires
        0 <= pos < s.len(),
    ensures
        scan_function(s, pos) matches Scan::Node { token, .. } ==> numerals_hold(token),
    decreases s.len() - pos, 0nat,
{
    lemma_symbol_end(s, pos + 1);
    let after = symbol_end(s, pos + 1);
    lemma_skip_whitespace(s, after);
    let from = skip_whitespace(s, after);
    match scan_node(s, from, Seq::empty()) {
        Scan::Node { token: _, next, stack: _ } => {
            let open = skip_whitespace(s, next);
            if pos < open < s.len() {
                lemma_block_keeps_numerals(s, open);
            }
        },
        _ => {},
    }
}

/// Every number in what a text is tokenized as is a numeral that the host
/// can turn into a number.
pub proof fn lemma_tokenize_keeps_numerals(s: Seq<char>)
    ensures
        tokenize(s) matches ListScan::Nodes { nodes, .. } ==> all_numerals_hold(nodes),
{
    lemma_run_keeps_numerals(s, 0, Seq::empty(), Scope::Text);
}

/// The nodes end one after another: each ends where the text has gone
/// further than at the end of the node before it.
pub open spec fn ends_rise(nodes: Seq<Node>) -> bool {
    forall|i: int, j: int|
        0 <= i < j < nodes.len() ==> (#[trigger] nodes[i]).span.end < (#[trigger] nodes[j]).span.end
}

/// Every node ends after `low` and at or before `high`.
pub open spec fn ends_within(nodes: Seq<Node>, low: int, high: int) -> bool {
    forall|i: int| 0 <= i < nodes.len() ==> low < (#[trigger] nodes[i]).span.end <= high
}

/// A node ends where its scan stops, after every node that the scan leaves
/// on the stack: with the node on it, the stack is still in source order.
pub proof fn lemma_scan_keeps_order(s: Seq<char>, pos: int, stack: Seq<Node>, low: int)
    requires
        low <= pos,
        ends_rise(stack),
        ends_within(stack, low, pos),
    ensures
        scan_node(s, pos, stack) matches Scan::Node { token, next, stack: rest } ==> {
            &&& token.span.end == next
            &&& pos < next
            &&& ends_rise(rest.push(token))
            &&& ends_within(rest.push(token), low, next)
        },
    decreases s.len() - pos, 2nat,
{
    lemma_scan_advances(s, pos, stack);
    if 0 <= pos < s.len() {
        if s[pos] == '\'' || s[pos] == '`' {
        } else if s[pos] == '{' {
            assert(scan_node(s, pos, stack) == with_stack(
                scan_block(s, pos),
                stack,
            ));
        } else if is_operator_char(s[pos]) {
            lemma_operator_keeps_order(s, pos, stack, low);
        } else if is_digit(s[pos]) {
        } else if char_is_alphabetic(s[pos]) {
            lemma_symbol_keeps_order(s, pos, stack, low);
        }
    }
}

/// The nodes of a block, of arguments, of values and of a text are in
/// source order: they end one after another, after the place where their
/// scan started and at or before the place where it stopped.
pub proof fn lemma_run_keeps_order(
    s: Seq<char>,
    pos: int,
    stack: Seq<Node>,
    scope: Scope,
    low: int,
)
    requires
        0 <= pos <= s.len(),
        low <= pos,
        ends_rise(stack),
        ends_within(stack, low, pos),
    ensures
        scan_run(s, pos, stack, scope) matches ListScan::Nodes { nodes, next } ==> ends_rise(nodes)
            && ends_within(nodes, low, next),
    decreases s.len() - pos, 3nat,
{
    if pos < s.len() && !closes(scope, s[pos]) {
        if separates(scope, s[pos]) {
            lemma_run_keeps_order(s, pos + 1, stack, scope, low);
        } else {
            lemma_scan_keeps_order(s, pos, stack, low);
            match scan_node(s, pos, stack) {
                Scan::Node { token, next, stack: rest } => {
                    if pos < next <= s.len() {
                        lemma_run_keeps_order(s, next, rest.push(token), scope, low);
                    }
                },
                Scan::Failure { .. } => {},
            }
        }
    }
}

proof fn lemma_operator_keeps_order(s: Seq<char>, pos: int, stack: Seq<Node>, low: int)
    requires
        0 <= pos < s.len(),
        low <= pos,
        ends_rise(stack),
        ends_within(stack, low, pos),
    ensures
        scan_operator(s, pos, stack) matches Scan::Node { token, next, stack: rest } ==> {
            &&& token.span.end == next
            &&& ends_rise(rest.push(token))
            &&& ends_within(rest.push(token), low, next)
        },
    decreases s.len() - pos, 1nat,
{
    lemma_operator_end(s, pos + 1);
    let end = operator_end(s, pos + 1);
    lemma_skip_whitespace(s, end);
    let from = skip_whitespace(s, end);
    let rest = if stack.len() > 0 {
        stack.drop_last()
    } else {
        stack
    };
    lemma_scan_keeps_order(s, from, rest, low);
    match scan_node(s, from, rest) {
        Scan::Node { token: right, next, stack: after } => {
            let with_right = after.push(right);
            match scan_operator(s, pos, stack) {
                Scan::Node { token, next: stop, stack: left } => if !is_attribution(
                    s.subrange(pos, end),
                ) {
                    assert(left == after && stop == next);
                    let with_token = after.push(token);
                    assert forall|i: int| 0 <= i < with_token.len() implies low < (
                    #[trigger] with_token[i]).span.end <= next by {
                        assert(with_right[i].span.end <= next);
                    }
                    assert forall|i: int, j: int| 0 <= i < j < with_token.len() implies (
                    #[trigger] with_token[i]).span.end < (#[trigger] with_token[j]).span.end by {
                        assert(with_right[i].span.end < with_right[j].span.end);
                    }
                },
                Scan::Failure { .. } => {},
            }
        },
        Scan::Failure { .. } => {},
    }
}

proof fn lemma_symbol_keeps_order(s: Seq<char>, pos: int, stack: Seq<Node>, low: int)
    requires
        0 <= pos < s.len(),
        low <= pos,
        ends_rise(stack),
        ends_within(stack, low, pos),
    ensures
        scan_symbol(s, pos, stack) matches Scan::Node { token, next, stack: rest } ==> {
            &&& token.span.end == next
            &&& ends_rise(rest.push(token))
            &&& ends_within(rest.push(token), low, next)
        },
    decreases s.len() - pos, 1nat,
{
    lemma_symbol_advances(s, pos, stack);
    lemma_symbol_end(s, pos + 1);
    let end = symbol_end(s, pos + 1);
    let name = s.subrange(pos, end);
    if name == "let"@ {
        lemma_let_keeps_order(s, pos, stack, low);
    } else if name == "function"@ {
        assert(scan_symbol(s, pos, stack) == with_stack(
            scan_function(s, pos),
            stack,
        ));
    }
}

proof fn lemma_let_keeps_order(s: Seq<char>, pos: int, stack: Seq<Node>, low: int)
    requires
        0 <= pos < s.len(),
        low <= pos,
        ends_rise(stack),
        ends_within(stack, low, pos),
    ensures
        scan_let(s, pos, stack) matches Scan::Node { token, next, stack: rest } ==> {
            &&& token.span.end == next
            &&& ends_rise(rest.push(token))
            &&& ends_within(rest.push(token), low, next)
        },
    decreases s.len() - pos, 0nat,
{
    lemma_let_advances(s, pos, stack);
    lemma_symbol_end(s, pos + 1);
    let after = symbol_end(s, pos + 1);
    lemma_skip_whitespace(s, after);
    let from = skip_whitespace(s, after);
    lemma_scan_advances(s, from, Seq::empty());
    match scan_node(s, from, Seq::empty()) {
        Scan::Node { token: Node { kind: NodeKind::Identifier(name), span: _ }, next, stack: _ } => {
            lemma_skip_whitespace(s, next);
            let mark = skip_whitespace(s, next);
            if !(mark < s.len() && s[mark] == ';') && pos < mark <= s.len() {
                lemma_scan_advances(s, mark, Seq::empty());
                match scan_node(s, mark, Seq::empty()) {
                    Scan::Node {
                        token: Node { kind: NodeKind::Attribution, span: _ },
                        next: start,
                        stack: _,
                    } => {
                        let empty = Seq::<Node>::empty();
                        lemma_run_keeps_order(s, start, empty, Scope::Values, pos);
                        lemma_run_closes(s, start, empty, Scope::Values);
                        match scan_run(s, start, empty, Scope::Values) {
                            ListScan::Nodes { nodes, next: done } => {
                                if nodes.len() > 0 {
                                    let token = Node {
                                        kind: NodeKind::Let(name, Some(Box::new(nodes.last()))),
                                        span: span_of(s, pos, done),
                                    };
                                    let rest = stack + nodes.drop_last();
                                    let all = rest.push(token);
                                    assert forall|i: int| 0 <= i < all.len() implies low < (
                                    #[trigger] all[i]).span.end <= done by {
                                        if stack.len() <= i < rest.len() {
                                            assert(all[i] == nodes[i - stack.len()]);
                                        }
                                    }
                                    assert forall|i: int, j: int|
                                        0 <= i < j < all.len() implies (#[trigger] all[i]).span.end
                                        < (#[trigger] all[j]).span.end by {
                                        let last = nodes.len() - 1;
                                        assert(nodes[last].span.end <= done);
                                        if stack.len() <= i {
                                            assert(all[i] == nodes[i - stack.len()]);
                                            assert(nodes[i - stack.len()].span.end
                                                < nodes[last].span.end);
                                        } else {
                                            assert(all[i] == stack[i]);
                                        }
                                        if j < stack.len() {
                                            assert(all[j] == stack[j]);
                                        } else if j < rest.len() {
                                            assert(all[j] == nodes[j - stack.len()]);
                                        }
                                    }
                                }
                            },
                            ListScan::Failure { .. } => {},
                        }
                    },
                    _ => {},
                }
            }
        },
        _ => {},
    }
}

/// The children of a block stand in source order, and end within the
/// block.
pub proof fn lemma_block_in_order(s: Seq<char>, pos: int)
    requires
        0 <= pos < s.len(),
    ensures
        scan_block(s, pos) matches Scan::Node { token, next, .. } ==> token.kind matches NodeKind::BracketScope(
            children,
        ) && ends_rise(children) && ends_within(children, pos, next),
{
    lemma_run_keeps_order(s, pos + 1, Seq::empty(), Scope::Block, pos);
}

/// The nodes of a text stand in source order.
pub proof fn lemma_tokenize_in_order(s: Seq<char>)
    ensures
        tokenize(s) matches ListScan::Nodes { nodes, .. } ==> ends_rise(nodes),
{
    lemma_run_keeps_order(s, 0, Seq::empty(), Scope::Text, -1);
}

/// Tokenizing reads a text to its end.
pub proof fn lemma_tokenize_ends(s: Seq<char>)
    ensures
        tokenize(s) matches ListScan::Nodes { next, .. } ==> next == s.len(),
{
    lemma_run_closes(s, 0, Seq::empty(), Scope::Text);
}

/// A text that starts with a quote which is not closed before the line or
/// the text ends cannot be tokenized.
pub proof fn lemma_unterminated_string_text(s: Seq<char>)
    requires
        s.len() > 0,
        s[0] == '\'',
        forall|i: int| 0 < i < s.len() && s[i] == '\'' ==> exists|j: int| 0 < j < i && s[j] == '\n',
    ensures
        tokenize(s) == (ListScan::Failure { message: "Missing \"'\" at the end of the string"@ }),
{
    lemma_unterminated_string(s, 0, Seq::empty());
}

/// A text that starts with a brace and holds no closing brace cannot be
/// tokenized.
pub proof fn lemma_unterminated_block_text(s: Seq<char>)
    requires
        s.len() > 0,
        s[0] == '{',
        forall|i: int| 0 < i < s.len() ==> s[i] != '}',
    ensures
        tokenize(s) is Failure,
{
    lemma_unterminated_block(s, 0, Seq::empty());
}

/// A `-` with no node before it negates the number that follows it, and is
/// a syntax error before anything else.
pub proof fn lemma_unary_minus(s: Seq<char>, pos: int)
    requires
        0 <= pos < s.len(),
        s[pos] == '-',
        pos + 1 < s.len() ==> !is_operator_char(s[pos + 1]),
    ensures
        scan_node(s, pos, Seq::empty()) == (match scan_node(
            s,
            skip_whitespace(s, pos + 1),
            Seq::empty(),
        ) {
            Scan::Node { token: Node { kind: NodeKind::Number(numeral), span: _ }, next, stack } => {
                Scan::Node {
                    token: Node {
                        kind: NodeKind::Number(
                            NumeralModel { negative: !numeral.negative, digits: numeral.digits },
                        ),
                        span: span_of(s, pos, next),
                    },
                    next,
                    stack,
                }
            },
            _ => Scan::Failure { message: "The unary operator can be used only on numbers"@ },
        }),
{
    lemma_skip_whitespace(s, pos + 1);
    let run = s.subrange(pos, pos + 1);
    assert(operator_end(s, pos + 1) == pos + 1);
    assert(run.len() == 1 && run[0] == '-');
    assert(scan_node(s, pos, Seq::empty()) == scan_operator(s, pos, Seq::empty()));
}

} // verus!
