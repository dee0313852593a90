//! The tokenizer: it reads a source text character by character and builds
//! the syntax nodes as it goes.

use vstd::prelude::*;
use vstd::string::StringExecFns;
use crate::error::{Failure, StrawberryError, StrawberryErrorKind};
use crate::grammar;
use crate::grammar::{ListScan, Scan, Scope};
use crate::text::{
    characters, digit, enclose, is_alphabetic, is_whitespace, operator_char, reads, substring,
    symbol_char,
};
pub use crate::token::{ComparisonKind, ExpressionKind, Numeral, Token, TokenKind, TokenSpan};
use crate::token::{duplicate_all, names_of, nodes_of, Node};

verus! {

/// Every node of `stack` starts at or before `pos`.
pub open spec fn starts_by(stack: Seq<Node>, pos: int) -> bool {
    forall|i: int| 0 <= i < stack.len() ==> 0 <= (#[trigger] stack[i]).span.start <= pos
}

/// `result` is what `scan` says: the same node and stopping place, or a
/// syntax error with the same message.
pub open spec fn agrees(result: Result<(Token, usize), StrawberryError>, scan: Scan) -> bool {
    match scan {
        Scan::Node { token, next, stack: _ } => result matches Ok((found, stop)) && found@ == token
            && stop == next,
        Scan::Failure { message } => result matches Err(error) && error@ == Failure::Syntax(
            message,
        ),
    }
}

/// `result` is what `scan` says: the same nodes and stopping place, or a
/// syntax error with the same message.
pub open spec fn agrees_on_list(
    result: Result<(Vec<Token>, usize), StrawberryError>,
    scan: ListScan,
) -> bool {
    match scan {
        ListScan::Nodes { nodes, next } => result matches Ok((found, stop)) && nodes_of(found)
            == nodes && stop == next,
        ListScan::Failure { message } => result matches Err(error) && error@ == Failure::Syntax(
            message,
        ),
    }
}

/// What an operator run spells.
enum Operator {
    Attribution,
    Arithmetic(ExpressionKind),
    Comparison(ComparisonKind),
    Unknown,
}

/// The tokenizer's state: the text, how far it has been read, and the nodes
/// completed so far at the top level.
pub struct StrawberryLexer {
    source: Vec<char>,
    position: usize,
    tokens: Vec<Token>,
}

proof fn lemma_push(before: Vec<Token>, after: Vec<Token>, token: Token)
    requires
        after@ == before@.push(token),
    ensures
        nodes_of(after) == nodes_of(before).push(token@),
{
    assert(nodes_of(after) =~= nodes_of(before).push(token@));
}

proof fn lemma_pop(before: Vec<Token>, after: Vec<Token>)
    requires
        before.len() > 0,
        after@ == before@.subrange(0, before.len() - 1),
    ensures
        nodes_of(after) == nodes_of(before).drop_last(),
        nodes_of(before).last() == before[before.len() - 1]@,
{
    assert(nodes_of(after) =~= nodes_of(before).drop_last());
}

proof fn lemma_append(before: Vec<Token>, other: Vec<Token>, after: Vec<Token>)
    requires
        after@ == before@ + other@,
    ensures
        nodes_of(after) == nodes_of(before) + nodes_of(other),
{
    assert(nodes_of(after) =~= nodes_of(before) + nodes_of(other));
}

impl StrawberryLexer {
    /// The text being read.
    pub closed spec fn source(&self) -> Seq<char> {
        self.source@
    }

    /// How many characters have been read.
    pub closed spec fn position(&self) -> int {
        self.position as int
    }

    /// The nodes completed so far at the top level.
    pub closed spec fn tokens(&self) -> Seq<Node> {
        nodes_of(self.tokens)
    }

    /// The position lies within the text, and no completed node starts
    /// after it.
    #[verifier::type_invariant]
    spec fn wf(&self) -> bool {
        &&& self.position <= self.source.len()
        &&& starts_by(nodes_of(self.tokens), self.position as int)
    }

    /// A tokenizer at the start of `source`.
    pub fn from_string(source: &str) -> (lexer: Self)
        ensures
            lexer.source() == source@,
            lexer.position() == 0,
            lexer.tokens() == Seq::<Node>::empty(),
    {
        let lexer = Self { source: characters(source), position: 0, tokens: Vec::new() };
        assert(nodes_of(lexer.tokens) =~= Seq::<Node>::empty());
        lexer
    }

    /// An operand stack with nothing on it.
    fn fresh() -> (stack: Vec<Token>)
        ensures
            nodes_of(stack) == Seq::<Node>::empty(),
    {
        let stack: Vec<Token> = Vec::new();
        assert(nodes_of(stack) =~= Seq::<Node>::empty());
        stack
    }

    fn span(&self, start: usize, end: usize) -> (span: TokenSpan)
        requires
            start <= end <= self.source.len(),
        ensures
            span@ == crate::token::span_of(self.source@, start as int, end as int),
    {
        TokenSpan { start, end, text: substring(&self.source, start, end) }
    }

    fn skip_whitespace(&self, pos: usize) -> (end: usize)
        requires
            pos <= self.source.len(),
        ensures
            end == grammar::skip_whitespace(self.source@, pos as int),
            pos <= end <= self.source.len(),
    {
        let mut end: usize = pos;
        while end < self.source.len() && is_whitespace(self.source[end])
            invariant
                pos <= end <= self.source.len(),
                grammar::skip_whitespace(self.source@, pos as int) == grammar::skip_whitespace(
                    self.source@,
                    end as int,
                ),
            decreases self.source.len() - end,
        {
            end += 1;
        }
        end
    }

    fn operator_end(&self, pos: usize) -> (end: usize)
        requires
            pos <= self.source.len(),
        ensures
            end == grammar::operator_end(self.source@, pos as int),
            pos <= end <= self.source.len(),
    {
        let mut end: usize = pos;
        while end < self.source.len() && operator_char(self.source[end])
            invariant
                pos <= end <= self.source.len(),
                grammar::operator_end(self.source@, pos as int) == grammar::operator_end(
                    self.source@,
                    end as int,
                ),
            decreases self.source.len() - end,
        {
            end += 1;
        }
        end
    }

    fn symbol_end(&self, pos: usize) -> (end: usize)
        requires
            pos <= self.source.len(),
        ensures
            end == grammar::symbol_end(self.source@, pos as int),
            pos <= end <= self.source.len(),
    {
        let mut end: usize = pos;
        while end < self.source.len() && symbol_char(self.source[end])
            invariant
                pos <= end <= self.source.len(),
                grammar::symbol_end(self.source@, pos as int) == grammar::symbol_end(
                    self.source@,
                    end as int,
                ),
            decreases self.source.len() - end,
        {
            end += 1;
        }
        end
    }

    fn string_end(&self, pos: usize, multiline: bool) -> (end: usize)
        requires
            pos <= self.source.len(),
        ensures
            end == grammar::string_end(self.source@, pos as int, multiline),
            pos <= end <= self.source.len(),
    {
        let mut end: usize = pos;
        loop
            invariant
                pos <= end <= self.source.len(),
                grammar::string_end(self.source@, pos as int, multiline) == grammar::string_end(
                    self.source@,
                    end as int,
                    multiline,
                ),
            ensures
                end == grammar::string_end(self.source@, pos as int, multiline),
            decreases self.source.len() - end,
        {
            if end >= self.source.len() {
                break ;
            }
            let c = self.source[end];
            let stop = if multiline {
                c == '`'
            } else {
                c == '\'' || c == '\n'
            };
            if stop {
                break ;
            }
            end += 1;
        }
        end
    }

    fn number_end(&self, pos: usize) -> (end: usize)
        requires
            pos <= self.source.len(),
        ensures
            end == grammar::number_end(self.source@, pos as int, false),
            pos <= end <= self.source.len(),
    {
        let mut end: usize = pos;
        let mut pointed = false;
        loop
            invariant
                pos <= end <= self.source.len(),
                grammar::number_end(self.source@, pos as int, false) == grammar::number_end(
                    self.source@,
                    end as int,
                    pointed,
                ),
            ensures
                end == grammar::number_end(self.source@, pos as int, false),
            decreases self.source.len() - end,
        {
            if end >= self.source.len() {
                break ;
            }
            let c = self.source[end];
            if digit(c) {
                end += 1;
            } else if c == '.' && !pointed {
                pointed = true;
                end += 1;
            } else {
                break ;
            }
        }
        end
    }

    fn parse_multiline_string(&self, pos: usize) -> (result: Result<(Token, usize), StrawberryError>)
        requires
            pos < self.source.len(),
        ensures
            agrees(result, grammar::scan_multiline_string(self.source@, pos as int)),
            result matches Ok((token, next)) ==> pos < next <= self.source.len() && token.span.start
                == pos,
    {
        let end = self.string_end(pos + 1, true);
        if end < self.source.len() {
            let token = Token {
                kind: TokenKind::LiteralString(substring(&self.source, pos + 1, end)),
                span: self.span(pos, end + 1),
            };
            Ok((token, end + 1))
        } else {
            Err(StrawberryError::syntax_error("Missing \"`\" at the end of the string"))
        }
    }

    fn parse_literal_string(&self, pos: usize) -> (result: Result<(Token, usize), StrawberryError>)
        requires
            pos < self.source.len(),
        ensures
            agrees(result, grammar::scan_literal_string(self.source@, pos as int)),
            result matches Ok((token, next)) ==> pos < next <= self.source.len() && token.span.start
                == pos,
    {
        let end = self.string_end(pos + 1, false);
        if end < self.source.len() && self.source[end] == '\'' {
            let token = Token {
                kind: TokenKind::LiteralString(substring(&self.source, pos + 1, end)),
                span: self.span(pos, end + 1),
            };
            Ok((token, end + 1))
        } else {
            Err(StrawberryError::syntax_error("Missing \"'\" at the end of the string"))
        }
    }

    fn parse_number(&self, pos: usize) -> (result: Result<(Token, usize), StrawberryError>)
        requires
            pos < self.source.len(),
            crate::text::is_digit(self.source[pos as int]),
        ensures
            agrees(result, grammar::scan_number(self.source@, pos as int)),
            result matches Ok((token, next)) ==> pos < next <= self.source.len() && token.span.start
                == pos,
    {
        let end = self.number_end(pos + 1);
        let token = Token {
            kind: TokenKind::Number(
                Numeral { negative: false, digits: substring(&self.source, pos, end) },
            ),
            span: self.span(pos, end),
        };
        Ok((token, end))
    }

    fn parse_bracket_scope(&self, pos: usize) -> (result: Result<(Token, usize), StrawberryError>)
        requires
            pos < self.source.len(),
        ensures
            agrees(result, grammar::scan_block(self.source@, pos as int)),
            result matches Ok((token, next)) ==> pos < next <= self.source.len() && token.span.start
                == pos,
        decreases self.source.len() - pos, 1nat,
    {
        match self.parse_run(pos + 1, Scope::Block, Self::fresh()) {
            Ok((children, next)) => {
                let token = Token {
                    kind: TokenKind::BracketScope(children),
                    span: self.span(pos, next),
                };
                Ok((token, next))
            },
            Err(error) => Err(error),
        }
    }

    fn unclosed(scope: Scope) -> (error: StrawberryError)
        requires
            scope != Scope::Text,
        ensures
            error@ == Failure::Syntax(grammar::unclosed(scope)),
    {
        match scope {
            Scope::Arguments => StrawberryError::syntax_error("Function call was not closed"),
            Scope::Values => StrawberryError::syntax_error(
                "Let statement was expecting a semicolon",
            ),
            _ => StrawberryError::syntax_error("Scope was not closed"),
        }
    }

    fn closes(scope: Scope, c: char) -> (yes: bool)
        ensures
            yes == grammar::closes(scope, c),
    {
        match scope {
            Scope::Text => false,
            Scope::Block => c == '}',
            Scope::Arguments => c == ')',
            Scope::Values => c == ';',
        }
    }

    fn separates(scope: Scope, c: char) -> (yes: bool)
        ensures
            yes == grammar::separates(scope, c),
    {
        let comma = match scope {
            Scope::Arguments => c == ',',
            _ => false,
        };
        comma || is_whitespace(c)
    }

    /// Scans the nodes of `scope` from `from` on, after the nodes in
    /// `stack`.
    fn parse_run(&self, from: usize, scope: Scope, stack: Vec<Token>) -> (result: Result<
        (Vec<Token>, usize),
        StrawberryError,
    >)
        requires
            from <= self.source.len(),
            starts_by(nodes_of(stack), from as int),
        ensures
            agrees_on_list(
                result,
                grammar::scan_run(self.source@, from as int, nodes_of(stack), scope),
            ),
            result matches Ok((nodes, next)) ==> {
                &&& from <= next <= self.source.len()
                &&& scope != Scope::Text ==> from < next
                &&& scope == Scope::Text ==> next == self.source.len()
                &&& starts_by(nodes_of(nodes), next as int)
            },
        decreases self.source.len() - from, 3nat,
    {
        let mut items = stack;
        let mut at: usize = from;
        loop
            invariant
                from <= at <= self.source.len(),
                starts_by(nodes_of(items), at as int),
                grammar::scan_run(self.source@, from as int, nodes_of(stack), scope)
                    == grammar::scan_run(self.source@, at as int, nodes_of(items), scope),
            decreases self.source.len() - at,
        {
            if at >= self.source.len() {
                return match scope {
                    Scope::Text => Ok((items, at)),
                    _ => Err(Self::unclosed(scope)),
                };
            }
            let c = self.source[at];
            if Self::closes(scope, c) {
                return Ok((items, at + 1));
            }
            if Self::separates(scope, c) {
                at += 1;
                continue ;
            }
            match self.next_token(at, &mut items) {
                Ok((token, next)) => {
                    let ghost rest = items;
                    items.push(token);
                    proof {
                        lemma_push(rest, items, token);
                    }
                    at = next;
                },
                Err(error) => {
                    return Err(error);
                },
            }
        }
    }

    fn classify(&self, pos: usize, end: usize) -> (operator: Operator)
        requires
            pos < end <= self.source.len(),
        ensures
            ({
                let run = self.source@.subrange(pos as int, end as int);
                match operator {
                    Operator::Attribution => grammar::is_attribution(run),
                    Operator::Arithmetic(kind) => !grammar::is_attribution(run)
                        && grammar::arithmetic_operator(run) == Some(kind),
                    Operator::Comparison(kind) => !grammar::is_attribution(run)
                        && grammar::arithmetic_operator(run) is None
                        && grammar::comparison_operator(run) == Some(kind),
                    Operator::Unknown => !grammar::is_attribution(run)
                        && grammar::arithmetic_operator(run) is None
                        && grammar::comparison_operator(run) is None,
                }
            }),
    {
        let first = self.source[pos];
        if end - pos == 1 {
            if first == '=' {
                Operator::Attribution
            } else if first == '+' {
                Operator::Arithmetic(ExpressionKind::Add)
            } else if first == '-' {
                Operator::Arithmetic(ExpressionKind::Subtract)
            } else if first == '*' {
                Operator::Arithmetic(ExpressionKind::Multiply)
            } else if first == '/' {
                Operator::Arithmetic(ExpressionKind::Divide)
            } else if first == '>' {
                Operator::Comparison(ComparisonKind::GreaterThan)
            } else if first == '<' {
                Operator::Comparison(ComparisonKind::LessThan)
            } else {
                Operator::Unknown
            }
        } else if end - pos == 2 && self.source[pos + 1] == '=' {
            if first == '=' {
                Operator::Comparison(ComparisonKind::Equal)
            } else if first == '!' {
                Operator::Comparison(ComparisonKind::NotEqual)
            } else if first == '>' {
                Operator::Comparison(ComparisonKind::GreaterEqual)
            } else if first == '<' {
                Operator::Comparison(ComparisonKind::LessEqual)
            } else {
                Operator::Unknown
            }
        } else {
            Operator::Unknown
        }
    }

    fn unknown_operator(&self, pos: usize, end: usize) -> (error: StrawberryError)
        requires
            pos <= end <= self.source.len(),
        ensures
            error@ == Failure::Syntax(
                grammar::unknown_operator(self.source@.subrange(pos as int, end as int)),
            ),
    {
        let run = substring(&self.source, pos, end);
        StrawberryError {
            kind: StrawberryErrorKind::SyntaxError(
                enclose("The operator \"", &run, "\" does not exists."),
            ),
        }
    }

    fn parse_operator(&self, pos: usize, stack: &mut Vec<Token>) -> (result: Result<
        (Token, usize),
        StrawberryError,
    >)
        requires
            pos < self.source.len(),
            crate::text::is_operator_char(self.source[pos as int]),
            starts_by(nodes_of(*old(stack)), pos as int),
        ensures
            agrees(result, grammar::scan_operator(self.source@, pos as int, nodes_of(*old(stack)))),
            result matches Ok((token, next)) ==> {
                &&& pos < next <= self.source.len()
                &&& 0 <= token.span.start <= pos
                &&& starts_by(nodes_of(*final(stack)), next as int)
                &&& nodes_of(*final(stack)) == grammar::scan_operator(
                    self.source@,
                    pos as int,
                    nodes_of(*old(stack)),
                )->stack
            },
        decreases self.source.len() - pos, 1nat,
    {
        let end = self.operator_end(pos + 1);
        match self.classify(pos, end) {
            Operator::Attribution => Ok(
                (Token { kind: TokenKind::Attribution, span: self.span(pos, end) }, end),
            ),
            Operator::Unknown => Err(self.unknown_operator(pos, end)),
            operator => {
                let ghost before = *stack;
                let left = stack.pop();
                proof {
                    if before.len() > 0 {
                        lemma_pop(before, *stack);
                    }
                }
                let from = self.skip_whitespace(end);
                let right = self.next_token(from, stack);
                match (left, right) {
                    (Some(left), Ok((right, next))) => {
                        let start = left.span.start;
                        let kind = match operator {
                            Operator::Arithmetic(kind) => TokenKind::Expression(
                                kind,
                                Box::new(left),
                                Box::new(right),
                            ),
                            Operator::Comparison(kind) => TokenKind::Comparison(
                                kind,
                                Box::new(left),
                                Box::new(right),
                            ),
                            _ => TokenKind::Unknown,
                        };
                        Ok((Token { kind, span: self.span(start, next) }, next))
                    },
                    (_, right) => {
                        match operator {
                            Operator::Arithmetic(ExpressionKind::Subtract) => {
                                match right {
                                    Ok((Token { kind: TokenKind::Number(numeral), span: _ }, next)) => {
                                        let negated = Numeral {
                                            negative: !numeral.negative,
                                            digits: numeral.digits,
                                        };
                                        Ok(
                                            (
                                                Token {
                                                    kind: TokenKind::Number(negated),
                                                    span: self.span(pos, next),
                                                },
                                                next,
                                            ),
                                        )
                                    },
                                    _ => Err(
                                        StrawberryError::syntax_error(
                                            "The unary operator can be used only on numbers",
                                        ),
                                    ),
                                }
                            },
                            _ => Err(self.unknown_operator(pos, end)),
                        }
                    },
                }
            },
        }
    }

    fn parameters(arguments: &Vec<Token>) -> (names: Vec<String>)
        ensures
            names_of(names) == grammar::parameter_names(nodes_of(*arguments)),
    {
        let mut names: Vec<String> = Vec::new();
        let mut i: usize = 0;
        while i < arguments.len()
            invariant
                i <= arguments.len(),
                names.len() == i,
                forall|j: int|
                    0 <= j < i ==> names[j]@ == grammar::parameter_names(
                        nodes_of(*arguments),
                    )[j],
            decreases arguments.len() - i,
        {
            let name = match &arguments[i].kind {
                TokenKind::Identifier(name) => name.clone(),
                _ => String::new(),
            };
            names.push(name);
            i += 1;
        }
        assert(names_of(names) =~= grammar::parameter_names(nodes_of(*arguments)));
        names
    }

    fn parse_function(&self, pos: usize, after: usize) -> (result: Result<
        (Token, usize),
        StrawberryError,
    >)
        requires
            pos < after <= self.source.len(),
            after == grammar::symbol_end(self.source@, pos + 1),
        ensures
            agrees(result, grammar::scan_function(self.source@, pos as int)),
            result matches Ok((token, next)) ==> pos < next <= self.source.len() && token.span.start
                == pos,
        decreases self.source.len() - pos, 0nat,
    {
        let from = self.skip_whitespace(after);
        let mut scratch = Self::fresh();
        match self.next_token(from, &mut scratch) {
            Err(_) => Err(
                StrawberryError::syntax_error("Expected a function name after 'function'"),
            ),
            Ok((Token { kind: TokenKind::Call(name, arguments), span: _ }, next)) => {
                let open = self.skip_whitespace(next);
                if open < self.source.len() && self.source[open] == '{' {
                    match self.parse_bracket_scope(open) {
                        Ok((body, done)) => {
                            let kind = TokenKind::Function(
                                name,
                                Self::parameters(&arguments),
                                Box::new(body),
                            );
                            Ok((Token { kind, span: self.span(pos, done) }, done))
                        },
                        Err(error) => Err(error),
                    }
                } else {
                    Err(StrawberryError::syntax_error("Expected '{' to start the function body."))
                }
            },
            Ok(_) => Err(StrawberryError::syntax_error("Malformed function")),
        }
    }

    fn parse_let(&self, pos: usize, after: usize, stack: &mut Vec<Token>) -> (result: Result<
        (Token, usize),
        StrawberryError,
    >)
        requires
            pos < after <= self.source.len(),
            after == grammar::symbol_end(self.source@, pos + 1),
            starts_by(nodes_of(*old(stack)), pos as int),
        ensures
            agrees(result, grammar::scan_let(self.source@, pos as int, nodes_of(*old(stack)))),
            result matches Ok((token, next)) ==> {
                &&& pos < next <= self.source.len()
                &&& token.span.start == pos
                &&& starts_by(nodes_of(*final(stack)), next as int)
                &&& nodes_of(*final(stack)) == grammar::scan_let(
                    self.source@,
                    pos as int,
                    nodes_of(*old(stack)),
                )->stack
            },
        decreases self.source.len() - pos, 0nat,
    {
        let from = self.skip_whitespace(after);
        let mut scratch = Self::fresh();
        match self.next_token(from, &mut scratch) {
            Err(_) => Err(
                StrawberryError::syntax_error("Set a variable name at the \"let\" statement"),
            ),
            Ok((Token { kind: TokenKind::Identifier(name), span: _ }, next)) => {
                let mark = self.skip_whitespace(next);
                if mark < self.source.len() && self.source[mark] == ';' {
                    let kind = TokenKind::Let(name, None);
                    return Ok((Token { kind, span: self.span(pos, mark + 1) }, mark + 1));
                }
                let mut scratch = Self::fresh();
                match self.next_token(mark, &mut scratch) {
                    Ok((Token { kind: TokenKind::Attribution, span: _ }, start)) => {
                        match self.parse_run(start, Scope::Values, Self::fresh()) {
                            Err(error) => Err(error),
                            Ok((values, done)) => {
                                let mut values = values;
                                let ghost all = values;
                                match values.pop() {
                                    None => Err(
                                        StrawberryError::syntax_error(
                                            "Let statement was expecting a value",
                                        ),
                                    ),
                                    Some(value) => {
                                        let ghost before = *stack;
                                        let ghost rest = values;
                                        stack.append(&mut values);
                                        proof {
                                            lemma_pop(all, rest);
                                            lemma_append(before, rest, *stack);
                                        }
                                        let kind = TokenKind::Let(name, Some(Box::new(value)));
                                        Ok((Token { kind, span: self.span(pos, done) }, done))
                                    },
                                }
                            },
                        }
                    },
                    _ => Err(
                        StrawberryError::syntax_error("Let statement was expecting a semicolon"),
                    ),
                }
            },
            Ok(_) => Err(
                StrawberryError::syntax_error("Let statement was expecting an identifier."),
            ),
        }
    }

    fn parse_symbol(&self, pos: usize, stack: &mut Vec<Token>) -> (result: Result<
        (Token, usize),
        StrawberryError,
    >)
        requires
            pos < self.source.len(),
            starts_by(nodes_of(*old(stack)), pos as int),
        ensures
            agrees(result, grammar::scan_symbol(self.source@, pos as int, nodes_of(*old(stack)))),
            result matches Ok((token, next)) ==> {
                &&& pos < next <= self.source.len()
                &&& token.span.start == pos
                &&& starts_by(nodes_of(*final(stack)), next as int)
                &&& nodes_of(*final(stack)) == grammar::scan_symbol(
                    self.source@,
                    pos as int,
                    nodes_of(*old(stack)),
                )->stack
            },
        decreases self.source.len() - pos, 1nat,
    {
        let end = self.symbol_end(pos + 1);
        let name = substring(&self.source, pos, end);
        if reads(&name, "let") {
            self.parse_let(pos, end, stack)
        } else if reads(&name, "function") {
            self.parse_function(pos, end)
        } else if reads(&name, "true") {
            Ok((Token { kind: TokenKind::Boolean(true), span: self.span(pos, end) }, end))
        } else if reads(&name, "false") {
            Ok((Token { kind: TokenKind::Boolean(false), span: self.span(pos, end) }, end))
        } else if end < self.source.len() && self.source[end] == '(' {
            match self.parse_run(end + 1, Scope::Arguments, Self::fresh()) {
                Ok((arguments, next)) => {
                    let kind = TokenKind::Call(name, arguments);
                    Ok((Token { kind, span: self.span(pos, next) }, next))
                },
                Err(error) => Err(error),
            }
        } else {
            Ok((Token { kind: TokenKind::Identifier(name), span: self.span(pos, end) }, end))
        }
    }

    fn unexpected_character(c: char) -> (error: StrawberryError)
        ensures
            error@ == Failure::Syntax(grammar::unexpected_character(c)),
    {
        let mut message = String::from_str("Unexpected character: \"");
        message.push(c);
        message.append("\"");
        StrawberryError { kind: StrawberryErrorKind::SyntaxError(message) }
    }

    fn next_token(&self, pos: usize, stack: &mut Vec<Token>) -> (result: Result<
        (Token, usize),
        StrawberryError,
    >)
        requires
            pos <= self.source.len(),
            starts_by(nodes_of(*old(stack)), pos as int),
        ensures
            agrees(result, grammar::scan_node(self.source@, pos as int, nodes_of(*old(stack)))),
            result matches Ok((token, next)) ==> {
                &&& pos < next <= self.source.len()
                &&& 0 <= token.span.start <= pos
                &&& starts_by(nodes_of(*final(stack)), next as int)
                &&& nodes_of(*final(stack)) == grammar::scan_node(
                    self.source@,
                    pos as int,
                    nodes_of(*old(stack)),
                )->stack
            },
        decreases self.source.len() - pos, 2nat,
    {
        if pos >= self.source.len() {
            return Err(StrawberryError::syntax_error("Unexpected EOF."));
        }
        let c = self.source[pos];
        if c == '\'' {
            self.parse_literal_string(pos)
        } else if c == '`' {
            self.parse_multiline_string(pos)
        } else if c == '{' {
            self.parse_bracket_scope(pos)
        } else if operator_char(c) {
            self.parse_operator(pos, stack)
        } else if digit(c) {
            self.parse_number(pos)
        } else if is_alphabetic(c) {
            self.parse_symbol(pos, stack)
        } else {
            Err(Self::unexpected_character(c))
        }
    }

    /// Reads the rest of the text and returns every top-level node, those
    /// completed by earlier calls first. On a syntax error the tokenizer is
    /// left as it was.
    pub fn run_stream(&mut self) -> (result: Result<Vec<Token>, StrawberryError>)
        ensures
            final(self).source() == old(self).source(),
            match grammar::scan_run(
                old(self).source(),
                old(self).position(),
                old(self).tokens(),
                Scope::Text,
            ) {
                ListScan::Nodes { nodes, next } => {
                    &&& result matches Ok(tokens)
                    &&& nodes_of(tokens) == nodes
                    &&& final(self).tokens() == nodes
                    &&& final(self).position() == final(self).source().len()
                },
                ListScan::Failure { message } => {
                    &&& result matches Err(error)
                    &&& error@ == Failure::Syntax(message)
                    &&& final(self).position() == old(self).position()
                    &&& final(self).tokens() == old(self).tokens()
                },
            },
    {
        proof {
            use_type_invariant(&*self);
        }
        match self.parse_run(self.position, Scope::Text, duplicate_all(&self.tokens)) {
            Ok((stack, end)) => {
                let tokens = duplicate_all(&stack);
                self.position = end;
                self.tokens = stack;
                Ok(tokens)
            },
            Err(error) => Err(error),
        }
    }
}

/// Tokenizes `source`: the top-level nodes in source order, or the first
/// syntax error.
pub fn tokenize(source: &str) -> (result: Result<Vec<Token>, StrawberryError>)
    ensures
        match grammar::tokenize(source@) {
            ListScan::Nodes { nodes, next: _ } => result matches Ok(tokens) && nodes_of(tokens)
                == nodes,
            ListScan::Failure { message } => result matches Err(error) && error@
                == Failure::Syntax(message),
        },
{
    let mut lexer = StrawberryLexer::from_string(source);
    lexer.run_stream()
}

} // verus!
