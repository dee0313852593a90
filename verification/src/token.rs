//! Syntax nodes: what the tokenizer produces and the evaluator consumes.

use vstd::prelude::*;

verus! {

/// The four arithmetic operators.
#[derive(Debug, Clone, Copy, PartialEq, Eq)]
pub enum ExpressionKind {
    Add,
    Subtract,
    Multiply,
    Divide,
}

/// The six comparison operators.
#[derive(Debug, Clone, Copy, PartialEq, Eq)]
pub enum ComparisonKind {
    Equal,
    NotEqual,
    GreaterThan,
    LessThan,
    GreaterEqual,
    LessEqual,
}

/// A number as it is written: decimal digits with at most one point, and a
/// sign. It is kept exact; turning it into a machine number is left to the
/// evaluator's host.
#[derive(Debug, Clone, PartialEq, Eq)]
pub struct Numeral {
    pub negative: bool,
    pub digits: String,
}

/// The mathematical content of a [`Numeral`].
pub ghost struct NumeralModel {
    pub negative: bool,
    pub digits: Seq<char>,
}

impl View for Numeral {
    type V = NumeralModel;

    open spec fn view(&self) -> NumeralModel {
        NumeralModel { negative: self.negative, digits: self.digits@ }
    }
}

/// Where a node stands in the source: the offsets of its first character and
/// of the character after its last, counted in characters, and the text
/// between them.
#[derive(Debug, Clone, PartialEq, Eq)]
pub struct TokenSpan {
    pub start: usize,
    pub end: usize,
    pub text: String,
}

/// The mathematical content of a [`TokenSpan`].
pub ghost struct Span {
    pub start: int,
    pub end: int,
    pub text: Seq<char>,
}

impl View for TokenSpan {
    type V = Span;

    open spec fn view(&self) -> Span {
        Span { start: self.start as int, end: self.end as int, text: self.text@ }
    }
}

/// The span of `source` from `start` up to `end`.
pub open spec fn span_of(source: Seq<char>, start: int, end: int) -> Span {
    Span { start, end, text: source.subrange(start, end) }
}

/// The kinds of syntax node, each with its children.
#[derive(Debug, PartialEq)]
pub enum TokenKind {
    LiteralString(String),
    BracketScope(Vec<Token>),
    Identifier(String),
    Let(String, Option<Box<Token>>),
    Call(String, Vec<Token>),
    Number(Numeral),
    Boolean(bool),
    Comparison(ComparisonKind, Box<Token>, Box<Token>),
    Attribution,
    Expression(ExpressionKind, Box<Token>, Box<Token>),
    Function(String, Vec<String>, Box<Token>),
    Unknown,
}

/// A syntax node.
#[derive(Debug, PartialEq)]
pub struct Token {
    pub kind: TokenKind,
    pub span: TokenSpan,
}

/// The mathematical content of a [`TokenKind`].
pub ghost enum NodeKind {
    LiteralString(Seq<char>),
    BracketScope(Seq<Node>),
    Identifier(Seq<char>),
    Let(Seq<char>, Option<Box<Node>>),
    Call(Seq<char>, Seq<Node>),
    Number(NumeralModel),
    Boolean(bool),
    Comparison(ComparisonKind, Box<Node>, Box<Node>),
    Attribution,
    Expression(ExpressionKind, Box<Node>, Box<Node>),
    Function(Seq<char>, Seq<Seq<char>>, Box<Node>),
    Unknown,
}

/// The mathematical content of a [`Token`].
pub ghost struct Node {
    pub kind: NodeKind,
    pub span: Span,
}

/// The content of each string of `names`.
pub open spec fn names_of(names: Vec<String>) -> Seq<Seq<char>> {
    Seq::new(names.len() as nat, |i: int| names[i]@)
}

/// The content of each token of `tokens`.
pub open spec fn nodes_of(tokens: Vec<Token>) -> Seq<Node>
    decreases tokens,
{
    Seq::new(
        tokens.len() as nat,
        |i: int|
            if 0 <= i < tokens.len() {
                tokens[i]@
            } else {
                arbitrary()
            },
    )
}

impl TokenKind {
    /// The content of this kind, with the content of its children.
    pub open spec fn view(&self) -> NodeKind
        decreases self,
    {
        match self {
            TokenKind::LiteralString(text) => NodeKind::LiteralString(text@),
            TokenKind::BracketScope(children) => NodeKind::BracketScope(nodes_of(*children)),
            TokenKind::Identifier(name) => NodeKind::Identifier(name@),
            TokenKind::Let(name, None) => NodeKind::Let(name@, None),
            TokenKind::Let(name, Some(value)) => NodeKind::Let(name@, Some(Box::new(value@))),
            TokenKind::Call(name, arguments) => NodeKind::Call(name@, nodes_of(*arguments)),
            TokenKind::Number(numeral) => NodeKind::Number(numeral@),
            TokenKind::Boolean(value) => NodeKind::Boolean(*value),
            TokenKind::Comparison(operator, left, right) => NodeKind::Comparison(
                *operator,
                Box::new(left@),
                Box::new(right@),
            ),
            TokenKind::Attribution => NodeKind::Attribution,
            TokenKind::Expression(operator, left, right) => NodeKind::Expression(
                *operator,
                Box::new(left@),
                Box::new(right@),
            ),
            TokenKind::Function(name, parameters, body) => NodeKind::Function(
                name@,
                names_of(*parameters),
                Box::new(body@),
            ),
            TokenKind::Unknown => NodeKind::Unknown,
        }
    }
}

impl Token {
    /// The content of this node: its kind and its span.
    pub open spec fn view(&self) -> Node
        decreases self,
    {
        Node { kind: self.kind@, span: self.span@ }
    }

    /// A copy with the same content.
    pub fn duplicate(&self) -> (copy: Token)
        ensures
            copy@ == self@,
        decreases self, 1nat,
    {
        Token {
            kind: self.kind.duplicate(),
            span: TokenSpan {
                start: self.span.start,
                end: self.span.end,
                text: self.span.text.clone(),
            },
        }
    }
}

impl TokenKind {
    /// A copy with the same content.
    pub fn duplicate(&self) -> (copy: TokenKind)
        ensures
            copy@ == self@,
        decreases self, 0nat,
    {
        match self {
            TokenKind::LiteralString(text) => TokenKind::LiteralString(text.clone()),
            TokenKind::BracketScope(children) => TokenKind::BracketScope(duplicate_all(children)),
            TokenKind::Identifier(name) => TokenKind::Identifier(name.clone()),
            TokenKind::Let(name, None) => TokenKind::Let(name.clone(), None),
            TokenKind::Let(name, Some(value)) => TokenKind::Let(
                name.clone(),
                Some(Box::new(value.duplicate())),
            ),
            TokenKind::Call(name, arguments) => TokenKind::Call(
                name.clone(),
                duplicate_all(arguments),
            ),
            TokenKind::Number(numeral) => TokenKind::Number(
                Numeral { negative: numeral.negative, digits: numeral.digits.clone() },
            ),
            TokenKind::Boolean(value) => TokenKind::Boolean(*value),
            TokenKind::Comparison(operator, left, right) => TokenKind::Comparison(
                *operator,
                Box::new(left.duplicate()),
                Box::new(right.duplicate()),
            ),
            TokenKind::Attribution => TokenKind::Attribution,
            TokenKind::Expression(operator, left, right) => TokenKind::Expression(
                *operator,
                Box::new(left.duplicate()),
                Box::new(right.duplicate()),
            ),
            TokenKind::Function(name, parameters, body) => TokenKind::Function(
                name.clone(),
                duplicate_names(parameters),
                Box::new(body.duplicate()),
            ),
            TokenKind::Unknown => TokenKind::Unknown,
        }
    }
}

impl Clone for TokenKind {
    fn clone(&self) -> (copy: Self)
        ensures
            copy@ == self@,
    {
        self.duplicate()
    }
}

impl Clone for Token {
    fn clone(&self) -> (copy: Self)
        ensures
            copy@ == self@,
    {
        self.duplicate()
    }
}

/// A copy of each token, in order.
pub fn duplicate_all(tokens: &Vec<Token>) -> (copies: Vec<Token>)
    ensures
        nodes_of(copies) == nodes_of(*tokens),
    decreases tokens, 2nat,
{
    let mut copies: Vec<Token> = Vec::new();
    let mut i: usize = 0;
    while i < tokens.len()
        invariant
            i <= tokens.len(),
            copies.len() == i,
            forall|j: int| 0 <= j < i ==> copies[j]@ == tokens[j]@,
        decreases tokens.len() - i,
    {
        copies.push(tokens[i].duplicate());
        i += 1;
    }
    assert(nodes_of(copies) =~= nodes_of(*tokens));
    copies
}

/// A copy of each name, in order.
pub fn duplicate_names(names: &Vec<String>) -> (copies: Vec<String>)
    ensures
        names_of(copies) == names_of(*names),
{
    let mut copies: Vec<String> = Vec::new();
    let mut i: usize = 0;
    while i < names.len()
        invariant
            i <= names.len(),
            copies.len() == i,
            forall|j: int| 0 <= j < i ==> copies[j]@ == names[j]@,
        decreases names.len() - i,
    {
        copies.push(names[i].clone());
        i += 1;
    }
    assert(names_of(copies) =~= names_of(*names));
    copies
}

/// What `nodes_of` holds at each place.
pub proof fn lemma_nodes_of(tokens: Vec<Token>)
    ensures
        nodes_of(tokens).len() == tokens.len(),
        forall|i: int| 0 <= i < tokens.len() ==> #[trigger] nodes_of(tokens)[i] == tokens[i]@,
{
}

} // verus!
