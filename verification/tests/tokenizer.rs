use strawberry::error::StrawberryErrorKind;
use strawberry::lexer::{
    ComparisonKind, ExpressionKind, Numeral, StrawberryLexer, Token, TokenKind,
};

fn tokenize(source: &str) -> Result<Vec<Token>, String> {
    let mut lexer = StrawberryLexer::from_string(source);
    match lexer.run_stream() {
        Ok(tokens) => Ok(tokens),
        Err(error) => match error.kind {
            StrawberryErrorKind::SyntaxError(message) => Err(message),
            StrawberryErrorKind::SemanticError(message) => {
                panic!("the tokenizer reported a semantic error: {}", message)
            }
        },
    }
}

fn one(source: &str) -> Token {
    let mut tokens = tokenize(source).unwrap();
    assert_eq!(tokens.len(), 1, "{:?}", tokens);
    tokens.pop().unwrap()
}

fn failure(message: &str) -> Result<Vec<Token>, String> {
    Err(message.to_string())
}

fn numeral(negative: bool, digits: &str) -> TokenKind {
    TokenKind::Number(Numeral { negative, digits: digits.to_string() })
}

fn identifier(name: &str) -> TokenKind {
    TokenKind::Identifier(name.to_string())
}

fn string(text: &str) -> TokenKind {
    TokenKind::LiteralString(text.to_string())
}

fn span(token: &Token) -> (usize, usize, &str) {
    (token.span.start, token.span.end, token.span.text.as_str())
}

#[test]
fn an_empty_text_has_no_nodes() {
    assert_eq!(tokenize(""), Ok(vec![]));
    assert_eq!(tokenize(" \n\t "), Ok(vec![]));
}

#[test]
fn a_numeral_is_one_number_node() {
    let token = one("923.123");
    assert_eq!(token.kind, numeral(false, "923.123"));
    assert_eq!(span(&token), (0, 7, "923.123"));
    assert_eq!(one("0").kind, numeral(false, "0"));
    assert_eq!(one("0000.56").kind, numeral(false, "0000.56"));
    assert_eq!(one("12.").kind, numeral(false, "12."));
}

#[test]
fn a_second_point_ends_a_number() {
    assert_eq!(tokenize("1.2.3"), failure("Unexpected character: \".\""));
    assert_eq!(tokenize(".5"), failure("Unexpected character: \".\""));
}

#[test]
fn division_of_two_negated_numbers() {
    let token = one("-923.123 / -90.31");
    match &token.kind {
        TokenKind::Expression(ExpressionKind::Divide, left, right) => {
            assert_eq!(left.kind, numeral(true, "923.123"));
            assert_eq!(span(left), (0, 8, "-923.123"));
            assert_eq!(right.kind, numeral(true, "90.31"));
            assert_eq!(span(right), (11, 17, "-90.31"));
        }
        other => panic!("not a division: {:?}", other),
    }
    assert_eq!(span(&token), (0, 17, "-923.123 / -90.31"));
}

#[test]
fn unary_minus_negates_a_number() {
    assert_eq!(one("-5").kind, numeral(true, "5"));
    assert_eq!(span(&one("-  5")), (0, 4, "-  5"));
    assert_eq!(one("- -5").kind, numeral(false, "5"));
}

#[test]
fn unary_minus_on_anything_else_is_a_syntax_error() {
    let message = "The unary operator can be used only on numbers";
    assert_eq!(tokenize("- 'x'"), failure(message));
    assert_eq!(tokenize("-x"), failure(message));
    assert_eq!(tokenize("-true"), failure(message));
    assert_eq!(tokenize("-{ 1 }"), failure(message));
    assert_eq!(tokenize("-"), failure(message));
    assert_eq!(tokenize("1 -"), failure(message));
    assert_eq!(tokenize("1 - #"), failure(message));
}

#[test]
fn the_four_arithmetic_operators() {
    for (source, kind) in [
        ("1 + 2", ExpressionKind::Add),
        ("1 - 2", ExpressionKind::Subtract),
        ("1 * 2", ExpressionKind::Multiply),
        ("1 / 2", ExpressionKind::Divide),
    ] {
        let token = one(source);
        match &token.kind {
            TokenKind::Expression(operator, left, right) => {
                assert_eq!(*operator, kind);
                assert_eq!(left.kind, numeral(false, "1"));
                assert_eq!(right.kind, numeral(false, "2"));
            }
            other => panic!("not an expression: {:?}", other),
        }
        assert_eq!(span(&token), (0, 5, source));
    }
}

#[test]
fn the_six_comparison_operators() {
    for (source, kind) in [
        ("a == b", ComparisonKind::Equal),
        ("a != b", ComparisonKind::NotEqual),
        ("a >= b", ComparisonKind::GreaterEqual),
        ("a <= b", ComparisonKind::LessEqual),
        ("a > b", ComparisonKind::GreaterThan),
        ("a < b", ComparisonKind::LessThan),
    ] {
        let token = one(source);
        match &token.kind {
            TokenKind::Comparison(operator, left, right) => {
                assert_eq!(*operator, kind);
                assert_eq!(left.kind, identifier("a"));
                assert_eq!(right.kind, identifier("b"));
            }
            other => panic!("not a comparison: {:?}", other),
        }
        assert_eq!(token.span.text, source);
    }
}

#[test]
fn comparison_of_two_numbers() {
    match &one("1 == 1").kind {
        TokenKind::Comparison(ComparisonKind::Equal, left, right) => {
            assert_eq!(left.kind, numeral(false, "1"));
            assert_eq!(right.kind, numeral(false, "1"));
        }
        other => panic!("not a comparison: {:?}", other),
    }
}

#[test]
fn operators_without_spaces() {
    let token = one("1+2");
    assert_eq!(span(&token), (0, 3, "1+2"));
    match &token.kind {
        TokenKind::Expression(ExpressionKind::Add, left, right) => {
            assert_eq!(span(left), (0, 1, "1"));
            assert_eq!(span(right), (2, 3, "2"));
        }
        other => panic!("not an addition: {:?}", other),
    }
}

#[test]
fn operators_nest_to_the_left() {
    let token = one("1 + 2 * 3");
    assert_eq!(span(&token), (0, 9, "1 + 2 * 3"));
    match &token.kind {
        TokenKind::Expression(ExpressionKind::Multiply, left, right) => {
            assert_eq!(right.kind, numeral(false, "3"));
            assert_eq!(span(left), (0, 5, "1 + 2"));
            match &left.kind {
                TokenKind::Expression(ExpressionKind::Add, first, second) => {
                    assert_eq!(first.kind, numeral(false, "1"));
                    assert_eq!(second.kind, numeral(false, "2"));
                }
                other => panic!("not an addition: {:?}", other),
            }
        }
        other => panic!("not a multiplication: {:?}", other),
    }
}

#[test]
fn an_operator_takes_the_node_before_it() {
    let tokens = tokenize("a b + c").unwrap();
    assert_eq!(tokens.len(), 2);
    assert_eq!(tokens[0].kind, identifier("a"));
    match &tokens[1].kind {
        TokenKind::Expression(ExpressionKind::Add, left, right) => {
            assert_eq!(left.kind, identifier("b"));
            assert_eq!(right.kind, identifier("c"));
        }
        other => panic!("not an addition: {:?}", other),
    }
    assert_eq!(span(&tokens[1]), (2, 7, "b + c"));
}

#[test]
fn an_operator_without_operands_is_a_syntax_error() {
    assert_eq!(tokenize("+ 1"), failure("The operator \"+\" does not exists."));
    assert_eq!(tokenize("1 +"), failure("The operator \"+\" does not exists."));
    assert_eq!(tokenize("*"), failure("The operator \"*\" does not exists."));
    assert_eq!(tokenize("== 1"), failure("The operator \"==\" does not exists."));
    assert_eq!(tokenize("1 <"), failure("The operator \"<\" does not exists."));
    assert_eq!(tokenize("1 + 'abc"), failure("The operator \"+\" does not exists."));
}

#[test]
fn an_unknown_operator_is_a_syntax_error() {
    assert_eq!(tokenize("1 => 2"), failure("The operator \"=>\" does not exists."));
    assert_eq!(tokenize("1 === 2"), failure("The operator \"===\" does not exists."));
    assert_eq!(tokenize("1 ! 2"), failure("The operator \"!\" does not exists."));
    assert_eq!(tokenize("1 +- 2"), failure("The operator \"+-\" does not exists."));
    assert_eq!(tokenize("1 // 2"), failure("The operator \"//\" does not exists."));
}

#[test]
fn a_lone_equals_sign_is_an_attribution() {
    let token = one("=");
    assert_eq!(token.kind, TokenKind::Attribution);
    assert_eq!(span(&token), (0, 1, "="));
    let tokens = tokenize("a = 1").unwrap();
    assert_eq!(tokens.len(), 3);
    assert_eq!(tokens[1].kind, TokenKind::Attribution);
}

#[test]
fn single_line_strings() {
    let token = one("'abc'");
    assert_eq!(token.kind, string("abc"));
    assert_eq!(span(&token), (0, 5, "'abc'"));
    assert_eq!(one("''").kind, string(""));
    assert_eq!(one("'a `b` c'").kind, string("a `b` c"));
    assert_eq!(one("'héllo wörld'").kind, string("héllo wörld"));
    assert_eq!(span(&one("  'é' ")), (2, 5, "'é'"));
}

#[test]
fn multi_line_strings() {
    let token = one("`a\nb`");
    assert_eq!(token.kind, string("a\nb"));
    assert_eq!(span(&token), (0, 5, "`a\nb`"));
    assert_eq!(one("`it's`").kind, string("it's"));
    assert_eq!(one("``").kind, string(""));
}

#[test]
fn unterminated_string_is_a_syntax_error() {
    let message = "Missing \"'\" at the end of the string";
    assert_eq!(tokenize("'abc"), failure(message));
    assert_eq!(tokenize("'abc\n'"), failure(message));
    assert_eq!(tokenize("'"), failure(message));
    assert_eq!(tokenize("f('abc)"), failure(message));
    assert_eq!(tokenize("`abc"), failure("Missing \"`\" at the end of the string"));
    assert_eq!(tokenize("`abc'"), failure("Missing \"`\" at the end of the string"));
}

#[test]
fn blocks_hold_their_nodes_in_order() {
    let token = one("{ a 'b' 3 }");
    assert_eq!(span(&token), (0, 11, "{ a 'b' 3 }"));
    match &token.kind {
        TokenKind::BracketScope(children) => {
            assert_eq!(children.len(), 3);
            assert_eq!(children[0].kind, identifier("a"));
            assert_eq!(children[1].kind, string("b"));
            assert_eq!(children[2].kind, numeral(false, "3"));
            assert_eq!(span(&children[1]), (4, 7, "'b'"));
        }
        other => panic!("not a block: {:?}", other),
    }
    assert_eq!(one("{}").kind, TokenKind::BracketScope(vec![]));
}

#[test]
fn blocks_nest() {
    match &one("{ { 1 } { } }").kind {
        TokenKind::BracketScope(children) => {
            assert_eq!(children.len(), 2);
            match &children[0].kind {
                TokenKind::BracketScope(inner) => assert_eq!(inner.len(), 1),
                other => panic!("not a block: {:?}", other),
            }
            assert_eq!(children[1].kind, TokenKind::BracketScope(vec![]));
        }
        other => panic!("not a block: {:?}", other),
    }
}

#[test]
fn a_block_has_an_operand_stack_of_its_own() {
    let tokens = tokenize("x { 1 + 2 }").unwrap();
    assert_eq!(tokens.len(), 2);
    assert_eq!(tokens[0].kind, identifier("x"));
    match &tokens[1].kind {
        TokenKind::BracketScope(children) => {
            assert_eq!(children.len(), 1);
            assert_eq!(span(&children[0]), (4, 9, "1 + 2"));
        }
        other => panic!("not a block: {:?}", other),
    }
    assert_eq!(tokenize("x { + 2 }"), failure("The operator \"+\" does not exists."));
    match &tokenize("x { -2 }").unwrap()[1].kind {
        TokenKind::BracketScope(children) => assert_eq!(children[0].kind, numeral(true, "2")),
        other => panic!("not a block: {:?}", other),
    }
}

#[test]
fn unterminated_block_is_a_syntax_error() {
    assert_eq!(tokenize("{ 1 + 1"), failure("Scope was not closed"));
    assert_eq!(tokenize("{"), failure("Scope was not closed"));
    assert_eq!(tokenize("{ { 1 }"), failure("Scope was not closed"));
    assert_eq!(tokenize("{ 'a }"), failure("Missing \"'\" at the end of the string"));
}

#[test]
fn a_closing_brace_alone_is_a_syntax_error() {
    assert_eq!(tokenize("}"), failure("Unexpected character: \"}\""));
    assert_eq!(tokenize("1 )"), failure("Unexpected character: \")\""));
    assert_eq!(tokenize("#"), failure("Unexpected character: \"#\""));
    assert_eq!(tokenize("a; b"), failure("Unexpected character: \";\""));
}

#[test]
fn identifiers_and_booleans() {
    assert_eq!(one("abc").kind, identifier("abc"));
    assert_eq!(one("a_1").kind, identifier("a_1"));
    assert_eq!(one("été").kind, identifier("été"));
    assert_eq!(one("x٣").kind, identifier("x٣"));
    assert_eq!(one("true").kind, TokenKind::Boolean(true));
    assert_eq!(one("false").kind, TokenKind::Boolean(false));
    assert_eq!(one("truer").kind, identifier("truer"));
    assert_eq!(one("letter").kind, identifier("letter"));
    assert_eq!(span(&one(" abc ")), (1, 4, "abc"));
    assert_eq!(tokenize("_a"), failure("Unexpected character: \"_\""));
}

#[test]
fn white_space_separates_nodes() {
    let tokens = tokenize("a\tb\nc\r\nd\u{a0}e\u{2003}f").unwrap();
    assert_eq!(tokens.len(), 6);
    assert_eq!(tokens[5].kind, identifier("f"));
    assert_eq!(tokens[4].span.start, 9);
}

#[test]
fn calls_hold_their_arguments_in_order() {
    let token = one("f(1, 'a', x)");
    assert_eq!(span(&token), (0, 12, "f(1, 'a', x)"));
    match &token.kind {
        TokenKind::Call(name, arguments) => {
            assert_eq!(name, "f");
            assert_eq!(arguments.len(), 3);
            assert_eq!(arguments[0].kind, numeral(false, "1"));
            assert_eq!(arguments[1].kind, string("a"));
            assert_eq!(arguments[2].kind, identifier("x"));
        }
        other => panic!("not a call: {:?}", other),
    }
    assert_eq!(one("f()").kind, TokenKind::Call("f".to_string(), vec![]));
    assert_eq!(one("f( ,, )").kind, TokenKind::Call("f".to_string(), vec![]));
}

#[test]
fn a_call_needs_its_parenthesis_right_after_the_name() {
    assert_eq!(tokenize("f (1)"), failure("Unexpected character: \"(\""));
}

#[test]
fn arguments_may_be_expressions_comparisons_calls_and_blocks() {
    match &one("if(x == 1, { g(2) }, 1 + 2)").kind {
        TokenKind::Call(name, arguments) => {
            assert_eq!(name, "if");
            assert_eq!(arguments.len(), 3);
            assert!(matches!(arguments[0].kind, TokenKind::Comparison(ComparisonKind::Equal, _, _)));
            assert!(matches!(arguments[1].kind, TokenKind::BracketScope(_)));
            assert!(matches!(arguments[2].kind, TokenKind::Expression(ExpressionKind::Add, _, _)));
        }
        other => panic!("not a call: {:?}", other),
    }
}

#[test]
fn an_argument_list_has_an_operand_stack_of_its_own() {
    let tokens = tokenize("let x = 1;\nif(x == 1, { 2 })").unwrap();
    assert_eq!(tokens.len(), 2);
    match &tokens[1].kind {
        TokenKind::Call(_, arguments) => assert_eq!(arguments.len(), 2),
        other => panic!("not a call: {:?}", other),
    }
}

#[test]
fn an_unterminated_call_is_a_syntax_error() {
    assert_eq!(tokenize("f(1, 2"), failure("Function call was not closed"));
    assert_eq!(tokenize("f("), failure("Function call was not closed"));
    assert_eq!(tokenize("f(1 +)"), failure("The operator \"+\" does not exists."));
}

#[test]
fn let_with_an_initializer() {
    let token = one("let x = 5;");
    assert_eq!(span(&token), (0, 10, "let x = 5;"));
    match &token.kind {
        TokenKind::Let(name, Some(value)) => {
            assert_eq!(name, "x");
            assert_eq!(value.kind, numeral(false, "5"));
            assert_eq!(span(value), (8, 9, "5"));
        }
        other => panic!("not a let: {:?}", other),
    }
}

#[test]
fn let_takes_any_white_space() {
    for source in ["let x=5;", "let   x   =   5   ;", "let\nx\n=\n5\n;"] {
        match &one(source).kind {
            TokenKind::Let(name, Some(value)) => {
                assert_eq!(name, "x");
                assert_eq!(value.kind, numeral(false, "5"));
            }
            other => panic!("not a let: {:?}", other),
        }
    }
}

#[test]
fn let_without_an_initializer() {
    let token = one("let x;");
    assert_eq!(token.kind, TokenKind::Let("x".to_string(), None));
    assert_eq!(span(&token), (0, 6, "let x;"));
    assert_eq!(one("let x ;").kind, TokenKind::Let("x".to_string(), None));
}

#[test]
fn the_initializer_of_a_let_is_an_expression() {
    let tokens = tokenize("let be = 10;\nlet be = 10 + be;\nbe").unwrap();
    assert_eq!(tokens.len(), 3);
    match &tokens[1].kind {
        TokenKind::Let(name, Some(value)) => {
            assert_eq!(name, "be");
            assert_eq!(span(value), (22, 29, "10 + be"));
            assert!(matches!(value.kind, TokenKind::Expression(ExpressionKind::Add, _, _)));
        }
        other => panic!("not a let: {:?}", other),
    }
    assert_eq!(span(&tokens[1]), (13, 30, "let be = 10 + be;"));
    assert_eq!(tokens[2].kind, identifier("be"));
}

#[test]
fn the_initializer_of_a_let_has_an_operand_stack_of_its_own() {
    let tokens = tokenize("let y = 1;\nlet x = -5;").unwrap();
    assert_eq!(tokens.len(), 2);
    match &tokens[1].kind {
        TokenKind::Let(name, Some(value)) => {
            assert_eq!(name, "x");
            assert_eq!(value.kind, numeral(true, "5"));
        }
        other => panic!("not a let: {:?}", other),
    }
    assert_eq!(tokenize("1 let x = + 2;"), failure("The operator \"+\" does not exists."));
}

#[test]
fn the_last_value_of_a_let_is_its_initializer() {
    let tokens = tokenize("a let x = 1 'two' 3; b").unwrap();
    assert_eq!(tokens.len(), 5);
    assert_eq!(tokens[0].kind, identifier("a"));
    assert_eq!(tokens[1].kind, numeral(false, "1"));
    assert_eq!(tokens[2].kind, string("two"));
    match &tokens[3].kind {
        TokenKind::Let(name, Some(value)) => {
            assert_eq!(name, "x");
            assert_eq!(value.kind, numeral(false, "3"));
        }
        other => panic!("not a let: {:?}", other),
    }
    assert_eq!(tokens[4].kind, identifier("b"));
}

#[test]
fn a_malformed_let_is_a_syntax_error() {
    assert_eq!(tokenize("let"), failure("Set a variable name at the \"let\" statement"));
    assert_eq!(tokenize("let ;"), failure("Set a variable name at the \"let\" statement"));
    assert_eq!(tokenize("let = 1;"), failure("Let statement was expecting an identifier."));
    assert_eq!(tokenize("let 5 = 1;"), failure("Let statement was expecting an identifier."));
    assert_eq!(tokenize("let f() = 1;"), failure("Let statement was expecting an identifier."));
    assert_eq!(tokenize("let true = 1;"), failure("Let statement was expecting an identifier."));
    assert_eq!(tokenize("let x"), failure("Let statement was expecting a semicolon"));
    assert_eq!(tokenize("let x 5;"), failure("Let statement was expecting a semicolon"));
    assert_eq!(tokenize("let x == 5;"), failure("Let statement was expecting a semicolon"));
    assert_eq!(tokenize("let x = 5"), failure("Let statement was expecting a semicolon"));
    assert_eq!(tokenize("let x = "), failure("Let statement was expecting a semicolon"));
    assert_eq!(tokenize("let x = ;"), failure("Let statement was expecting a value"));
    assert_eq!(tokenize("let x = 'a;"), failure("Missing \"'\" at the end of the string"));
}

#[test]
fn function_declarations() {
    let token = one("function add(a, b) { a + b }");
    assert_eq!(span(&token), (0, 28, "function add(a, b) { a + b }"));
    match &token.kind {
        TokenKind::Function(name, parameters, body) => {
            assert_eq!(name, "add");
            assert_eq!(parameters, &vec!["a".to_string(), "b".to_string()]);
            assert_eq!(span(body), (19, 28, "{ a + b }"));
            match &body.kind {
                TokenKind::BracketScope(children) => {
                    assert_eq!(children.len(), 1);
                    assert!(matches!(
                        children[0].kind,
                        TokenKind::Expression(ExpressionKind::Add, _, _)
                    ));
                }
                other => panic!("not a block: {:?}", other),
            }
        }
        other => panic!("not a function: {:?}", other),
    }
}

#[test]
fn function_declarations_take_any_white_space() {
    for source in ["function f(){}", "function   f()   { }", "function\nf()\n{\n}"] {
        match &one(source).kind {
            TokenKind::Function(name, parameters, body) => {
                assert_eq!(name, "f");
                assert!(parameters.is_empty());
                assert_eq!(body.kind, TokenKind::BracketScope(vec![]));
            }
            other => panic!("not a function: {:?}", other),
        }
    }
}

#[test]
fn a_parameter_that_is_no_identifier_has_the_empty_name() {
    match &one("function f(a, 1, 'b') { }").kind {
        TokenKind::Function(_, parameters, _) => {
            assert_eq!(parameters, &vec!["a".to_string(), String::new(), String::new()]);
        }
        other => panic!("not a function: {:?}", other),
    }
}

#[test]
fn a_function_after_other_nodes_keeps_its_body_to_itself() {
    let tokens = tokenize("let x = 1;\nfunction add(a, b) { a + b }\nadd(1, 2)").unwrap();
    assert_eq!(tokens.len(), 3);
    match &tokens[1].kind {
        TokenKind::Function(_, _, body) => match &body.kind {
            TokenKind::BracketScope(children) => assert_eq!(children.len(), 1),
            other => panic!("not a block: {:?}", other),
        },
        other => panic!("not a function: {:?}", other),
    }
}

#[test]
fn a_malformed_function_is_a_syntax_error() {
    assert_eq!(tokenize("function"), failure("Expected a function name after 'function'"));
    assert_eq!(tokenize("function ("), failure("Expected a function name after 'function'"));
    assert_eq!(tokenize("function f(a"), failure("Expected a function name after 'function'"));
    assert_eq!(tokenize("function f { }"), failure("Malformed function"));
    assert_eq!(tokenize("function 5 { }"), failure("Malformed function"));
    assert_eq!(tokenize("function f()"), failure("Expected '{' to start the function body."));
    assert_eq!(tokenize("function f() 1"), failure("Expected '{' to start the function body."));
    assert_eq!(tokenize("function f() { 1"), failure("Scope was not closed"));
}

#[test]
fn end_of_input_where_a_node_is_expected() {
    assert_eq!(tokenize("- "), failure("The unary operator can be used only on numbers"));
    assert_eq!(tokenize("let "), failure("Set a variable name at the \"let\" statement"));
}

#[test]
fn a_failure_leaves_the_tokenizer_as_it_was() {
    let mut lexer = StrawberryLexer::from_string("1 'abc");
    assert!(lexer.run_stream().is_err());
    match lexer.run_stream() {
        Err(error) => assert!(error.is_syntax_error()),
        Ok(tokens) => panic!("tokenized: {:?}", tokens),
    }
}

#[test]
fn a_second_run_gives_the_same_nodes() {
    let mut lexer = StrawberryLexer::from_string("1 + 2 'a'");
    let first = lexer.run_stream().unwrap();
    let second = lexer.run_stream().unwrap();
    assert_eq!(first.len(), 2);
    assert_eq!(first, second);
}

#[test]
fn a_copy_of_a_node_is_equal_to_it() {
    let source = "function f(a) { let x = -1.5; if(a == x, { 'b' }) }";
    let token = one(source);
    assert_eq!(token.duplicate(), token);
}

#[test]
fn white_space_in_ascii_is_the_space_and_tab_to_carriage_return() {
    for code in 0u8..128 {
        let c = code as char;
        let expected = c == ' ' || ('\t'..='\r').contains(&c);
        let found = match tokenize(&format!("1{}2", c)) {
            Ok(tokens) => {
                tokens.len() == 2
                    && tokens[0].kind == numeral(false, "1")
                    && tokens[1].kind == numeral(false, "2")
            }
            Err(_) => false,
        };
        assert_eq!(found, expected, "{:?}", c);
    }
}

#[test]
fn letters_in_ascii_start_a_symbol() {
    for code in 0u8..128 {
        let c = code as char;
        let expected = c.is_ascii_lowercase() || c.is_ascii_uppercase();
        let found = match tokenize(&c.to_string()) {
            Ok(tokens) => tokens.len() == 1 && tokens[0].kind == identifier(&c.to_string()),
            Err(_) => false,
        };
        assert_eq!(found, expected, "{:?}", c);
    }
}

#[test]
fn characters_beyond_ascii_are_classed_by_unicode() {
    assert_eq!(tokenize("a\u{2028}b").unwrap().len(), 2);
    assert_eq!(tokenize("a\u{3000}b").unwrap().len(), 2);
    assert_eq!(tokenize("a\u{200b}b"), failure("Unexpected character: \"\u{200b}\""));
    assert_eq!(one("ß").kind, identifier("ß"));
    assert_eq!(one("中文").kind, identifier("中文"));
    assert_eq!(tokenize("€"), failure("Unexpected character: \"€\""));
    assert_eq!(tokenize("٣"), failure("Unexpected character: \"٣\""));
}

#[test]
fn tokenizing_in_one_call_gives_the_same_nodes() {
    for source in ["", "1 + 2 * 3", "let x = -5;\nif(x == 1, { f(x) })", "'abc", "{ 1", "1 => 2"] {
        let at_once = match strawberry::lexer::tokenize(source) {
            Ok(tokens) => Ok(tokens),
            Err(error) => {
                assert!(error.is_syntax_error());
                Err(error.message().clone())
            }
        };
        assert_eq!(at_once, tokenize(source), "{}", source);
    }
}
