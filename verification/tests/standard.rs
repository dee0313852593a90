use strawberry::error::{StrawberryError, StrawberryErrorKind};
use strawberry::lexer::{ExpressionKind, StrawberryLexer, Token};
use strawberry::libs::load_standard;
use strawberry::libs::standard::{
    beatle, execute_code_block, fields_forever, if_comparison, lyric, member, strawberry,
};
use strawberry::parser::{Environment, Host, StrawberryParser, StrawberryValue};

const LYRICS: [&str; 9] = [
    "Let me take you down",
    "'Cause I'm going to strawberry fields",
    "Nothing is real",
    "And nothing to get hung about",
    "Strawberry fields forever",
    "Living is easy with eyes closed",
    "Misunderstanding all you see",
    "It's getting hard to be someone, but it all works out",
    "It doesn't matter much to me",
];

const BEATLES: [&str; 4] = ["Paul McCartney", "John Lennon", "George Harrison", "Ringo Starr"];

/// A host that computes with the machine's floating point and knows no
/// native function.
struct Plain;

impl Host for Plain {
    fn number(&mut self, digits: &String) -> u64 {
        digits.parse::<f64>().unwrap().to_bits()
    }

    fn arithmetic(&mut self, operator: ExpressionKind, left: u64, right: u64) -> u64 {
        let (left, right) = (f64::from_bits(left), f64::from_bits(right));
        let result = match operator {
            ExpressionKind::Add => left + right,
            ExpressionKind::Subtract => left - right,
            ExpressionKind::Multiply => left * right,
            ExpressionKind::Divide => left / right,
        };
        result.to_bits()
    }

    fn text(&mut self, number: u64) -> String {
        f64::from_bits(number).to_string()
    }

    fn native(
        &mut self,
        _label: &String,
        _arguments: Vec<StrawberryValue>,
        _context: &mut StrawberryParser,
    ) -> Result<StrawberryValue, StrawberryError> {
        Err(StrawberryError::semantic_error("no native functions here"))
    }
}

fn tokens(source: &str) -> Vec<Token> {
    StrawberryLexer::from_string(source).run_stream().unwrap()
}

fn block(source: &str) -> StrawberryValue {
    StrawberryValue::Block(tokens(source))
}

fn number(value: f64) -> StrawberryValue {
    StrawberryValue::Number(value.to_bits())
}

fn context() -> StrawberryParser {
    let mut variables = Environment::new();
    variables.insert("x".to_string(), number(1.0));
    StrawberryParser::new(tokens("'unused'"), variables)
}

fn message(result: Result<StrawberryValue, StrawberryError>) -> String {
    match result {
        Err(StrawberryError { kind: StrawberryErrorKind::SemanticError(message) }) => message,
        other => panic!("not a semantic error: {:?}", other),
    }
}

#[test]
fn each_line_of_the_song() {
    for (index, line) in LYRICS.iter().enumerate() {
        assert_eq!(lyric(index), *line);
    }
}

#[test]
fn each_member_of_the_band() {
    for (index, name) in BEATLES.iter().enumerate() {
        assert_eq!(member(index), *name);
    }
}

#[test]
fn fields_forever_picks_among_the_lines() {
    let mut seen = Vec::new();
    for _ in 0..400 {
        let line = fields_forever();
        assert!(LYRICS.contains(&line.as_str()), "{}", line);
        if !seen.contains(&line) {
            seen.push(line);
        }
    }
    assert!(seen.len() > 1);
}

#[test]
fn beatle_picks_among_the_members() {
    let mut seen = Vec::new();
    for _ in 0..400 {
        let name = beatle();
        assert!(BEATLES.contains(&name.as_str()), "{}", name);
        if !seen.contains(&name) {
            seen.push(name);
        }
    }
    assert!(seen.len() > 1);
}

#[test]
fn the_standard_names() {
    let mut parser = StrawberryParser::new(Vec::new(), Environment::new());
    parser.variables.insert("x".to_string(), number(1.0));
    parser.variables.insert("if".to_string(), number(2.0));
    load_standard(&mut parser);
    assert_eq!(parser.variables.len(), 5);
    assert_eq!(parser.variables.get(&"x".to_string()), Some(&number(1.0)));
    assert_eq!(
        parser.variables.get(&"strawberry".to_string()),
        Some(&StrawberryValue::NativeFunction("Strawberry".to_string()))
    );
    assert_eq!(
        parser.variables.get(&"if".to_string()),
        Some(&StrawberryValue::NativeFunction("IfStatement".to_string()))
    );
    match parser.variables.get(&"fields_forever".to_string()) {
        Some(StrawberryValue::String(line)) => assert!(LYRICS.contains(&line.as_str())),
        other => panic!("not a string: {:?}", other),
    }
    match parser.variables.get(&"beatle".to_string()) {
        Some(StrawberryValue::String(name)) => assert!(BEATLES.contains(&name.as_str())),
        other => panic!("not a string: {:?}", other),
    }
}

#[test]
fn a_line_for_each_kind_of_value() {
    let mut host = Plain;
    assert_eq!(strawberry(&vec![], &mut host), "");
    assert_eq!(strawberry(&vec![StrawberryValue::String("a b".to_string())], &mut host), "a b");
    assert_eq!(strawberry(&vec![number(20.0)], &mut host), "20");
    assert_eq!(strawberry(&vec![number(-0.5)], &mut host), "-0.5");
    assert_eq!(strawberry(&vec![StrawberryValue::Boolean(true)], &mut host), "true");
    assert_eq!(strawberry(&vec![StrawberryValue::Boolean(false)], &mut host), "false");
    assert_eq!(
        strawberry(&vec![StrawberryValue::NativeFunction("IfStatement".to_string())], &mut host),
        "(Native Function: IfStatement)"
    );
    assert_eq!(
        strawberry(
            &vec![StrawberryValue::Function("f".to_string(), vec![], vec![])],
            &mut host
        ),
        "(Function: f)"
    );
    assert_eq!(strawberry(&vec![block("1")], &mut host), "(Code block)");
    assert_eq!(strawberry(&vec![StrawberryValue::Empty], &mut host), "(Empty)");
    assert_eq!(
        strawberry(
            &vec![
                StrawberryValue::String("a".to_string()),
                number(1.0),
                StrawberryValue::Empty,
                StrawberryValue::String(String::new()),
                StrawberryValue::Boolean(true),
            ],
            &mut host
        ),
        "a 1 (Empty)  true"
    );
}

#[test]
fn a_block_runs_on_a_copy_of_the_bindings() {
    let mut parser = context();
    let result = execute_code_block(vec![block("let x = x + 1; let y = 5; x")], &mut parser, &mut Plain);
    assert_eq!(result, Ok(number(2.0)));
    assert_eq!(parser.variables.len(), 1);
    assert_eq!(parser.variables.get(&"x".to_string()), Some(&number(1.0)));
    assert_eq!(execute_code_block(vec![block("")], &mut parser, &mut Plain), Ok(StrawberryValue::Empty));
}

#[test]
fn what_is_no_block_runs_to_empty() {
    let mut parser = context();
    assert_eq!(execute_code_block(vec![number(1.0)], &mut parser, &mut Plain), Ok(StrawberryValue::Empty));
    assert_eq!(
        execute_code_block(vec![StrawberryValue::Empty, block("1")], &mut parser, &mut Plain),
        Ok(StrawberryValue::Empty)
    );
}

#[test]
fn a_failure_in_a_block_is_the_failure_of_the_run() {
    let mut parser = context();
    let result = execute_code_block(vec![block("1 / 0")], &mut parser, &mut Plain);
    assert_eq!(message(result), "Division by zero");
    let result = execute_code_block(vec![block("y")], &mut parser, &mut Plain);
    assert_eq!(message(result), "Undefined variable: y");
}

#[test]
fn if_picks_its_block_by_the_condition() {
    let mut parser = context();
    let yes = StrawberryValue::Boolean(true);
    let no = StrawberryValue::Boolean(false);
    let result = if_comparison(vec![yes.duplicate(), block("'a'"), block("'b'")], &mut parser, &mut Plain);
    assert_eq!(result, Ok(StrawberryValue::String("a".to_string())));
    let result = if_comparison(vec![no.duplicate(), block("'a'"), block("'b'")], &mut parser, &mut Plain);
    assert_eq!(result, Ok(StrawberryValue::String("b".to_string())));
    let result = if_comparison(vec![no.duplicate(), block("'a'")], &mut parser, &mut Plain);
    assert_eq!(result, Ok(StrawberryValue::Empty));
    let result = if_comparison(vec![yes.duplicate()], &mut parser, &mut Plain);
    assert_eq!(result, Ok(StrawberryValue::Empty));
    let result = if_comparison(vec![no.duplicate()], &mut parser, &mut Plain);
    assert_eq!(result, Ok(StrawberryValue::Empty));
    let result = if_comparison(vec![yes.duplicate(), number(1.0)], &mut parser, &mut Plain);
    assert_eq!(result, Ok(StrawberryValue::Empty));
    let result = if_comparison(vec![yes, block("x + 1")], &mut parser, &mut Plain);
    assert_eq!(result, Ok(number(2.0)));
}

#[test]
fn if_needs_a_boolean() {
    let mut parser = context();
    for condition in [number(1.0), StrawberryValue::Empty, StrawberryValue::String("true".to_string())] {
        let result = if_comparison(vec![condition, block("'a'")], &mut parser, &mut Plain);
        assert_eq!(message(result), "First argument of 'if' must be a boolean");
    }
}

#[test]
fn an_unknown_native_function_is_the_hosts_to_refuse() {
    let mut parser = StrawberryParser::new(tokens("strawberry(1)"), Environment::new());
    load_standard(&mut parser);
    assert_eq!(message(parser.run_token_stream(&mut Plain)), "no native functions here");
}

#[test]
fn an_invalid_numeral_cannot_be_evaluated() {
    let mut nodes = tokens("12");
    match &mut nodes[0].kind {
        strawberry::lexer::TokenKind::Number(numeral) => numeral.digits = "1x".to_string(),
        other => panic!("not a number: {:?}", other),
    }
    let mut parser = StrawberryParser::new(nodes, Environment::new());
    assert_eq!(message(parser.run_token_stream(&mut Plain)), "\"1x\" is not a valid number");
}
