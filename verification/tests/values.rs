use strawberry::lexer::{StrawberryLexer, Token};
use strawberry::parser::{Environment, StrawberryValue};

fn name(text: &str) -> String {
    text.to_string()
}

fn number(value: f64) -> StrawberryValue {
    StrawberryValue::Number(value.to_bits())
}

fn tokens(source: &str) -> Vec<Token> {
    StrawberryLexer::from_string(source).run_stream().unwrap()
}

#[test]
fn a_new_environment_binds_nothing() {
    let environment = Environment::new();
    assert_eq!(environment.len(), 0);
    assert_eq!(environment.get(&name("x")), None);
}

#[test]
fn a_name_is_bound_to_its_value() {
    let mut environment = Environment::new();
    environment.insert(name("x"), number(1.0));
    environment.insert(name("y"), StrawberryValue::Boolean(true));
    assert_eq!(environment.len(), 2);
    assert_eq!(environment.get(&name("x")), Some(&number(1.0)));
    assert_eq!(environment.get(&name("y")), Some(&StrawberryValue::Boolean(true)));
    assert_eq!(environment.get(&name("z")), None);
    assert_eq!(environment.get(&name("")), None);
}

#[test]
fn binding_a_name_again_replaces_its_value() {
    let mut environment = Environment::new();
    environment.insert(name("x"), number(1.0));
    environment.insert(name("y"), number(5.0));
    environment.insert(name("x"), number(2.0));
    assert_eq!(environment.len(), 2);
    assert_eq!(environment.get(&name("x")), Some(&number(2.0)));
    assert_eq!(environment.get(&name("y")), Some(&number(5.0)));
    environment.insert(name("x"), StrawberryValue::Empty);
    assert_eq!(environment.len(), 2);
    assert_eq!(environment.get(&name("x")), Some(&StrawberryValue::Empty));
}

#[test]
fn a_copy_of_an_environment_is_a_value_of_its_own() {
    let mut environment = Environment::new();
    environment.insert(name("x"), number(1.0));
    let mut copy = environment.duplicate();
    copy.insert(name("x"), number(2.0));
    copy.insert(name("y"), number(3.0));
    assert_eq!(environment.len(), 1);
    assert_eq!(environment.get(&name("x")), Some(&number(1.0)));
    assert_eq!(environment.get(&name("y")), None);
    assert_eq!(copy.len(), 2);
    assert_eq!(copy.get(&name("x")), Some(&number(2.0)));
}

#[test]
fn a_copy_of_a_value_is_equal_to_it() {
    let values = vec![
        StrawberryValue::String(name("text")),
        number(-1.5),
        StrawberryValue::Boolean(false),
        StrawberryValue::NativeFunction(name("Strawberry")),
        StrawberryValue::Function(name("f"), vec![name("a"), name("b")], tokens("a + b 'c'")),
        StrawberryValue::Block(tokens("let x = { 1 };")),
        StrawberryValue::Empty,
    ];
    for value in &values {
        assert_eq!(&value.duplicate(), value);
        assert_eq!(&value.clone(), value);
    }
    assert_ne!(values[0], values[6]);
}

#[test]
fn a_clone_of_an_environment_binds_the_same() {
    let mut environment = Environment::new();
    environment.insert(name("x"), number(1.0));
    environment.insert(name("y"), StrawberryValue::Block(tokens("x")));
    let clone = environment.clone();
    assert_eq!(clone.len(), 2);
    assert_eq!(clone.get(&name("x")), environment.get(&name("x")));
    assert_eq!(clone.get(&name("y")), environment.get(&name("y")));
}

#[test]
fn a_clone_of_a_node_is_equal_to_it() {
    for token in tokens("function f(a, b) { let x = a + b; if(x >= -1., { `y` }) } f(1, 2) = true") {
        assert_eq!(token.clone(), token);
        assert_eq!(token.kind.clone(), token.kind);
        assert_eq!(token.duplicate(), token);
    }
}
