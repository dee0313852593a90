use strawberry::error::{StrawberryError, StrawberryErrorKind};
use strawberry::text::{
    characters, decimal_text, digit, enclose, is_alphabetic, is_alphanumeric, is_whitespace,
    operator_char, reads, substring, symbol_char,
};

#[test]
fn the_characters_of_a_text() {
    assert_eq!(characters(""), Vec::<char>::new());
    assert_eq!(characters("a é٣\n"), vec!['a', ' ', 'é', '٣', '\n']);
}

#[test]
fn a_part_of_a_text() {
    let source = characters("héllo wörld");
    assert_eq!(substring(&source, 0, 11), "héllo wörld");
    assert_eq!(substring(&source, 1, 5), "éllo");
    assert_eq!(substring(&source, 6, 8), "wö");
    assert_eq!(substring(&source, 3, 3), "");
    assert_eq!(substring(&source, 11, 11), "");
}

#[test]
fn a_text_reads_a_word() {
    assert!(reads(&"let".to_string(), "let"));
    assert!(!reads(&"let".to_string(), "le"));
    assert!(!reads(&"le".to_string(), "let"));
    assert!(!reads(&"Let".to_string(), "let"));
    assert!(reads(&String::new(), ""));
}

#[test]
fn a_text_between_two_others() {
    assert_eq!(enclose("(", &"a".to_string(), ")"), "(a)");
    assert_eq!(enclose("", &String::new(), ""), "");
    assert_eq!(enclose("The operator \"", &"=>".to_string(), "\" does not exists."),
        "The operator \"=>\" does not exists.");
}

#[test]
fn numbers_in_decimal() {
    assert_eq!(decimal_text(0), "0");
    assert_eq!(decimal_text(7), "7");
    assert_eq!(decimal_text(10), "10");
    assert_eq!(decimal_text(12), "12");
    assert_eq!(decimal_text(905), "905");
    assert_eq!(decimal_text(1234567890), "1234567890");
    assert_eq!(decimal_text(usize::MAX), usize::MAX.to_string());
}

#[test]
fn the_classes_of_characters() {
    for c in "0123456789".chars() {
        assert!(digit(c));
        assert!(symbol_char(c));
        assert!(!operator_char(c));
    }
    for c in "=!<>+-*/".chars() {
        assert!(operator_char(c));
        assert!(!digit(c));
        assert!(!symbol_char(c));
    }
    for c in "azAZ_éß中".chars() {
        assert!(symbol_char(c));
        assert!(!digit(c));
    }
    for c in " \n'`{}();,.%&|^~#٣".chars() {
        assert!(!operator_char(c));
        assert!(!digit(c));
    }
    assert!(symbol_char('٣'));
    assert!(!symbol_char(' '));
    assert!(!symbol_char('-'));
    assert!(!symbol_char('.'));
}

#[test]
fn the_two_kinds_of_error() {
    let syntax = StrawberryError::syntax_error("bad text");
    assert_eq!(syntax.kind, StrawberryErrorKind::SyntaxError("bad text".to_string()));
    assert!(syntax.is_syntax_error());
    assert_eq!(syntax.message(), "bad text");
    let semantic = StrawberryError::semantic_error("bad program");
    assert_eq!(semantic.kind, StrawberryErrorKind::SemanticError("bad program".to_string()));
    assert!(!semantic.is_syntax_error());
    assert_eq!(semantic.message(), "bad program");
    assert_ne!(syntax, StrawberryError::semantic_error("bad text"));
}

#[test]
fn symbol_characters_in_ascii_are_letters_digits_and_the_underscore() {
    for code in 0u8..128 {
        let c = code as char;
        let expected = c.is_ascii_lowercase() || c.is_ascii_uppercase() || c.is_ascii_digit() || c == '_';
        assert_eq!(symbol_char(c), expected, "{:?}", c);
    }
}

#[test]
fn the_classes_agree_with_the_standard_library_on_every_character() {
    for code in 0u32..=0x10ffff {
        if let Some(c) = char::from_u32(code) {
            assert_eq!(is_whitespace(c), c.is_whitespace(), "{:?}", c);
            assert_eq!(is_alphabetic(c), c.is_alphabetic(), "{:?}", c);
            assert_eq!(is_alphanumeric(c), c.is_alphanumeric(), "{:?}", c);
            assert_eq!(digit(c), c.is_digit(10), "{:?}", c);
        }
    }
}

#[test]
fn the_classes_within_ascii() {
    for code in 0u8..128 {
        let c = code as char;
        assert_eq!(is_whitespace(c), c == ' ' || (9..=13).contains(&code), "{:?}", c);
        assert_eq!(is_alphabetic(c), c.is_ascii_lowercase() || c.is_ascii_uppercase(), "{:?}", c);
        assert_eq!(
            is_alphanumeric(c),
            c.is_ascii_lowercase() || c.is_ascii_uppercase() || c.is_ascii_digit(),
            "{:?}",
            c
        );
    }
    assert!(is_whitespace('\u{a0}'));
    assert!(is_whitespace('\u{3000}'));
    assert!(!is_whitespace('\u{200b}'));
    assert!(is_alphabetic('é'));
    assert!(!is_alphabetic('٣'));
    assert!(is_alphanumeric('٣'));
    assert!(!is_alphanumeric('€'));
}
