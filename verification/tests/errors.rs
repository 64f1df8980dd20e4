use anx::interp::value::{FloatAnswer, FloatQuery};
use anx::interp::{interpret, Halt};
use anx::lexer::{lex, LexError};
use anx::parser::{parse, ParseError};

#[test]
fn integer_literal_out_of_range_is_an_invalid_number() {
    assert_eq!(
        lex("x = 99999999999999999999;"),
        Err(LexError::InvalidNumber {
            lexeme: "99999999999999999999".to_string(),
            line: 1,
            col: 5
        })
    );
}

#[test]
fn largest_integer_literal_lexes() {
    assert!(lex("9223372036854775807").is_ok());
}

#[test]
fn parse_error_names_what_was_expected_and_found() {
    let err = parse(lex("int 5 = 3;").unwrap()).unwrap_err();
    assert_eq!(
        err,
        ParseError::UnexpectedToken {
            expected: "identifier".to_string(),
            found: "IntLiteral(5)".to_string(),
            line: 1
        }
    );
}

#[test]
fn parse_error_quotes_a_string_as_debug_does() {
    let err = parse(lex(r#"int "a\"b" = 3;"#).unwrap()).unwrap_err();
    assert_eq!(
        err,
        ParseError::UnexpectedToken {
            expected: "identifier".to_string(),
            found: r#"StringLiteral("a\"b")"#.to_string(),
            line: 1
        }
    );
}

#[test]
fn parse_error_quotes_an_identifier() {
    match parse(lex("void main() { return x y; }").unwrap()).unwrap_err() {
        ParseError::UnexpectedToken { found, .. } => assert_eq!(found, r#"Identifier("y")"#),
        other => panic!("unexpected error {:?}", other),
    }
}

fn no_floats(_: FloatQuery) -> FloatAnswer {
    unreachable!("these programs use no floats")
}

#[test]
fn running_a_program_without_main_halts_unchecked() {
    let program = parse(lex("int x = 1;").unwrap()).unwrap();
    let run = interpret(&program, &no_floats, &|_: &str| {});
    assert!(run.output.is_empty());
    assert_eq!(run.result, Err(Halt::Unchecked));
}

#[test]
fn running_an_unchecked_reference_halts_unchecked() {
    let program = parse(lex("void main() { print(1); print(y); }").unwrap()).unwrap();
    let run = interpret(&program, &no_floats, &|_: &str| {});
    assert_eq!(run.output, vec!["1"]);
    assert_eq!(run.result, Err(Halt::Unchecked));
}
