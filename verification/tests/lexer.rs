use anx::lexer::token::TokenKind;
use anx::lexer::{lex, LexError};

fn kinds(source: &str) -> Vec<TokenKind> {
    lex(source)
        .unwrap()
        .into_iter()
        .map(|t| t.kind)
        .collect()
}

#[test]
fn lexes_int_literal() {
    assert_eq!(kinds("42"), vec![TokenKind::IntLiteral(42), TokenKind::Eof]);
}

#[test]
fn lexes_float_literal() {
    let k = kinds("3.14");
    assert_eq!(k.len(), 2);
    match &k[0] {
        TokenKind::FloatLiteral(text) => assert_eq!(text.parse::<f64>().unwrap(), 3.14),
        other => panic!("expected a float literal, got {other:?}"),
    }
    assert_eq!(k[1], TokenKind::Eof);
}

#[test]
fn lexes_bool_literals() {
    assert_eq!(
        kinds("true false"),
        vec![TokenKind::True, TokenKind::False, TokenKind::Eof]
    );
}

#[test]
fn lexes_string_literal() {
    assert_eq!(
        kinds(r#""arxcy""#),
        vec![
            TokenKind::StringLiteral("arxcy".to_string()),
            TokenKind::Eof
        ]
    );
}

#[test]
fn lexes_string_with_escapes() {
    assert_eq!(
        kinds(r#""line\nbreak""#),
        vec![
            TokenKind::StringLiteral("line\nbreak".to_string()),
            TokenKind::Eof
        ]
    );
}

#[test]
fn lexes_identifier() {
    assert_eq!(
        kinds("nums_2"),
        vec![
            TokenKind::Identifier("nums_2".to_string()),
            TokenKind::Eof
        ]
    );
}

#[test]
fn lexes_all_keywords() {
    assert_eq!(
        kinds("int float bool string void if else while for return true false null new"),
        vec![
            TokenKind::Int,
            TokenKind::Float,
            TokenKind::Bool,
            TokenKind::Str,
            TokenKind::Void,
            TokenKind::If,
            TokenKind::Else,
            TokenKind::While,
            TokenKind::For,
            TokenKind::Return,
            TokenKind::True,
            TokenKind::False,
            TokenKind::Null,
            TokenKind::New,
            TokenKind::Eof,
        ]
    );
}

#[test]
fn lexes_operators() {
    assert_eq!(
        kinds("+ - * / % == != < <= > >= && || ! ="),
        vec![
            TokenKind::Plus,
            TokenKind::Minus,
            TokenKind::Star,
            TokenKind::Slash,
            TokenKind::Percent,
            TokenKind::EqEq,
            TokenKind::NotEq,
            TokenKind::Lt,
            TokenKind::LtEq,
            TokenKind::Gt,
            TokenKind::GtEq,
            TokenKind::AndAnd,
            TokenKind::OrOr,
            TokenKind::Bang,
            TokenKind::Eq,
            TokenKind::Eof,
        ]
    );
}

#[test]
fn lexes_bitwise_and_shift_operators() {
    assert_eq!(
        kinds("& | ^ ~ << >>"),
        vec![
            TokenKind::Amp,
            TokenKind::Pipe,
            TokenKind::Caret,
            TokenKind::Tilde,
            TokenKind::Shl,
            TokenKind::Shr,
            TokenKind::Eof,
        ]
    );
}

#[test]
fn lexes_ternary_operator() {
    assert_eq!(
        kinds("? :"),
        vec![TokenKind::Question, TokenKind::Colon, TokenKind::Eof]
    );
}

#[test]
fn lexes_compound_assignment_operators() {
    assert_eq!(
        kinds("+= -= *= /= %= &= |= ^= <<= >>="),
        vec![
            TokenKind::PlusEq,
            TokenKind::MinusEq,
            TokenKind::StarEq,
            TokenKind::SlashEq,
            TokenKind::PercentEq,
            TokenKind::AmpEq,
            TokenKind::PipeEq,
            TokenKind::CaretEq,
            TokenKind::ShlEq,
            TokenKind::ShrEq,
            TokenKind::Eof,
        ]
    );
}

#[test]
fn lexes_unsigned_shift_and_increment_decrement() {
    assert_eq!(
        kinds(">>> >>>= ++ --"),
        vec![
            TokenKind::UShr,
            TokenKind::UShrEq,
            TokenKind::PlusPlus,
            TokenKind::MinusMinus,
            TokenKind::Eof,
        ]
    );
}

#[test]
fn distinguishes_ushr_from_shr_and_shr_eq() {
    assert_eq!(kinds("a >> b"), vec![
        TokenKind::Identifier("a".to_string()),
        TokenKind::Shr,
        TokenKind::Identifier("b".to_string()),
        TokenKind::Eof,
    ]);
    assert_eq!(kinds("a >>= b"), vec![
        TokenKind::Identifier("a".to_string()),
        TokenKind::ShrEq,
        TokenKind::Identifier("b".to_string()),
        TokenKind::Eof,
    ]);
    assert_eq!(kinds("a >>> b"), vec![
        TokenKind::Identifier("a".to_string()),
        TokenKind::UShr,
        TokenKind::Identifier("b".to_string()),
        TokenKind::Eof,
    ]);
    assert_eq!(kinds("a >>>= b"), vec![
        TokenKind::Identifier("a".to_string()),
        TokenKind::UShrEq,
        TokenKind::Identifier("b".to_string()),
        TokenKind::Eof,
    ]);
}

#[test]
fn distinguishes_increment_from_plus_and_plus_eq() {
    assert_eq!(kinds("a + b"), vec![
        TokenKind::Identifier("a".to_string()),
        TokenKind::Plus,
        TokenKind::Identifier("b".to_string()),
        TokenKind::Eof,
    ]);
    assert_eq!(kinds("a += b"), vec![
        TokenKind::Identifier("a".to_string()),
        TokenKind::PlusEq,
        TokenKind::Identifier("b".to_string()),
        TokenKind::Eof,
    ]);
    assert_eq!(kinds("a++"), vec![
        TokenKind::Identifier("a".to_string()),
        TokenKind::PlusPlus,
        TokenKind::Eof,
    ]);
}

#[test]
fn distinguishes_shift_from_comparison_and_shift_assign() {
    assert_eq!(
        kinds("a < b"),
        vec![
            TokenKind::Identifier("a".to_string()),
            TokenKind::Lt,
            TokenKind::Identifier("b".to_string()),
            TokenKind::Eof
        ]
    );
    assert_eq!(
        kinds("a << b"),
        vec![
            TokenKind::Identifier("a".to_string()),
            TokenKind::Shl,
            TokenKind::Identifier("b".to_string()),
            TokenKind::Eof
        ]
    );
    assert_eq!(
        kinds("a <<= b"),
        vec![
            TokenKind::Identifier("a".to_string()),
            TokenKind::ShlEq,
            TokenKind::Identifier("b".to_string()),
            TokenKind::Eof
        ]
    );
    assert_eq!(
        kinds("a <= b"),
        vec![
            TokenKind::Identifier("a".to_string()),
            TokenKind::LtEq,
            TokenKind::Identifier("b".to_string()),
            TokenKind::Eof
        ]
    );
}

#[test]
fn lexes_punctuation() {
    assert_eq!(
        kinds("( ) { } [ ] , ; ."),
        vec![
            TokenKind::LParen,
            TokenKind::RParen,
            TokenKind::LBrace,
            TokenKind::RBrace,
            TokenKind::LBracket,
            TokenKind::RBracket,
            TokenKind::Comma,
            TokenKind::Semicolon,
            TokenKind::Dot,
            TokenKind::Eof,
        ]
    );
}

#[test]
fn skips_line_comments() {
    assert_eq!(
        kinds("1 // this is a comment\n2"),
        vec![
            TokenKind::IntLiteral(1),
            TokenKind::IntLiteral(2),
            TokenKind::Eof
        ]
    );
}

#[test]
fn skips_block_comments() {
    assert_eq!(
        kinds("1 /* block\ncomment */ 2"),
        vec![
            TokenKind::IntLiteral(1),
            TokenKind::IntLiteral(2),
            TokenKind::Eof
        ]
    );
}

#[test]
fn division_is_not_mistaken_for_a_comment() {
    assert_eq!(
        kinds("10 / 2"),
        vec![
            TokenKind::IntLiteral(10),
            TokenKind::Slash,
            TokenKind::IntLiteral(2),
            TokenKind::Eof
        ]
    );
}

#[test]
fn errors_on_unterminated_string() {
    assert_eq!(
        lex("\"unterminated"),
        Err(LexError::UnterminatedString { line: 1 })
    );
}

#[test]
fn errors_on_unterminated_block_comment() {
    assert_eq!(
        lex("/* never closed"),
        Err(LexError::UnterminatedBlockComment { line: 1 })
    );
}

#[test]
fn errors_on_unexpected_character() {
    assert_eq!(
        lex("@"),
        Err(LexError::UnexpectedChar {
            ch: '@',
            line: 1,
            col: 1
        })
    );
}

#[test]
fn tracks_line_and_column() {
    let tokens = lex("int x\n= 5;").unwrap();
    assert_eq!(tokens[0].line, 1);
    assert_eq!(tokens[0].col, 1);
    assert_eq!(tokens[1].line, 1);
    assert_eq!(tokens[1].col, 5);
    // '=' is the first token on line 2
    assert_eq!(tokens[2].line, 2);
    assert_eq!(tokens[2].col, 1);
}

#[test]
fn lexes_binary_search_worked_example() {
    let source = r#"
        int binarySearch(int[] arr, int target) {
            int lo = 0;
            int hi = arr.length - 1;
            while (lo <= hi) {
                int mid = lo + (hi - lo) / 2;
                if (arr[mid] == target) return mid;
                else if (arr[mid] < target) lo = mid + 1;
                else hi = mid - 1;
            }
            return -1;
        }
    "#;
    let tokens = lex(source).expect("worked example should lex cleanly");
    assert_eq!(tokens.last().unwrap().kind, TokenKind::Eof);
    assert!(tokens.iter().any(|t| t.kind == TokenKind::While));
    assert!(tokens.iter().any(|t| t.kind == TokenKind::Return));
    assert!(
        tokens
            .iter()
            .any(|t| t.kind == TokenKind::Identifier("binarySearch".to_string()))
    );
}

#[test]
fn lexes_control_flow_snippet() {
    let source = r#"
        if (x > 0) {
            print("positive");
        } else if (x == 0) {
            print("zero");
        } else {
            print("negative");
        }

        for (int i = 0; i < nums.length; i = i + 1) {
            print(nums[i]);
        }

        while (x > 0) {
            x = x - 1;
        }
    "#;
    let tokens = lex(source).expect("control flow snippet should lex cleanly");
    assert_eq!(tokens.last().unwrap().kind, TokenKind::Eof);
    assert!(tokens.iter().any(|t| t.kind == TokenKind::For));
    assert!(tokens.iter().any(|t| t.kind == TokenKind::Else));
    assert!(
        tokens
            .iter()
            .any(|t| t.kind == TokenKind::StringLiteral("negative".to_string()))
    );
}

#[test]
fn tokens_come_in_source_order() {
    let tokens = lex("int x = 1;\n  x = x +\n\n 2; // done\n").unwrap();
    for pair in tokens.windows(2) {
        assert!((pair[0].line, pair[0].col) < (pair[1].line, pair[1].col));
    }
    assert_eq!((tokens[5].line, tokens[5].col), (2, 3));
}

#[test]
fn unicode_white_space_separates_tokens() {
    assert_eq!(
        kinds("a\u{a0}b\u{2028}c\u{3000}d"),
        vec![
            TokenKind::Identifier("a".to_string()),
            TokenKind::Identifier("b".to_string()),
            TokenKind::Identifier("c".to_string()),
            TokenKind::Identifier("d".to_string()),
            TokenKind::Eof,
        ]
    );
    assert_eq!(
        lex("a\u{200b}b"),
        Err(LexError::UnexpectedChar { ch: '\u{200b}', line: 1, col: 2 })
    );
}

#[test]
fn unclosed_block_comment_after_a_closed_one_is_reported() {
    assert_eq!(
        lex("x /* a */ y\n/* b"),
        Err(LexError::UnterminatedBlockComment { line: 2 })
    );
    assert!(lex("x /* a */ y // c /*\n").is_ok());
}
