use rlox::lexer::{lex, LexError, LexErrorKind};
use rlox::token::{Token, TokenKind};

fn kinds(tokens: &Vec<Token>) -> Vec<TokenKind> {
    tokens.iter().map(|t| t.kind).collect()
}

#[test]
fn empty_source_gives_only_eof() {
    let (tokens, errors) = lex("");
    assert_eq!(tokens.len(), 1);
    assert_eq!(tokens[0].kind, TokenKind::Eof);
    assert_eq!(tokens[0].lexeme, "");
    assert_eq!(tokens[0].literal, None);
    assert_eq!(tokens[0].line, 1);
    assert!(errors.is_empty());
}

#[test]
fn malformed_number_gives_one_error_and_scanning_goes_on() {
    let (tokens, errors) = lex("123abc + 4;");
    assert_eq!(errors, vec![LexError { kind: LexErrorKind::MalformedNumber, line: 1 }]);
    assert_eq!(
        kinds(&tokens),
        vec![TokenKind::Plus, TokenKind::Number, TokenKind::Semicolon, TokenKind::Eof]
    );
    assert_eq!(tokens[1].lexeme, "4");
    assert_eq!(tokens[1].line, 1);
}

#[test]
fn longest_match_wins() {
    let (tokens, errors) = lex("== = != ! <= < >= >");
    assert!(errors.is_empty());
    assert_eq!(
        kinds(&tokens),
        vec![
            TokenKind::EqualEqual,
            TokenKind::Equal,
            TokenKind::BangEqual,
            TokenKind::Bang,
            TokenKind::LessEqual,
            TokenKind::Less,
            TokenKind::GreaterEqual,
            TokenKind::Greater,
            TokenKind::Eof
        ]
    );
}

#[test]
fn every_kind_of_token_is_recognised() {
    let (tokens, errors) = lex(
        "( ) { } , . - + ; / * ! != = == > >= < <= name \"text\" 12.5 and class else false fun for \
         if nil or print return super this true var while",
    );
    assert!(errors.is_empty());
    assert_eq!(
        kinds(&tokens),
        vec![
            TokenKind::LeftParen,
            TokenKind::RightParen,
            TokenKind::LeftBrace,
            TokenKind::RightBrace,
            TokenKind::Comma,
            TokenKind::Dot,
            TokenKind::Minus,
            TokenKind::Plus,
            TokenKind::Semicolon,
            TokenKind::Slash,
            TokenKind::Star,
            TokenKind::Bang,
            TokenKind::BangEqual,
            TokenKind::Equal,
            TokenKind::EqualEqual,
            TokenKind::Greater,
            TokenKind::GreaterEqual,
            TokenKind::Less,
            TokenKind::LessEqual,
            TokenKind::Identifier,
            TokenKind::Str,
            TokenKind::Number,
            TokenKind::And,
            TokenKind::Class,
            TokenKind::Else,
            TokenKind::False,
            TokenKind::Fun,
            TokenKind::For,
            TokenKind::If,
            TokenKind::Nil,
            TokenKind::Or,
            TokenKind::Print,
            TokenKind::Return,
            TokenKind::Super,
            TokenKind::This,
            TokenKind::True,
            TokenKind::Var,
            TokenKind::While,
            TokenKind::Eof
        ]
    );
}

#[test]
fn literals_carry_their_text() {
    let (tokens, errors) = lex("\"a b\" 12.50 x");
    assert!(errors.is_empty());
    assert_eq!(tokens[0].lexeme, "\"a b\"");
    assert_eq!(tokens[0].literal.as_deref(), Some("a b"));
    assert_eq!(tokens[1].lexeme, "12.50");
    assert_eq!(tokens[1].literal.as_deref(), Some("12.50"));
    assert_eq!(tokens[2].lexeme, "x");
    assert_eq!(tokens[2].literal, None);
}

#[test]
fn comments_and_white_space_are_skipped_and_lines_are_counted() {
    let (tokens, errors) = lex("a // one\n/* two\nthree */ b\n\"s\nt\" c");
    assert!(errors.is_empty());
    assert_eq!(
        kinds(&tokens),
        vec![
            TokenKind::Identifier,
            TokenKind::Identifier,
            TokenKind::Str,
            TokenKind::Identifier,
            TokenKind::Eof
        ]
    );
    assert_eq!(tokens.iter().map(|t| t.line).collect::<Vec<usize>>(), vec![1, 3, 4, 5, 5]);
}

#[test]
fn an_unclosed_comment_runs_to_the_end() {
    let (tokens, errors) = lex("a /* b c");
    assert!(errors.is_empty());
    assert_eq!(kinds(&tokens), vec![TokenKind::Identifier, TokenKind::Eof]);
}

#[test]
fn an_unterminated_string_is_one_error() {
    let (tokens, errors) = lex("a\n\"bc\nd");
    assert_eq!(errors, vec![LexError { kind: LexErrorKind::UnterminatedString, line: 2 }]);
    assert_eq!(kinds(&tokens), vec![TokenKind::Identifier, TokenKind::Eof]);
    assert_eq!(tokens[1].line, 3);
}

#[test]
fn an_unknown_character_is_one_error_each() {
    let (tokens, errors) = lex("a @ b # c");
    assert_eq!(
        errors,
        vec![
            LexError { kind: LexErrorKind::UnexpectedCharacter, line: 1 },
            LexError { kind: LexErrorKind::UnexpectedCharacter, line: 1 }
        ]
    );
    assert_eq!(
        kinds(&tokens),
        vec![TokenKind::Identifier, TokenKind::Identifier, TokenKind::Identifier, TokenKind::Eof]
    );
}

#[test]
fn a_number_ends_before_a_dot_without_digits() {
    let (tokens, errors) = lex("1.x 2. 3.4.5");
    assert!(errors.is_empty());
    assert_eq!(
        kinds(&tokens),
        vec![
            TokenKind::Number,
            TokenKind::Dot,
            TokenKind::Identifier,
            TokenKind::Number,
            TokenKind::Dot,
            TokenKind::Number,
            TokenKind::Dot,
            TokenKind::Number,
            TokenKind::Eof
        ]
    );
}

#[test]
fn characters_outside_ascii_are_handled() {
    let (tokens, errors) = lex("\"héllo ✓\" é x");
    assert_eq!(errors, vec![LexError { kind: LexErrorKind::UnexpectedCharacter, line: 1 }]);
    assert_eq!(tokens[0].literal.as_deref(), Some("héllo ✓"));
    assert_eq!(kinds(&tokens), vec![TokenKind::Str, TokenKind::Identifier, TokenKind::Eof]);
}
