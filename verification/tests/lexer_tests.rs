use drewno_mars::scanner::lexer::Lexer;
use drewno_mars::scanner::tokens::{LexingError, TokenType};

fn check_valid(mut lex: Lexer, expected_vec: Vec<TokenType>) {
    let mut i = 0;
    loop {
        let result = match lex.next() {
            Some(x) => x,
            None => break,
        };

        let token = match result {
            Ok((_, x, _)) => x,
            Err(e) => panic!("{:?} returned an error!", e),
        };
        let expected = &expected_vec[i];

        assert_eq!(
            token, *expected,
            "\n\tparsed as a {}, not a {}!\n",
            token.to_text(),
            expected.to_text()
        );
        i += 1;
    }
    assert_eq!(i, expected_vec.len());
}

fn check_invalid(mut lex: Lexer, expected_vec: Vec<LexingError>) {
    let mut i = 0;
    loop {
        let result = match lex.next() {
            Some(x) => x,
            None => break,
        };

        let err = match result {
            Ok((_, t, _)) => panic!("{} did not get parsed as an error!", t.to_text()),
            Err(e) => e,
        };
        let expected = &expected_vec[i];

        assert_eq!(
            err, *expected,
            "\n\traised the {} error! This is not the correct error: {}!\n",
            err.message(),
            expected.message()
        );
        i += 1;
    }
    assert_eq!(i, expected_vec.len());
}

#[test]
fn lex_valid_tokens() {
    let lex = Lexer::new(
        r#"
        and       24Kmagic   bool     else    false 
        too hot   if         int      give    take 
        or        perfect    return   class   true 
        void      while      =        :       , 
        +         -          ==       >       >= 
        {         <          <=       (       ! 
        !=        --         ++       }       ) 
        ;         /          * 
        today I don't feel like doing any work"#,
    );

    let correct_results = vec![
        TokenType::AND,
        TokenType::MAGIC,
        TokenType::BOOL,
        TokenType::ELSE,
        TokenType::FALSE,
        TokenType::FALSE,
        TokenType::IF,
        TokenType::INT,
        TokenType::GIVE,
        TokenType::TAKE,
        TokenType::OR,
        TokenType::PERFECT,
        TokenType::RETURN,
        TokenType::CLASS,
        TokenType::TRUE,
        TokenType::VOID,
        TokenType::WHILE,
        TokenType::ASSIGN,
        TokenType::COLON,
        TokenType::COMMA,
        TokenType::CROSS,
        TokenType::DASH,
        TokenType::EQUALS,
        TokenType::GREATER,
        TokenType::GREATEREQ,
        TokenType::LCURLY,
        TokenType::LESS,
        TokenType::LESSEQ,
        TokenType::LPAREN,
        TokenType::NOT,
        TokenType::NOTEQUALS,
        TokenType::POSTDEC,
        TokenType::POSTINC,
        TokenType::RCURLY,
        TokenType::RPAREN,
        TokenType::SEMICOL,
        TokenType::SLASH,
        TokenType::STAR,
        TokenType::EXIT,
    ];

    check_valid(lex, correct_results);
}

#[test]
fn lex_lits() {
    let valid_lex = Lexer::new(
        r#"
        0 500 2147483647 
        _nice __ _ a a123 
        "meow!"
        " this is a valid escape: \n"
        "#,
    );

    let invalid_lex = Lexer::new(
        r#"
        2147483648
        @ $
        " this is an invalid escape: \g "
        " what .... 
        " what .... \g
        "#,
    );

    let valid_results = vec![
        TokenType::INTLITERAL(0),
        TokenType::INTLITERAL(500),
        TokenType::INTLITERAL(2147483647),
        TokenType::ID("_nice".to_string()),
        TokenType::ID("__".to_string()),
        TokenType::ID("_".to_string()),
        TokenType::ID("a".to_string()),
        TokenType::ID("a123".to_string()),
        TokenType::STRINGLITERAL(r#""meow!""#.to_string()),
        TokenType::STRINGLITERAL(r#"" this is a valid escape: \n""#.to_string()),
    ];

    let invalid_results = vec![
        LexingError::IntliteralOverflow,
        LexingError::Illegal("@".to_string()),
        LexingError::Illegal("$".to_string()),
        LexingError::StringliteralBadEscape,
        LexingError::StringliteralUnterminated,
        LexingError::StringliteralUnterminatedBadEscape,
    ];

    check_valid(valid_lex, valid_results);
    check_invalid(invalid_lex, invalid_results);
}

#[test]
fn spans_are_byte_offsets() {
    let mut lex = Lexer::new("ab  \u{e9} cd // note\n  12");
    assert_eq!(lex.next(), Some(Ok((0, TokenType::ID("ab".to_string()), 2))));
    assert_eq!(
        lex.next(),
        Some(Err(LexingError::Illegal("\u{e9}".to_string())))
    );
    assert_eq!(lex.next(), Some(Ok((7, TokenType::ID("cd".to_string()), 9))));
    assert_eq!(lex.next(), Some(Ok((20, TokenType::INTLITERAL(12), 22))));
    assert_eq!(lex.next(), None);
    assert_eq!(lex.next(), None);
}

#[test]
fn longest_lexeme_wins() {
    let lex = Lexer::new("integer falsey too hotter 24Kmagician a---b =====");
    let expected = vec![
        TokenType::ID("integer".to_string()),
        TokenType::ID("falsey".to_string()),
        TokenType::FALSE,
        TokenType::ID("ter".to_string()),
        TokenType::MAGIC,
        TokenType::ID("ian".to_string()),
        TokenType::ID("a".to_string()),
        TokenType::POSTDEC,
        TokenType::DASH,
        TokenType::ID("b".to_string()),
        TokenType::EQUALS,
        TokenType::EQUALS,
        TokenType::ASSIGN,
    ];
    check_valid(lex, expected);
}

#[test]
fn tokens_show_their_payload() {
    assert_eq!(TokenType::ID("abc".to_string()).to_text(), "ID:abc");
    assert_eq!(TokenType::INTLITERAL(-42).to_text(), "INTLITERAL:-42");
    assert_eq!(TokenType::INTLITERAL(2147483647).to_text(), "INTLITERAL:2147483647");
    assert_eq!(
        TokenType::STRINGLITERAL("\"x\"".to_string()).to_text(),
        "STRINGLITERAL:\"x\""
    );
    assert_eq!(TokenType::SEMICOL.to_text(), "SEMICOL");
    assert_eq!(
        LexingError::Illegal("@".to_string()).message(),
        "Illegal character: @"
    );
}

#[test]
fn a_position_shows_its_start_and_then_its_end() {
    let p = drewno_mars::scanner::position::Position::new(3, 7, 4, 1);
    assert_eq!(p.start_to_string(), "[3, 7]");
    assert_eq!(p.span_to_string(), "[3, 7] - [4, 1]");
    let q = drewno_mars::scanner::position::Position::new(-1, 0, 12, 345);
    assert_eq!(q.span_to_string(), "[-1, 0] - [12, 345]");
}
