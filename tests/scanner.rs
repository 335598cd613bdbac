use rustlox::scanner::{Scanner, Token, TokenType};

fn tokens(source: &str) -> Vec<Token> {
    let mut scanner = Scanner::init(source.to_string());
    let mut out = Vec::new();
    loop {
        let t = scanner.scan_token();
        let end = t.t_type == TokenType::Eof;
        out.push(t);
        if end {
            return out;
        }
    }
}

fn kinds(source: &str) -> Vec<TokenType> {
    tokens(source).iter().map(|t| t.t_type).collect()
}

#[test]
fn punctuation_and_operators() {
    assert_eq!(
        kinds("(){},.;-+*/ ! != = == < <= > >="),
        vec![
            TokenType::LeftParen,
            TokenType::RightParen,
            TokenType::LeftBrace,
            TokenType::RightBrace,
            TokenType::Comma,
            TokenType::Dot,
            TokenType::SemiColon,
            TokenType::Minus,
            TokenType::Plus,
            TokenType::Star,
            TokenType::Slash,
            TokenType::Bang,
            TokenType::BangEqual,
            TokenType::Equal,
            TokenType::EqualEqual,
            TokenType::Less,
            TokenType::LessEqual,
            TokenType::Greater,
            TokenType::GreaterEqual,
            TokenType::Eof,
        ]
    );
}

#[test]
fn keywords_match_whole_words_only() {
    assert_eq!(
        kinds("and class else false for fun if nil or print return super this true var while"),
        vec![
            TokenType::And,
            TokenType::Class,
            TokenType::Else,
            TokenType::False,
            TokenType::For,
            TokenType::Fun,
            TokenType::If,
            TokenType::Nil,
            TokenType::Or,
            TokenType::Print,
            TokenType::Return,
            TokenType::Super,
            TokenType::This,
            TokenType::True,
            TokenType::Var,
            TokenType::While,
            TokenType::Eof,
        ]
    );
    assert_eq!(
        kinds("andy f fo th t truex nil2 x"),
        vec![TokenType::Identifier; 8].into_iter().chain([TokenType::Eof]).collect::<Vec<_>>()
    );
}

#[test]
fn unicode_letters_make_identifiers() {
    let t = tokens("café");
    assert_eq!(t[0].t_type, TokenType::Identifier);
    assert_eq!(t[0].content, "café");
    assert_eq!(t[0].length, 4);
    assert_eq!(kinds("#"), vec![TokenType::Error, TokenType::Eof]);
}

#[test]
fn numbers_take_at_most_one_point() {
    let t = tokens("12.5 7. .5 1.2.3");
    let texts: Vec<(TokenType, &str)> = t.iter().map(|t| (t.t_type, t.content.as_str())).collect();
    assert_eq!(
        texts,
        vec![
            (TokenType::Number, "12.5"),
            (TokenType::Number, "7"),
            (TokenType::Dot, "."),
            (TokenType::Dot, "."),
            (TokenType::Number, "5"),
            (TokenType::Number, "1.2"),
            (TokenType::Dot, "."),
            (TokenType::Number, "3"),
            (TokenType::Eof, ""),
        ]
    );
}

#[test]
fn strings_keep_their_quotes_in_the_lexeme() {
    let t = tokens("\"hi there\"");
    assert_eq!(t[0].t_type, TokenType::String);
    assert_eq!(t[0].content, "\"hi there\"");
    assert_eq!(t[0].start, 0);
    assert_eq!(t[0].length, 10);
}

#[test]
fn error_tokens_carry_their_message() {
    let t = tokens("\"open");
    assert_eq!(t[0].t_type, TokenType::Error);
    assert_eq!(t[0].content, "Unterminated string.");
    assert_eq!(t[0].length, 20);
    let t = tokens("@");
    assert_eq!(t[0].content, "Unexpected character.");
    assert_eq!(t[0].line, 1);
}

#[test]
fn lines_and_comments() {
    let t = tokens("1\n// note\n  2 // trailing\n\"a\nb\" 3");
    let lines: Vec<(TokenType, i32)> = t.iter().map(|t| (t.t_type, t.line)).collect();
    assert_eq!(
        lines,
        vec![
            (TokenType::Number, 1),
            (TokenType::Number, 3),
            (TokenType::String, 5),
            (TokenType::Number, 5),
            (TokenType::Eof, 5),
        ]
    );
}

#[test]
fn end_of_input_repeats() {
    let mut scanner = Scanner::init("  x ".to_string());
    assert_eq!(scanner.scan_token().t_type, TokenType::Identifier);
    for _ in 0..3 {
        let t = scanner.scan_token();
        assert_eq!(t.t_type, TokenType::Eof);
        assert_eq!(t.content, "");
        assert_eq!(t.start, 4);
    }
}

#[test]
fn a_nul_character_ends_the_input() {
    assert_eq!(kinds("1\u{0}2"), vec![TokenType::Number, TokenType::Eof]);
}
