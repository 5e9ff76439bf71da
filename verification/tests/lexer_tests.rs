use monkey::lexer::{is_digit, is_letter, tokenize, Lexer};
use monkey::token::{lookup_ident, Token, TokenType};

fn lex(input: &str) -> Vec<(TokenType, String)> {
    let mut lexer = Lexer::new(input);
    let mut tokens = vec![];
    loop {
        let token = lexer.next_token();
        let done = token.token_type == TokenType::Eof;
        tokens.push((token.token_type, token.literal));
        if done {
            return tokens;
        }
    }
}

fn pair(token_type: TokenType, literal: &str) -> (TokenType, String) {
    (token_type, literal.to_string())
}

#[test]
fn next_token_test() {
    let string_to_parse = "=+(){},;";
    let expected = vec![
        TokenType::Assign,
        TokenType::Plus,
        TokenType::LParen,
        TokenType::RParen,
        TokenType::LBrace,
        TokenType::RBrace,
        TokenType::Comma,
        TokenType::Semicolon,
    ];

    let mut lexer = Lexer::new(string_to_parse);

    for x in expected.iter() {
        let token = lexer.next_token();
        assert_eq!(&token.token_type, x);
    }
}

#[test]
fn bigger_token_test() {
    let string_to_parse = "let five = 5;
        let ten = 10;
        let add = fn(x, y) {
            x + y;
        };
        
        let result = add(five, ten);
        !-/*5;
        5 < 10 > 5;

        if (5 < 10) {
            return true;
        } else {
            return false;
        }

        10 == 10;
        10 != 9;";

    let expected = vec![
        (TokenType::Let, "let"),
        (TokenType::Ident, "five"),
        (TokenType::Assign, "="),
        (TokenType::Int, "5"),
        (TokenType::Semicolon, ";"),
        (TokenType::Let, "let"),
        (TokenType::Ident, "ten"),
        (TokenType::Assign, "="),
        (TokenType::Int, "10"),
        (TokenType::Semicolon, ";"),
        (TokenType::Let, "let"),
        (TokenType::Ident, "add"),
        (TokenType::Assign, "="),
        (TokenType::Function, "fn"),
        (TokenType::LParen, "("),
        (TokenType::Ident, "x"),
        (TokenType::Comma, ","),
        (TokenType::Ident, "y"),
        (TokenType::RParen, ")"),
        (TokenType::LBrace, "{"),
        (TokenType::Ident, "x"),
        (TokenType::Plus, "+"),
        (TokenType::Ident, "y"),
        (TokenType::Semicolon, ";"),
        (TokenType::RBrace, "}"),
        (TokenType::Semicolon, ";"),
        (TokenType::Let, "let"),
        (TokenType::Ident, "result"),
        (TokenType::Assign, "="),
        (TokenType::Ident, "add"),
        (TokenType::LParen, "("),
        (TokenType::Ident, "five"),
        (TokenType::Comma, ","),
        (TokenType::Ident, "ten"),
        (TokenType::RParen, ")"),
        (TokenType::Semicolon, ";"),
        (TokenType::Bang, "!"),
        (TokenType::Minus, "-"),
        (TokenType::Slash, "/"),
        (TokenType::Asterisk, "*"),
        (TokenType::Int, "5"),
        (TokenType::Semicolon, ";"),
        (TokenType::Int, "5"),
        (TokenType::Lt, "<"),
        (TokenType::Int, "10"),
        (TokenType::Gt, ">"),
        (TokenType::Int, "5"),
        (TokenType::Semicolon, ";"),
        (TokenType::If, "if"),
        (TokenType::LParen, "("),
        (TokenType::Int, "5"),
        (TokenType::Lt, "<"),
        (TokenType::Int, "10"),
        (TokenType::RParen, ")"),
        (TokenType::LBrace, "{"),
        (TokenType::Return, "return"),
        (TokenType::True, "true"),
        (TokenType::Semicolon, ";"),
        (TokenType::RBrace, "}"),
        (TokenType::Else, "else"),
        (TokenType::LBrace, "{"),
        (TokenType::Return, "return"),
        (TokenType::False, "false"),
        (TokenType::Semicolon, ";"),
        (TokenType::RBrace, "}"),
        (TokenType::Int, "10"),
        (TokenType::Equals, "=="),
        (TokenType::Int, "10"),
        (TokenType::Semicolon, ";"),
        (TokenType::Int, "10"),
        (TokenType::NotEquals, "!="),
        (TokenType::Int, "9"),
        (TokenType::Semicolon, ";"),
        (TokenType::Eof, ""),
    ];

    let mut lexer = Lexer::new(string_to_parse);

    for x in expected.iter() {
        let token = lexer.next_token();
        assert_eq!(x, &(token.token_type, token.literal.as_str()))
    }
}

#[test]
fn empty_input_is_end_of_input() {
    assert_eq!(lex(""), vec![pair(TokenType::Eof, "")]);
    assert_eq!(lex(" \t\r\n "), vec![pair(TokenType::Eof, "")]);
}

#[test]
fn end_of_input_is_stable() {
    let mut lexer = Lexer::new("x ");
    assert_eq!(lexer.next_token().token_type, TokenType::Ident);
    for _ in 0..5 {
        let token = lexer.next_token();
        assert_eq!(token.token_type, TokenType::Eof);
        assert_eq!(token.literal, "");
    }
}

#[test]
fn every_text_has_at_most_one_token_per_character() {
    for input in ["", "a", "=+-", "let x = 5;", "== != = !", "  12  ab  "] {
        let tokens = lex(input);
        assert!(tokens.len() <= input.chars().count() + 1);
        assert_eq!(tokens.last().unwrap(), &pair(TokenType::Eof, ""));
        for token in &tokens[..tokens.len() - 1] {
            assert_ne!(token.0, TokenType::Eof);
        }
    }
}

#[test]
fn literals_are_the_source_text() {
    let input = " foo  ==12!bar_BAZ ;";
    let tokens = lex(input);
    let mut rebuilt = String::new();
    for (_, literal) in &tokens {
        assert!(input.contains(literal.as_str()));
        rebuilt.push_str(literal);
    }
    let without_space: String = input.chars().filter(|c| *c != ' ').collect();
    assert_eq!(rebuilt, without_space);
}

#[test]
fn double_operators_are_one_token() {
    assert_eq!(lex("=="), vec![pair(TokenType::Equals, "=="), pair(TokenType::Eof, "")]);
    assert_eq!(lex("!="), vec![pair(TokenType::NotEquals, "!="), pair(TokenType::Eof, "")]);
    assert_eq!(
        lex("a==b"),
        vec![
            pair(TokenType::Ident, "a"),
            pair(TokenType::Equals, "=="),
            pair(TokenType::Ident, "b"),
            pair(TokenType::Eof, ""),
        ]
    );
}

#[test]
fn single_operators_need_no_lookahead_match() {
    assert_eq!(lex("="), vec![pair(TokenType::Assign, "="), pair(TokenType::Eof, "")]);
    assert_eq!(lex("!"), vec![pair(TokenType::Bang, "!"), pair(TokenType::Eof, "")]);
    assert_eq!(
        lex("= ="),
        vec![pair(TokenType::Assign, "="), pair(TokenType::Assign, "="), pair(TokenType::Eof, "")]
    );
    assert_eq!(
        lex("! ="),
        vec![pair(TokenType::Bang, "!"), pair(TokenType::Assign, "="), pair(TokenType::Eof, "")]
    );
    assert_eq!(
        lex("==="),
        vec![pair(TokenType::Equals, "=="), pair(TokenType::Assign, "="), pair(TokenType::Eof, "")]
    );
    assert_eq!(
        lex("!5"),
        vec![pair(TokenType::Bang, "!"), pair(TokenType::Int, "5"), pair(TokenType::Eof, "")]
    );
}

#[test]
fn keywords_match_exactly() {
    assert_eq!(lex("let")[0], pair(TokenType::Let, "let"));
    assert_eq!(lex("lets")[0], pair(TokenType::Ident, "lets"));
    assert_eq!(lex("le")[0], pair(TokenType::Ident, "le"));
    assert_eq!(lex("Let")[0], pair(TokenType::Ident, "Let"));
    assert_eq!(lex("fn")[0], pair(TokenType::Function, "fn"));
    assert_eq!(lex("fnx")[0], pair(TokenType::Ident, "fnx"));
    assert_eq!(lex("return")[0], pair(TokenType::Return, "return"));
    assert_eq!(lex("returns")[0], pair(TokenType::Ident, "returns"));
    assert_eq!(lex("true")[0], pair(TokenType::True, "true"));
    assert_eq!(lex("false")[0], pair(TokenType::False, "false"));
    assert_eq!(lex("if")[0], pair(TokenType::If, "if"));
    assert_eq!(lex("iff")[0], pair(TokenType::Ident, "iff"));
    assert_eq!(lex("else")[0], pair(TokenType::Else, "else"));
    assert_eq!(lex("else_")[0], pair(TokenType::Ident, "else_"));
    assert_eq!(lex("_")[0], pair(TokenType::Ident, "_"));
}

#[test]
fn identifiers_hold_no_digits() {
    assert_eq!(
        lex("ab12cd"),
        vec![
            pair(TokenType::Ident, "ab"),
            pair(TokenType::Int, "12"),
            pair(TokenType::Ident, "cd"),
            pair(TokenType::Eof, ""),
        ]
    );
    assert_eq!(
        lex("let5"),
        vec![pair(TokenType::Let, "let"), pair(TokenType::Int, "5"), pair(TokenType::Eof, "")]
    );
}

#[test]
fn numbers_are_left_unparsed() {
    assert_eq!(
        lex("0012 99999999999999999999999999"),
        vec![
            pair(TokenType::Int, "0012"),
            pair(TokenType::Int, "99999999999999999999999999"),
            pair(TokenType::Eof, ""),
        ]
    );
}

#[test]
fn unknown_characters_are_illegal_tokens() {
    assert_eq!(
        lex("@ # 5"),
        vec![
            pair(TokenType::Illegal, "@"),
            pair(TokenType::Illegal, "#"),
            pair(TokenType::Int, "5"),
            pair(TokenType::Eof, ""),
        ]
    );
}

#[test]
fn characters_of_several_bytes_count_as_one() {
    assert_eq!(
        lex("let ñ = 5; é==ü"),
        vec![
            pair(TokenType::Let, "let"),
            pair(TokenType::Illegal, "ñ"),
            pair(TokenType::Assign, "="),
            pair(TokenType::Int, "5"),
            pair(TokenType::Semicolon, ";"),
            pair(TokenType::Illegal, "é"),
            pair(TokenType::Equals, "=="),
            pair(TokenType::Illegal, "ü"),
            pair(TokenType::Eof, ""),
        ]
    );
    assert_eq!(
        lex("日本 x"),
        vec![
            pair(TokenType::Illegal, "日"),
            pair(TokenType::Illegal, "本"),
            pair(TokenType::Ident, "x"),
            pair(TokenType::Eof, ""),
        ]
    );
}

#[test]
fn the_highest_character_is_no_end_of_input() {
    assert_eq!(
        lex("a\u{10FFFF}b"),
        vec![
            pair(TokenType::Ident, "a"),
            pair(TokenType::Illegal, "\u{10FFFF}"),
            pair(TokenType::Ident, "b"),
            pair(TokenType::Eof, ""),
        ]
    );
}

#[test]
fn letters_and_digits() {
    for c in ['a', 'z', 'A', 'Z', '_', 'm'] {
        assert!(is_letter(c));
        assert!(!is_digit(c));
    }
    for c in ['0', '9', '5'] {
        assert!(is_digit(c));
        assert!(!is_letter(c));
    }
    for c in [';', ' ', '`', '{', '@', '[', '/', ':', 'é'] {
        assert!(!is_letter(c));
        assert!(!is_digit(c));
    }
}

#[test]
fn kinds_have_names() {
    assert_eq!(TokenType::Ident.name(), "Ident");
    assert_eq!(TokenType::Assign.name(), "Assign");
    assert_eq!(TokenType::Eof.name(), "Eof");
    assert_eq!(TokenType::NotEquals.name(), "NotEquals");
    assert_eq!(TokenType::Return.name(), "Return");
}

#[test]
fn tokens_clone_to_equal_tokens() {
    let token = Token { token_type: TokenType::Ident, literal: "foo".to_string() };
    assert_eq!(token.clone(), token);
}

#[test]
fn tokenize_gives_every_token_before_the_end() {
    assert_eq!(tokenize(""), vec![]);
    assert_eq!(tokenize("  \n"), vec![]);
    assert_eq!(
        tokenize("let x = !y;"),
        vec![
            Token { token_type: TokenType::Let, literal: "let".to_string() },
            Token { token_type: TokenType::Ident, literal: "x".to_string() },
            Token { token_type: TokenType::Assign, literal: "=".to_string() },
            Token { token_type: TokenType::Bang, literal: "!".to_string() },
            Token { token_type: TokenType::Ident, literal: "y".to_string() },
            Token { token_type: TokenType::Semicolon, literal: ";".to_string() },
        ]
    );
    for input in ["1 + 2", "a==b!=c", "fn(x) { return x; }", "日本"] {
        let all = lex(input);
        let before_end: Vec<(TokenType, String)> =
            tokenize(input).into_iter().map(|t| (t.token_type, t.literal)).collect();
        assert_eq!(before_end, all[..all.len() - 1].to_vec());
    }
}

#[test]
fn words_are_looked_up_whole_and_by_case() {
    assert_eq!(lookup_ident("fn"), TokenType::Function);
    assert_eq!(lookup_ident("let"), TokenType::Let);
    assert_eq!(lookup_ident("return"), TokenType::Return);
    assert_eq!(lookup_ident("true"), TokenType::True);
    assert_eq!(lookup_ident("false"), TokenType::False);
    assert_eq!(lookup_ident("if"), TokenType::If);
    assert_eq!(lookup_ident("else"), TokenType::Else);
    for word in [
        "", "f", "nf", "fnn", "Fn", "FN", "le", "lets", "Let", "LET", "xlet", "retur", "returns",
        "Return", "tru", "truee", "True", "fals", "falsey", "False", "i", "iff", "If", "els",
        "elsee", "Else", "foobar", "_", "let_", "_let", " let", "let ", "lеt",
    ] {
        assert_eq!(lookup_ident(word), TokenType::Ident);
    }
}
