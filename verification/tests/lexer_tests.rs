use krait_translator::Lexer;
use krait_translator::Token;
use krait_translator::TokenType;

fn kinds(source: &str) -> Vec<TokenType> {
    let mut lexer = Lexer::new(source);
    lexer.tokenize().into_iter().map(|t| t.token_type).collect()
}

fn tokens(source: &str) -> Vec<Token> {
    let mut lexer = Lexer::new(source);
    lexer.tokenize()
}

fn word(s: &str) -> TokenType {
    TokenType::Identifier(s.to_string())
}

#[test]
fn empty_source_is_only_eof() {
    let all = tokens("");
    assert_eq!(all.len(), 1);
    assert_eq!(all[0].token_type, TokenType::Eof);
    assert_eq!(all[0].line, 1);
    assert_eq!(all[0].column, 1);
}

#[test]
fn every_keyword_is_recognised() {
    let source = "func end return if else while for try catch raise route json auto error_code \
                  public private import from int float double txt bool get post put delete and or not";
    assert_eq!(
        kinds(source),
        vec![
            TokenType::Func,
            TokenType::End,
            TokenType::Return,
            TokenType::If,
            TokenType::Else,
            TokenType::While,
            TokenType::For,
            TokenType::Try,
            TokenType::Catch,
            TokenType::Raise,
            TokenType::Route,
            TokenType::Json,
            TokenType::Auto,
            TokenType::ErrorCode,
            TokenType::Public,
            TokenType::Private,
            TokenType::Import,
            TokenType::From,
            TokenType::Int,
            TokenType::Float,
            TokenType::Double,
            TokenType::Txt,
            TokenType::Bool,
            TokenType::Get,
            TokenType::Post,
            TokenType::Put,
            TokenType::Delete,
            TokenType::And,
            TokenType::Or,
            TokenType::Not,
            TokenType::Eof,
        ]
    );
}

#[test]
fn a_word_that_is_no_keyword_is_an_identifier() {
    assert_eq!(
        kinds("funcs _x a1_b Return"),
        vec![word("funcs"), word("_x"), word("a1_b"), word("Return"), TokenType::Eof]
    );
}

#[test]
fn punctuation_and_single_operators() {
    assert_eq!(
        kinds("( ) { } [ ] , . : + - * / % = ! < >"),
        vec![
            TokenType::LeftParen,
            TokenType::RightParen,
            TokenType::LeftBrace,
            TokenType::RightBrace,
            TokenType::LeftBracket,
            TokenType::RightBracket,
            TokenType::Comma,
            TokenType::Dot,
            TokenType::Colon,
            TokenType::Plus,
            TokenType::Minus,
            TokenType::Star,
            TokenType::Slash,
            TokenType::Percent,
            TokenType::Equal,
            TokenType::Not,
            TokenType::Less,
            TokenType::Greater,
            TokenType::Eof,
        ]
    );
}

#[test]
fn two_character_operators_win() {
    assert_eq!(
        kinds("-> == != <= >="),
        vec![
            TokenType::Arrow,
            TokenType::EqualEqual,
            TokenType::NotEqual,
            TokenType::LessEqual,
            TokenType::GreaterEqual,
            TokenType::Eof,
        ]
    );
    assert_eq!(
        kinds("a->b"),
        vec![word("a"), TokenType::Arrow, word("b"), TokenType::Eof]
    );
    assert_eq!(
        kinds("==="),
        vec![TokenType::EqualEqual, TokenType::Equal, TokenType::Eof]
    );
    assert_eq!(
        kinds("- >"),
        vec![TokenType::Minus, TokenType::Greater, TokenType::Eof]
    );
}

#[test]
fn numbers_are_kept_as_written() {
    assert_eq!(
        kinds("42 3.14 1.2.3 7."),
        vec![
            TokenType::Number("42".to_string()),
            TokenType::Number("3.14".to_string()),
            TokenType::Number("1.2.3".to_string()),
            TokenType::Number("7.".to_string()),
            TokenType::Eof,
        ]
    );
}

#[test]
fn a_leading_dot_is_a_token_of_its_own() {
    assert_eq!(
        kinds(".5"),
        vec![TokenType::Dot, TokenType::Number("5".to_string()), TokenType::Eof]
    );
}

#[test]
fn a_number_directly_before_a_word() {
    assert_eq!(
        kinds("12ab"),
        vec![TokenType::Number("12".to_string()), word("ab"), TokenType::Eof]
    );
}

#[test]
fn strings_with_either_quote() {
    assert_eq!(
        kinds("\"hello\" 'world'"),
        vec![
            TokenType::String("hello".to_string()),
            TokenType::String("world".to_string()),
            TokenType::Eof,
        ]
    );
    assert_eq!(
        kinds("\"it's\" 'say \"hi\"'"),
        vec![
            TokenType::String("it's".to_string()),
            TokenType::String("say \"hi\"".to_string()),
            TokenType::Eof,
        ]
    );
}

#[test]
fn escapes_in_strings() {
    assert_eq!(
        kinds(r#""a\nb\tc\rd\\e\"f\'g\qh""#),
        vec![TokenType::String("a\nb\tc\rd\\e\"f'gqh".to_string()), TokenType::Eof]
    );
}

#[test]
fn an_unterminated_string_runs_to_the_end() {
    assert_eq!(
        kinds("\"abc"),
        vec![TokenType::String("abc".to_string()), TokenType::Eof]
    );
    assert_eq!(
        kinds("\"abc\\"),
        vec![TokenType::String("abc".to_string()), TokenType::Eof]
    );
    assert_eq!(kinds("\""), vec![TokenType::String(String::new()), TokenType::Eof]);
}

#[test]
fn comments_are_skipped() {
    assert_eq!(
        kinds("a // the rest + is gone\nb"),
        vec![word("a"), word("b"), TokenType::Eof]
    );
    assert_eq!(kinds("// only a comment"), vec![TokenType::Eof]);
    assert_eq!(kinds("a / b"), vec![word("a"), TokenType::Slash, word("b"), TokenType::Eof]);
}

#[test]
fn an_unknown_character_is_a_word_of_its_own() {
    assert_eq!(
        kinds("a @ b # ;"),
        vec![word("a"), word("@"), word("b"), word("#"), word(";"), TokenType::Eof]
    );
    assert_eq!(kinds("|| &&"), vec![word("|"), word("|"), word("&"), word("&"), TokenType::Eof]);
}

#[test]
fn words_may_be_written_in_any_alphabet() {
    assert_eq!(kinds("привет мир"), vec![word("привет"), word("мир"), TokenType::Eof]);
}

#[test]
fn lines_and_columns_start_at_one() {
    let all = tokens("func add\n  return 1\n");
    let places: Vec<(usize, usize)> = all.iter().map(|t| (t.line, t.column)).collect();
    assert_eq!(places, vec![(1, 1), (1, 6), (2, 3), (2, 10), (3, 1)]);
}

#[test]
fn columns_count_characters_not_bytes() {
    let all = tokens("\"жук\" x");
    assert_eq!((all[0].line, all[0].column), (1, 1));
    assert_eq!((all[1].line, all[1].column), (1, 7));
}

#[test]
fn a_string_over_two_lines_moves_the_line_counter() {
    let all = tokens("\"a\nb\" x");
    assert_eq!(all[0].token_type, TokenType::String("a\nb".to_string()));
    assert_eq!((all[1].line, all[1].column), (2, 4));
}

#[test]
fn a_second_scan_yields_only_eof() {
    let mut lexer = Lexer::new("a b\nc");
    let first = lexer.tokenize();
    assert_eq!(first.len(), 4);
    let second = lexer.tokenize();
    assert_eq!(second.len(), 1);
    assert_eq!(second[0].token_type, TokenType::Eof);
    assert_eq!((second[0].line, second[0].column), (2, 2));
}

#[test]
fn token_names_and_descriptions() {
    assert_eq!(TokenType::LeftParen.name(), "LeftParen");
    assert_eq!(TokenType::Eof.describe(), "Eof");
    assert_eq!(word("x").describe(), "Identifier(\"x\")");
    assert_eq!(TokenType::Number("1.5".to_string()).describe(), "Number(\"1.5\")");
    assert_eq!(
        TokenType::String("a\"b\n".to_string()).describe(),
        "String(\"a\\\"b\\n\")"
    );
}

#[test]
fn a_description_is_what_debug_prints() {
    let source = "func end return if else while for try catch raise route json auto error_code \
                  public private import from int float double txt bool get post put delete and or not \
                  ( ) { } [ ] , . : + - * / % = ! < > -> == != <= >= \
                  name 12.5 \"te\\\"xt\\n\" 'q' é \"\u{7f}\u{1f600}\"";
    let all = kinds(source);
    assert_eq!(all.len(), 60);
    for kind in &all {
        assert_eq!(kind.describe(), format!("{:?}", kind));
    }
}

#[test]
fn same_kind_ignores_the_text() {
    assert!(word("a").same_kind(&word("b")));
    assert!(TokenType::Comma.same_kind(&TokenType::Comma));
    assert!(!TokenType::Comma.same_kind(&TokenType::Colon));
    assert!(!word("a").same_kind(&TokenType::Number("a".to_string())));
    assert!(!TokenType::String("a".to_string()).same_kind(&TokenType::Eof));
}
