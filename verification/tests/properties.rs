use script_lexer::lexer::Lexer;
use script_lexer::token::TokenType;

fn expect(lexer: &mut Lexer, token_type: TokenType, literal: &str) {
    let token = lexer.next_token();
    assert_eq!(token.token_type, token_type);
    assert_eq!(token.literal, literal);
}

#[test]
fn empty_input_yields_end_of_input_immediately() {
    let mut lexer = Lexer::new("");
    expect(&mut lexer, TokenType::EOF, "\0");
}

#[test]
fn end_of_input_is_stable_under_repeated_calls() {
    let mut lexer = Lexer::new("a");
    expect(&mut lexer, TokenType::IDENT, "a");
    for _ in 0..5 {
        expect(&mut lexer, TokenType::EOF, "\0");
    }
}

#[test]
fn double_equal_is_one_token_never_two_assigns() {
    let mut lexer = Lexer::new("==");
    expect(&mut lexer, TokenType::EQ, "==");
    expect(&mut lexer, TokenType::EOF, "\0");
}

#[test]
fn assign_followed_by_other_character() {
    let mut lexer = Lexer::new("=a");
    expect(&mut lexer, TokenType::ASSIGN, "=");
    expect(&mut lexer, TokenType::IDENT, "a");
    expect(&mut lexer, TokenType::EOF, "\0");
}

#[test]
fn bang_equal_is_one_token_never_bang_then_assign() {
    let mut lexer = Lexer::new("!=");
    expect(&mut lexer, TokenType::NOTEQ, "!=");
    expect(&mut lexer, TokenType::EOF, "\0");
}

#[test]
fn bang_followed_by_other_character() {
    let mut lexer = Lexer::new("!5");
    expect(&mut lexer, TokenType::BANG, "!");
    expect(&mut lexer, TokenType::INT, "5");
    expect(&mut lexer, TokenType::EOF, "\0");
}

#[test]
fn exact_keywords_get_their_dedicated_kind() {
    let mut lexer = Lexer::new("fn let true false if else return");
    expect(&mut lexer, TokenType::FUNCTION, "fn");
    expect(&mut lexer, TokenType::LET, "let");
    expect(&mut lexer, TokenType::TRUE, "true");
    expect(&mut lexer, TokenType::FALSE, "false");
    expect(&mut lexer, TokenType::IF, "if");
    expect(&mut lexer, TokenType::ELSE, "else");
    expect(&mut lexer, TokenType::RETURN, "return");
    expect(&mut lexer, TokenType::EOF, "\0");
}

#[test]
fn keyword_prefixes_are_identifiers_with_the_full_run() {
    let mut lexer = Lexer::new("lets iffy fna returns truex");
    expect(&mut lexer, TokenType::IDENT, "lets");
    expect(&mut lexer, TokenType::IDENT, "iffy");
    expect(&mut lexer, TokenType::IDENT, "fna");
    expect(&mut lexer, TokenType::IDENT, "returns");
    expect(&mut lexer, TokenType::IDENT, "truex");
    expect(&mut lexer, TokenType::EOF, "\0");
}

#[test]
fn maximal_munch_splits_digits_then_letters() {
    let mut lexer = Lexer::new("12ab");
    expect(&mut lexer, TokenType::INT, "12");
    expect(&mut lexer, TokenType::IDENT, "ab");
    expect(&mut lexer, TokenType::EOF, "\0");
}

#[test]
fn underscore_continues_an_identifier_run() {
    let mut lexer = Lexer::new("foo_bar baz_");
    expect(&mut lexer, TokenType::IDENT, "foo_bar");
    expect(&mut lexer, TokenType::IDENT, "baz_");
    expect(&mut lexer, TokenType::EOF, "\0");
}

#[test]
fn leading_underscore_is_illegal_and_scanning_resumes() {
    let mut lexer = Lexer::new("_ab");
    expect(&mut lexer, TokenType::ILLEGAL, "_");
    expect(&mut lexer, TokenType::IDENT, "ab");
    expect(&mut lexer, TokenType::EOF, "\0");
}

#[test]
fn illegal_character_passes_through_and_scanning_resumes() {
    let mut lexer = Lexer::new("@x");
    expect(&mut lexer, TokenType::ILLEGAL, "@");
    expect(&mut lexer, TokenType::IDENT, "x");
    expect(&mut lexer, TokenType::EOF, "\0");
}

#[test]
fn whitespace_is_skipped_greedily_and_never_emitted() {
    let mut lexer = Lexer::new("  \t\r\n  +  \n");
    expect(&mut lexer, TokenType::PLUS, "+");
    expect(&mut lexer, TokenType::EOF, "\0");
}

#[test]
fn scenario_let_five() {
    let mut lexer = Lexer::new("let five = 5;");
    expect(&mut lexer, TokenType::LET, "let");
    expect(&mut lexer, TokenType::IDENT, "five");
    expect(&mut lexer, TokenType::ASSIGN, "=");
    expect(&mut lexer, TokenType::INT, "5");
    expect(&mut lexer, TokenType::SEMICOLON, ";");
    expect(&mut lexer, TokenType::EOF, "\0");
}

#[test]
fn scenario_comparisons() {
    let mut lexer = Lexer::new("10 == 10; 10 != 9;");
    expect(&mut lexer, TokenType::INT, "10");
    expect(&mut lexer, TokenType::EQ, "==");
    expect(&mut lexer, TokenType::INT, "10");
    expect(&mut lexer, TokenType::SEMICOLON, ";");
    expect(&mut lexer, TokenType::INT, "10");
    expect(&mut lexer, TokenType::NOTEQ, "!=");
    expect(&mut lexer, TokenType::INT, "9");
    expect(&mut lexer, TokenType::SEMICOLON, ";");
    expect(&mut lexer, TokenType::EOF, "\0");
}

#[test]
fn literals_of_a_whitespace_free_input_reconstruct_it() {
    let input = "fn(x){x!=12;@<>}";
    let mut lexer = Lexer::new(input);
    let mut rebuilt = String::new();
    loop {
        let token = lexer.next_token();
        if token.token_type == TokenType::EOF {
            break;
        }
        rebuilt.push_str(&token.literal);
    }
    assert_eq!(rebuilt, input);
}
