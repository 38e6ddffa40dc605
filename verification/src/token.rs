use vstd::prelude::*;

verus! {

/// The closed set of token kinds the lexer can produce.
///
/// `ILLEGAL` marks a character that matches no lexical rule; `EOF` marks the
/// end of the input. The remaining kinds cover identifiers, integer literals,
/// the one- and two-character operators, punctuation, and the keywords.
#[derive(Debug, PartialEq, Eq, Clone, Copy)]
pub enum TokenType {
    ILLEGAL,
    EOF,
    IDENT,
    INT,
    ASSIGN,
    PLUS,
    MINUS,
    BANG,
    ASTERISK,
    SLASH,
    LT,
    GT,
    EQ,
    NOTEQ,
    COMMA,
    SEMICOLON,
    LPAREN,
    RPAREN,
    LBRACE,
    RBRACE,
    FUNCTION,
    LET,
    TRUE,
    FALSE,
    IF,
    ELSE,
    RETURN,
}

/// A token: its kind together with the exact source text that produced it.
///
/// The literal is never empty; the end-of-input token carries a single NUL
/// character as its sentinel literal.
#[derive(Debug, PartialEq)]
pub struct Token {
    pub token_type: TokenType,
    pub literal: String,
}

/// The kind an identifier run resolves to: the dedicated kind when the run
/// matches one of the seven keywords exactly, and `IDENT` otherwise.
pub open spec fn keyword_kind(s: Seq<char>) -> TokenType {
    if s == "fn"@ {
        TokenType::FUNCTION
    } else if s == "let"@ {
        TokenType::LET
    } else if s == "true"@ {
        TokenType::TRUE
    } else if s == "false"@ {
        TokenType::FALSE
    } else if s == "if"@ {
        TokenType::IF
    } else if s == "else"@ {
        TokenType::ELSE
    } else if s == "return"@ {
        TokenType::RETURN
    } else {
        TokenType::IDENT
    }
}

} // verus!
