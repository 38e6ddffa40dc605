use vstd::prelude::*;
use vstd::string::StrSliceExecFns;

use crate::token::Token;
use crate::token::TokenType;
use crate::token::keyword_kind;

verus! {

broadcast use vstd::string::group_string_axioms;

// ---------------------------------------------------------------------------
// The character model.
//
// The lexer scans a sequence of characters with one character of lookahead.
// Positions at or past the end of the input read as the NUL sentinel, which
// is also what marks end of input.
// ---------------------------------------------------------------------------

/// The character at position `i`, or the NUL sentinel past the end.
pub open spec fn char_at(s: Seq<char>, i: int) -> char {
    if 0 <= i < s.len() {
        s[i]
    } else {
        '\x00'
    }
}

/// Insignificant whitespace: space, tab, newline, carriage return.
pub open spec fn is_whitespace_char(c: char) -> bool {
    c == ' ' || c == '\t' || c == '\n' || c == '\r'
}

/// An ASCII letter: the characters that may start an identifier.
pub open spec fn is_letter_char(c: char) -> bool {
    (('a' as u32) <= (c as u32) && (c as u32) <= ('z' as u32)) || (('A' as u32) <= (c as u32) && (c
        as u32) <= ('Z' as u32))
}

/// An ASCII digit.
pub open spec fn is_digit_char(c: char) -> bool {
    ('0' as u32) <= (c as u32) && (c as u32) <= ('9' as u32)
}

/// A character that may continue an identifier: a letter or an underscore.
pub open spec fn is_ident_char(c: char) -> bool {
    is_letter_char(c) || c == '_'
}

/// The first position at or after `p` that does not hold whitespace.
pub open spec fn ws_end(s: Seq<char>, p: int) -> int
    decreases s.len() - p,
{
    if 0 <= p < s.len() && is_whitespace_char(s[p]) {
        ws_end(s, p + 1)
    } else {
        p
    }
}

/// The end of the identifier run that starts at `p`: the first position at or
/// after `p` that does not hold a letter or an underscore.
pub open spec fn ident_end(s: Seq<char>, p: int) -> int
    decreases s.len() - p,
{
    if 0 <= p < s.len() && is_ident_char(s[p]) {
        ident_end(s, p + 1)
    } else {
        p
    }
}

/// The end of the digit run that starts at `p`.
pub open spec fn digits_end(s: Seq<char>, p: int) -> int
    decreases s.len() - p,
{
    if 0 <= p < s.len() && is_digit_char(s[p]) {
        digits_end(s, p + 1)
    } else {
        p
    }
}

// ---------------------------------------------------------------------------
// The token produced at a position.
//
// These three functions say, for a scan standing at position `p` (whitespace
// already skipped), which kind of token comes out, its literal text, and the
// position the cursor stands at afterwards. They are the whole specification
// of one `next_token` step.
// ---------------------------------------------------------------------------

/// The kind of the token produced at position `p`.
pub open spec fn token_kind_at(s: Seq<char>, p: int) -> TokenType {
    let c = char_at(s, p);
    if c == '\x00' {
        TokenType::EOF
    } else if c == '=' {
        if char_at(s, p + 1) == '=' {
            TokenType::EQ
        } else {
            TokenType::ASSIGN
        }
    } else if c == '!' {
        if char_at(s, p + 1) == '=' {
            TokenType::NOTEQ
        } else {
            TokenType::BANG
        }
    } else if c == ';' {
        TokenType::SEMICOLON
    } else if c == '(' {
        TokenType::LPAREN
    } else if c == ')' {
        TokenType::RPAREN
    } else if c == ',' {
        TokenType::COMMA
    } else if c == '+' {
        TokenType::PLUS
    } else if c == '-' {
        TokenType::MINUS
    } else if c == '*' {
        TokenType::ASTERISK
    } else if c == '/' {
        TokenType::SLASH
    } else if c == '<' {
        TokenType::LT
    } else if c == '>' {
        TokenType::GT
    } else if c == '{' {
        TokenType::LBRACE
    } else if c == '}' {
        TokenType::RBRACE
    } else if is_letter_char(c) {
        keyword_kind(s.subrange(p, ident_end(s, p)))
    } else if is_digit_char(c) {
        TokenType::INT
    } else {
        TokenType::ILLEGAL
    }
}

/// The literal text of the token produced at position `p`.
pub open spec fn token_text_at(s: Seq<char>, p: int) -> Seq<char> {
    let c = char_at(s, p);
    if c == '\x00' {
        seq!['\x00']
    } else if c == '=' && char_at(s, p + 1) == '=' {
        s.subrange(p, p + 2)
    } else if c == '!' && char_at(s, p + 1) == '=' {
        s.subrange(p, p + 2)
    } else if is_letter_char(c) {
        s.subrange(p, ident_end(s, p))
    } else if is_digit_char(c) {
        s.subrange(p, digits_end(s, p))
    } else {
        seq![c]
    }
}

/// The cursor position after the token produced at position `p`.
pub open spec fn token_next_pos(s: Seq<char>, p: int) -> int {
    let c = char_at(s, p);
    if c == '\x00' {
        if p + 1 <= s.len() {
            p + 1
        } else {
            s.len() as int
        }
    } else if c == '=' && char_at(s, p + 1) == '=' {
        p + 2
    } else if c == '!' && char_at(s, p + 1) == '=' {
        p + 2
    } else if is_letter_char(c) {
        ident_end(s, p)
    } else if is_digit_char(c) {
        digits_end(s, p)
    } else {
        p + 1
    }
}

// ---------------------------------------------------------------------------
// Bounds and maximality of the runs.
// ---------------------------------------------------------------------------

/// Whitespace skipping stays inside the input, skips only whitespace, and
/// stops on the first character that is not whitespace.
pub proof fn lemma_ws_end_bounds(s: Seq<char>, p: int)
    requires
        0 <= p <= s.len(),
    ensures
        p <= ws_end(s, p) <= s.len(),
        forall|i: int| p <= i < ws_end(s, p) ==> is_whitespace_char(s[i]),
        !is_whitespace_char(char_at(s, ws_end(s, p))),
    decreases s.len() - p,
{
    if p < s.len() && is_whitespace_char(s[p]) {
        lemma_ws_end_bounds(s, p + 1);
    }
}

/// An identifier run stays inside the input, holds only letters and
/// underscores, and stops on the first character that is neither.
pub proof fn lemma_ident_end_bounds(s: Seq<char>, p: int)
    requires
        0 <= p <= s.len(),
    ensures
        p <= ident_end(s, p) <= s.len(),
        forall|i: int| p <= i < ident_end(s, p) ==> is_ident_char(s[i]),
        !is_ident_char(char_at(s, ident_end(s, p))),
    decreases s.len() - p,
{
    if p < s.len() && is_ident_char(s[p]) {
        lemma_ident_end_bounds(s, p + 1);
    }
}

/// A digit run stays inside the input, holds only digits, and stops on the
/// first character that is not a digit.
pub proof fn lemma_digits_end_bounds(s: Seq<char>, p: int)
    requires
        0 <= p <= s.len(),
    ensures
        p <= digits_end(s, p) <= s.len(),
        forall|i: int| p <= i < digits_end(s, p) ==> is_digit_char(s[i]),
        !is_digit_char(char_at(s, digits_end(s, p))),
    decreases s.len() - p,
{
    if p < s.len() && is_digit_char(s[p]) {
        lemma_digits_end_bounds(s, p + 1);
    }
}

// ---------------------------------------------------------------------------
// Executable character classification.
// ---------------------------------------------------------------------------

/// Whether `c` is insignificant whitespace.
fn is_whitespace(c: char) -> (r: bool)
    ensures
        r == is_whitespace_char(c),
{
    c == ' ' || c == '\t' || c == '\n' || c == '\r'
}

/// Whether `c` is an ASCII letter.
fn is_letter(c: char) -> (r: bool)
    ensures
        r == is_letter_char(c),
{
    let u = c as u32;
    (('a' as u32) <= u && u <= ('z' as u32)) || (('A' as u32) <= u && u <= ('Z' as u32))
}

/// Whether `c` is an ASCII digit.
fn is_digit(c: char) -> (r: bool)
    ensures
        r == is_digit_char(c),
{
    let u = c as u32;
    ('0' as u32) <= u && u <= ('9' as u32)
}

/// Whether `c` may continue an identifier.
fn is_ident(c: char) -> (r: bool)
    ensures
        r == is_ident_char(c),
{
    is_letter(c) || c == '_'
}

/// Whether two string slices hold the same characters.
fn str_eq(a: &str, b: &str) -> (r: bool)
    ensures
        r == (a@ == b@),
{
    let n = a.unicode_len();
    if n != b.unicode_len() {
        return false;
    }
    let mut i: usize = 0;
    while i < n
        invariant
            0 <= i <= n,
            n == a@.len(),
            n == b@.len(),
            forall|j: int| 0 <= j < i ==> a@[j] == b@[j],
        decreases n - i,
    {
        if a.get_char(i) != b.get_char(i) {
            return false;
        }
        i = i + 1;
    }
    proof {
        assert(a@ =~= b@);
    }
    true
}

// ---------------------------------------------------------------------------
// The lexer.
// ---------------------------------------------------------------------------

/// A pull-based scanner over a borrowed source text.
///
/// `position` indexes the character the scan currently stands on,
/// `read_position` the character one ahead (capped at the input length), and
/// `current_char` caches the character at `position`, with NUL once the scan
/// has reached the end.
#[derive(Debug, PartialEq, Clone, Copy)]
pub struct Lexer<'a> {
    input: &'a str,
    position: usize,
    read_position: usize,
    current_char: char,
}

impl<'a> Lexer<'a> {
    /// The source text under scan.
    pub closed spec fn src(self) -> Seq<char> {
        self.input@
    }

    /// The position of the character the scan currently stands on.
    pub closed spec fn pos(self) -> int {
        self.position as int
    }

    /// The cursor is inside the input and the cached fields agree with it.
    pub closed spec fn wf(self) -> bool {
        &&& self.position <= self.input@.len()
        &&& self.read_position as int == if self.position + 1 <= self.input@.len() {
            self.position + 1
        } else {
            self.input@.len() as int
        }
        &&& self.current_char == char_at(self.input@, self.position as int)
    }

    /// A lexer standing on the first character of `input` (or on the
    /// end-of-input sentinel when `input` is empty).
    pub fn new(input: &'a str) -> (lexer: Self)
        ensures
            lexer.wf(),
            lexer.src() == input@,
            lexer.pos() == 0,
    {
        let n = input.unicode_len();
        let current_char = if n == 0 {
            '\x00'
        } else {
            input.get_char(0)
        };
        let read_position: usize = if n == 0 {
            0
        } else {
            1
        };
        Lexer { input, position: 0, read_position, current_char }
    }

    /// Advance the cursor one character, saturating at the end of the input.
    fn read_char(&mut self)
        requires
            old(self).wf(),
        ensures
            final(self).wf(),
            final(self).src() == old(self).src(),
            final(self).pos() == if old(self).pos() + 1 <= old(self).src().len() {
                old(self).pos() + 1
            } else {
                old(self).src().len() as int
            },
    {
        let n = self.input.unicode_len();
        if self.read_position >= n {
            self.position = self.read_position;
            self.current_char = '\x00';
        } else {
            self.position = self.read_position;
            self.read_position = self.read_position + 1;
            self.current_char = self.input.get_char(self.position);
        }
    }

    /// The character one past the cursor, without moving it.
    fn peak_char(&self) -> (c: char)
        requires
            self.wf(),
        ensures
            c == char_at(self.src(), self.pos() + 1),
    {
        if self.read_position >= self.input.unicode_len() {
            '\x00'
        } else {
            self.input.get_char(self.read_position)
        }
    }

    /// Advance the cursor past every whitespace character in one pass.
    fn skip_whitespace(&mut self)
        requires
            old(self).wf(),
        ensures
            final(self).wf(),
            final(self).src() == old(self).src(),
            final(self).pos() == ws_end(old(self).src(), old(self).pos()),
    {
        while is_whitespace(self.current_char)
            invariant
                self.wf(),
                self.src() == old(self).src(),
                ws_end(self.src(), self.pos()) == ws_end(old(self).src(), old(self).pos()),
            decreases self.src().len() - self.pos(),
        {
            self.read_char();
        }
    }

    /// Consume the maximal run of letters and underscores that starts at the
    /// cursor and return it as the literal.
    fn read_identifier(&mut self) -> (literal: String)
        requires
            old(self).wf(),
        ensures
            final(self).wf(),
            final(self).src() == old(self).src(),
            final(self).pos() == ident_end(old(self).src(), old(self).pos()),
            literal@ == old(self).src().subrange(old(self).pos(), final(self).pos()),
    {
        let position = self.position;
        while is_ident(self.current_char)
            invariant
                self.wf(),
                self.src() == old(self).src(),
                position <= self.pos(),
                ident_end(self.src(), self.pos()) == ident_end(old(self).src(), old(self).pos()),
            decreases self.src().len() - self.pos(),
        {
            self.read_char();
        }
        proof {
            lemma_ident_end_bounds(old(self).src(), old(self).pos());
        }
        self.input.substring_char(position, self.position).to_owned()
    }

    /// Consume the maximal run of digits that starts at the cursor and return
    /// it as the literal.
    fn read_number(&mut self) -> (literal: String)
        requires
            old(self).wf(),
        ensures
            final(self).wf(),
            final(self).src() == old(self).src(),
            final(self).pos() == digits_end(old(self).src(), old(self).pos()),
            literal@ == old(self).src().subrange(old(self).pos(), final(self).pos()),
    {
        let position = self.position;
        while is_digit(self.current_char)
            invariant
                self.wf(),
                self.src() == old(self).src(),
                position <= self.pos(),
                digits_end(self.src(), self.pos()) == digits_end(old(self).src(), old(self).pos()),
            decreases self.src().len() - self.pos(),
        {
            self.read_char();
        }
        proof {
            lemma_digits_end_bounds(old(self).src(), old(self).pos());
        }
        self.input.substring_char(position, self.position).to_owned()
    }

    /// Produce the next token: skip whitespace, classify the character under
    /// the cursor, consume exactly the token's text, and leave the cursor on
    /// the first character after it.
    ///
    /// At the true end of the input this yields `EOF` with the sentinel
    /// literal and moves nothing, so every further call yields `EOF` again.
    pub fn next_token(&mut self) -> (tok: Token)
        requires
            old(self).wf(),
        ensures
            final(self).wf(),
            final(self).src() == old(self).src(),
            tok.token_type == token_kind_at(
                old(self).src(),
                ws_end(old(self).src(), old(self).pos()),
            ),
            tok.literal@ == token_text_at(old(self).src(), ws_end(old(self).src(), old(self).pos())),
            final(self).pos() == token_next_pos(
                old(self).src(),
                ws_end(old(self).src(), old(self).pos()),
            ),
    {
        self.skip_whitespace();
        let c = self.current_char;
        if c == '\x00' {
            let literal = "\x00".to_owned();
            proof {
                reveal_strlit("\x00");
                assert(literal@ =~= seq!['\x00']);
            }
            self.read_char();
            Token { token_type: TokenType::EOF, literal }
        } else if c == '=' {
            if self.peak_char() == '=' {
                let position = self.position;
                let n: usize = self.input.unicode_len();
                assert(position + 2 <= n);
                let literal = self.input.substring_char(position, position + 2).to_owned();
                self.read_char();
                self.read_char();
                Token { token_type: TokenType::EQ, literal }
            } else {
                let token = Token { token_type: TokenType::ASSIGN, literal: self.single_char_literal() };
                self.read_char();
                token
            }
        } else if c == '!' {
            if self.peak_char() == '=' {
                let position = self.position;
                let n: usize = self.input.unicode_len();
                assert(position + 2 <= n);
                let literal = self.input.substring_char(position, position + 2).to_owned();
                self.read_char();
                self.read_char();
                Token { token_type: TokenType::NOTEQ, literal }
            } else {
                let token = Token { token_type: TokenType::BANG, literal: self.single_char_literal() };
                self.read_char();
                token
            }
        } else if c == ';' || c == '(' || c == ')' || c == ',' || c == '+' || c == '-' || c == '*'
            || c == '/' || c == '<' || c == '>' || c == '{' || c == '}' {
            let token_type = if c == ';' {
                TokenType::SEMICOLON
            } else if c == '(' {
                TokenType::LPAREN
            } else if c == ')' {
                TokenType::RPAREN
            } else if c == ',' {
                TokenType::COMMA
            } else if c == '+' {
                TokenType::PLUS
            } else if c == '-' {
                TokenType::MINUS
            } else if c == '*' {
                TokenType::ASTERISK
            } else if c == '/' {
                TokenType::SLASH
            } else if c == '<' {
                TokenType::LT
            } else if c == '>' {
                TokenType::GT
            } else if c == '{' {
                TokenType::LBRACE
            } else {
                TokenType::RBRACE
            };
            let token = Token { token_type, literal: self.single_char_literal() };
            self.read_char();
            token
        } else if is_letter(c) {
            let literal = self.read_identifier();
            let token_type = self.lookup_token_type(literal.as_str());
            Token { token_type, literal }
        } else if is_digit(c) {
            let literal = self.read_number();
            Token { token_type: TokenType::INT, literal }
        } else {
            let token = Token { token_type: TokenType::ILLEGAL, literal: self.single_char_literal() };
            self.read_char();
            token
        }
    }

    /// The one character under the cursor as an owned literal.
    fn single_char_literal(&self) -> (literal: String)
        requires
            self.wf(),
            self.pos() < self.src().len(),
        ensures
            literal@ == seq![char_at(self.src(), self.pos())],
    {
        let literal = self.input.substring_char(self.position, self.position + 1).to_owned();
        proof {
            assert(literal@ =~= seq![char_at(self.src(), self.pos())]);
        }
        literal
    }

    /// Resolve an identifier literal against the fixed keyword table.
    fn lookup_token_type(&self, ident: &str) -> (t: TokenType)
        ensures
            t == keyword_kind(ident@),
    {
        if str_eq(ident, "fn") {
            TokenType::FUNCTION
        } else if str_eq(ident, "let") {
            TokenType::LET
        } else if str_eq(ident, "true") {
            TokenType::TRUE
        } else if str_eq(ident, "false") {
            TokenType::FALSE
        } else if str_eq(ident, "if") {
            TokenType::IF
        } else if str_eq(ident, "else") {
            TokenType::ELSE
        } else if str_eq(ident, "return") {
            TokenType::RETURN
        } else {
            TokenType::IDENT
        }
    }
}

// ---------------------------------------------------------------------------
// Laws of the scan.
//
// `next_token` promises that one call, starting at position `p`, produces the
// token at `start = ws_end(src, p)` and leaves the cursor at
// `token_next_pos(src, start)`. The lemmas below state what holds of that
// step for every input and every position.
// ---------------------------------------------------------------------------

/// Termination: every call moves the cursor strictly forward, except at the
/// true end of the input, where the cursor stays put and the token is `EOF`.
/// The cursor never leaves the input, so repeated calls reach the end of any
/// finite input, after which every call yields `EOF`.
pub proof fn lemma_lexer_progress(s: Seq<char>, p: int)
    requires
        0 <= p <= s.len(),
    ensures
        ({
            let start = ws_end(s, p);
            let next = token_next_pos(s, start);
            &&& p <= start <= next <= s.len()
            &&& (next == p ==> p == s.len() && token_kind_at(s, start) == TokenType::EOF)
        }),
{
    lemma_ws_end_bounds(s, p);
    let start = ws_end(s, p);
    let c = char_at(s, start);
    if c == '\x00' {
    } else if is_letter_char(c) {
        lemma_ident_end_bounds(s, start);
        assert(ident_end(s, start) == ident_end(s, start + 1));
    } else if is_digit_char(c) {
        lemma_digits_end_bounds(s, start);
        assert(digits_end(s, start) == digits_end(s, start + 1));
    }
}

/// Once the cursor stands at the end of the input, every further call yields
/// `EOF` with the sentinel literal and does not move the cursor.
pub proof fn lemma_end_of_input_stable(s: Seq<char>, p: int)
    requires
        p == s.len(),
    ensures
        ws_end(s, p) == p,
        token_kind_at(s, p) == TokenType::EOF,
        token_text_at(s, p) == seq!['\x00'],
        token_next_pos(s, p) == p,
{
}

/// Total coverage: one call consumes exactly a run of whitespace followed by
/// the token's own literal, so no input character is dropped or duplicated.
/// At the true end of the input nothing is consumed and the token is `EOF`.
pub proof fn lemma_token_covers_input(s: Seq<char>, p: int)
    requires
        0 <= p <= s.len(),
    ensures
        ({
            let start = ws_end(s, p);
            let next = token_next_pos(s, start);
            &&& p <= start <= next <= s.len()
            &&& (forall|i: int| p <= i < start ==> is_whitespace_char(s[i]))
            &&& (start < s.len() ==> token_text_at(s, start) == s.subrange(start, next))
            &&& (start == s.len() ==> next == start && token_kind_at(s, start) == TokenType::EOF)
        }),
{
    lemma_ws_end_bounds(s, p);
    let start = ws_end(s, p);
    let next = token_next_pos(s, start);
    let c = char_at(s, start);
    if start < s.len() {
        if c == '\x00' {
            assert(token_text_at(s, start) =~= s.subrange(start, next));
        } else if c == '=' && char_at(s, start + 1) == '=' {
        } else if c == '!' && char_at(s, start + 1) == '=' {
        } else if is_letter_char(c) {
            lemma_ident_end_bounds(s, start);
            assert(ident_end(s, start) == ident_end(s, start + 1));
        } else if is_digit_char(c) {
            lemma_digits_end_bounds(s, start);
            assert(digits_end(s, start) == digits_end(s, start + 1));
        } else {
            assert(token_text_at(s, start) =~= s.subrange(start, next));
        }
    }
}

/// Two-character precedence: at `"=="` the scan produces one `EQ` token that
/// consumes both characters, never two `ASSIGN` tokens; at `"="` followed by
/// anything else it produces `ASSIGN` and consumes only the `=`, so the next
/// call starts on the following character. The same holds of `"!="` against
/// `BANG`.
pub proof fn lemma_two_char_precedence(s: Seq<char>, p: int)
    requires
        char_at(s, p) == '=' || char_at(s, p) == '!',
    ensures
        char_at(s, p) == '=' && char_at(s, p + 1) == '=' ==> token_kind_at(s, p) == TokenType::EQ
            && token_text_at(s, p) == seq!['=', '='] && token_next_pos(s, p) == p + 2,
        char_at(s, p) == '=' && char_at(s, p + 1) != '=' ==> token_kind_at(s, p)
            == TokenType::ASSIGN && token_text_at(s, p) == seq!['='] && token_next_pos(s, p) == p
            + 1,
        char_at(s, p) == '!' && char_at(s, p + 1) == '=' ==> token_kind_at(s, p) == TokenType::NOTEQ
            && token_text_at(s, p) == seq!['!', '='] && token_next_pos(s, p) == p + 2,
        char_at(s, p) == '!' && char_at(s, p + 1) != '=' ==> token_kind_at(s, p) == TokenType::BANG
            && token_text_at(s, p) == seq!['!'] && token_next_pos(s, p) == p + 1,
{
    if char_at(s, p + 1) == '=' {
        assert(token_text_at(s, p) =~= seq![char_at(s, p), '=']);
    }
}

/// Keyword exactness: a token that starts with a letter is the maximal
/// identifier run, and its kind is the dedicated keyword kind exactly when
/// the whole run matches that keyword; every other run, a run merely prefixed
/// by a keyword included, is an `IDENT`.
pub proof fn lemma_keyword_exactness(s: Seq<char>, p: int)
    requires
        is_letter_char(char_at(s, p)),
    ensures
        ({
            let text = token_text_at(s, p);
            let kind = token_kind_at(s, p);
            &&& text == s.subrange(p, ident_end(s, p))
            &&& kind == keyword_kind(text)
            &&& (kind == TokenType::FUNCTION <==> text == "fn"@)
            &&& (kind == TokenType::LET <==> text == "let"@)
            &&& (kind == TokenType::TRUE <==> text == "true"@)
            &&& (kind == TokenType::FALSE <==> text == "false"@)
            &&& (kind == TokenType::IF <==> text == "if"@)
            &&& (kind == TokenType::ELSE <==> text == "else"@)
            &&& (kind == TokenType::RETURN <==> text == "return"@)
            &&& (kind == TokenType::IDENT <==> text != "fn"@ && text != "let"@ && text != "true"@
                && text != "false"@ && text != "if"@ && text != "else"@ && text != "return"@)
        }),
{
    lemma_ident_end_bounds(s, p);
    reveal_strlit("fn");
    reveal_strlit("let");
    reveal_strlit("true");
    reveal_strlit("false");
    reveal_strlit("if");
    reveal_strlit("else");
    reveal_strlit("return");
    assert("fn"@.len() == 2 && "fn"@[0] == 'f');
    assert("let"@.len() == 3);
    assert("true"@.len() == 4 && "true"@[0] == 't');
    assert("false"@.len() == 5);
    assert("if"@.len() == 2 && "if"@[0] == 'i');
    assert("else"@.len() == 4 && "else"@[0] == 'e');
    assert("return"@.len() == 6);
}

/// Maximal munch: an identifier token is the longest run of letters and
/// underscores from its start, and an integer token the longest run of
/// digits; the character that follows the consumed run belongs to neither
/// class, and the next call starts exactly on it.
pub proof fn lemma_maximal_munch(s: Seq<char>, p: int)
    requires
        is_letter_char(char_at(s, p)) || is_digit_char(char_at(s, p)),
    ensures
        is_letter_char(char_at(s, p)) ==> ({
            let end = ident_end(s, p);
            &&& p < end <= s.len()
            &&& token_text_at(s, p) == s.subrange(p, end)
            &&& token_next_pos(s, p) == end
            &&& (forall|i: int| p <= i < end ==> is_ident_char(s[i]))
            &&& !is_ident_char(char_at(s, end))
        }),
        is_digit_char(char_at(s, p)) ==> ({
            let end = digits_end(s, p);
            &&& p < end <= s.len()
            &&& token_kind_at(s, p) == TokenType::INT
            &&& token_text_at(s, p) == s.subrange(p, end)
            &&& token_next_pos(s, p) == end
            &&& (forall|i: int| p <= i < end ==> is_digit_char(s[i]))
            &&& !is_digit_char(char_at(s, end))
        }),
{
    let c = char_at(s, p);
    if is_letter_char(c) {
        lemma_ident_end_bounds(s, p);
        assert(ident_end(s, p) == ident_end(s, p + 1));
    } else {
        lemma_digits_end_bounds(s, p);
        assert(digits_end(s, p) == digits_end(s, p + 1));
    }
}

/// Illegal passthrough: a character that matches no lexical rule yields an
/// `ILLEGAL` token carrying exactly that character, and the scan resumes on
/// the following character.
pub proof fn lemma_illegal_passthrough(s: Seq<char>, p: int)
    requires
        0 <= p < s.len(),
        !is_whitespace_char(s[p]),
        s[p] != '\x00',
        s[p] != '=',
        s[p] != '!',
        s[p] != ';',
        s[p] != '(',
        s[p] != ')',
        s[p] != ',',
        s[p] != '+',
        s[p] != '-',
        s[p] != '*',
        s[p] != '/',
        s[p] != '<',
        s[p] != '>',
        s[p] != '{',
        s[p] != '}',
        !is_letter_char(s[p]),
        !is_digit_char(s[p]),
    ensures
        token_kind_at(s, p) == TokenType::ILLEGAL,
        token_text_at(s, p) == seq![s[p]],
        token_next_pos(s, p) == p + 1,
{
}


} // verus!

