//! The lexer: turns source text into tokens, one at a time, and keeps
//! track of the line and column of what it reads.
//!
//! The source is held line by line; each line ends with a newline, also
//! the last one.  Positions count lines and columns from one.

use crate::text::{push_char, str_equal};
use crate::token::{Token, TokenView};
use vstd::prelude::*;

verus! {

/// Whether a scalar value is alphabetic or numeric, as the standard
/// library classifies it.
pub uninterp spec fn is_alphanumeric(c: char) -> bool;

/// Whether a scalar value is white space, as the standard library
/// classifies it.
pub uninterp spec fn is_whitespace(c: char) -> bool;

/// `char::is_alphanumeric` of the standard library: whether the scalar
/// value is alphabetic or numeric.  The classification depends on the
/// scalar value alone.
#[verifier::external_body]
fn char_is_alphanumeric(c: char) -> (b: bool)
    ensures
        b == is_alphanumeric(c),
{
    c.is_alphanumeric()
}

/// `char::is_whitespace` of the standard library: whether the scalar value
/// is white space.  The classification depends on the scalar value alone.
#[verifier::external_body]
fn char_is_whitespace(c: char) -> (b: bool)
    ensures
        b == is_whitespace(c),
{
    c.is_whitespace()
}

/// What the lexer can stumble over.
#[derive(Clone, Copy, Debug, PartialEq, Eq, Structural)]
pub enum LexerError {
    /// A scalar value with which no token starts.
    IllegalChar(char),
    /// A backslash in a string literal, followed by this scalar value.
    UnknownEscapeSequence(char),
    /// The source ends inside a string literal.
    UnexpectedEOF,
    /// An integer literal beyond the largest 64-bit integer.
    IntegerOverflow,
}

/// A failure of the lexer, with the line and column where it arose.
#[derive(Clone, Copy, Debug, PartialEq, Eq)]
pub struct MonkeyError {
    pub position: (usize, usize),
    pub error: LexerError,
}

/// Mathematical model of a lexer.
pub struct LexerState {
    /// The lines of the source, each with its newline at the end.
    pub source: Seq<Seq<char>>,
    /// Index of the line of the current scalar value; the number of lines
    /// once the source is exhausted.
    pub line: int,
    /// Index of the current scalar value in its line.
    pub column: int,
    /// Line and column, from one, of the current scalar value; once the
    /// source is exhausted, of the last scalar value that was current.
    pub position: (usize, usize),
    /// Where the last token started.
    pub token_position: (usize, usize),
}

/// The lines of a text, without their terminators, when `current` holds
/// what was read of the line in progress.  A line ends with a line feed,
/// and a carriage return just before the line feed belongs to the
/// terminator.  A last line need not be terminated.
pub open spec fn lines_from(text: Seq<char>, current: Seq<char>) -> Seq<Seq<char>>
    decreases text.len(),
{
    if text.len() == 0 {
        if current.len() == 0 {
            Seq::empty()
        } else {
            seq![current]
        }
    } else if text[0] == '\n' {
        seq![strip_carriage_return(current)] + lines_from(text.drop_first(), Seq::empty())
    } else {
        lines_from(text.drop_first(), current.push(text[0]))
    }
}

/// A line without the carriage return at its end, if it has one.
pub open spec fn strip_carriage_return(line: Seq<char>) -> Seq<char> {
    if line.len() > 0 && line.last() == '\r' {
        line.drop_last()
    } else {
        line
    }
}

/// The lines of a text, without their terminators.
pub open spec fn split_lines(text: Seq<char>) -> Seq<Seq<char>> {
    lines_from(text, Seq::empty())
}

/// The source that the lexer holds for a sequence of lines: each line
/// followed by a newline.
pub open spec fn source_of(lines: Seq<Seq<char>>) -> Seq<Seq<char>> {
    Seq::new(lines.len(), |i: int| lines[i].push('\n'))
}

/// The texts of a sequence of strings.
pub open spec fn texts_of(lines: Seq<String>) -> Seq<Seq<char>> {
    Seq::new(lines.len(), |i: int| lines[i]@)
}

/// The state of a lexer that is about to read the first scalar value of
/// `source`.
pub open spec fn initial_state(source: Seq<Seq<char>>) -> LexerState {
    LexerState {
        source,
        line: 0,
        column: 0,
        position: if source.len() > 0 {
            (1usize, 1usize)
        } else {
            (0usize, 0usize)
        },
        token_position: (0usize, 0usize),
    }
}

/// The current scalar value, or `None` once the source is exhausted.
pub open spec fn current_char_spec(s: LexerState) -> Option<char> {
    if 0 <= s.line < s.source.len() && 0 <= s.column < s.source[s.line].len() {
        Some(s.source[s.line][s.column])
    } else {
        None
    }
}

/// The scalar value after the current one in the same line, or `None` if
/// the current one is the last of its line.
pub open spec fn peek_char_spec(s: LexerState) -> Option<char> {
    if 0 <= s.line < s.source.len() && 0 <= s.column && s.column + 1 < s.source[s.line].len() {
        Some(s.source[s.line][s.column + 1])
    } else {
        None
    }
}

/// The state with the cursor at `line` and `column`, and the position
/// that goes with it.
pub open spec fn moved_to(s: LexerState, line: int, column: int) -> LexerState {
    LexerState {
        line,
        column,
        position: if 0 <= line < s.source.len() {
            ((line + 1) as usize, (column + 1) as usize)
        } else {
            s.position
        },
        ..s
    }
}

/// The state after a step to the next scalar value, which is the first
/// of the next line if the current one is the last of its line.  Once the
/// source is exhausted nothing changes any more.
pub open spec fn read_char_spec(s: LexerState) -> LexerState {
    if current_char_spec(s) is None {
        s
    } else if s.column + 1 < s.source[s.line].len() {
        moved_to(s, s.line, s.column + 1)
    } else {
        moved_to(s, s.line + 1, 0)
    }
}

/// The state after a jump to the first scalar value of the next line.
pub open spec fn read_line_spec(s: LexerState) -> LexerState {
    if current_char_spec(s) is None {
        s
    } else {
        moved_to(s, s.line + 1, 0)
    }
}

/// How much of the current line is still to be read.
pub open spec fn line_rest(s: LexerState) -> int {
    if 0 <= s.line < s.source.len() && 0 <= s.column <= s.source[s.line].len() {
        s.source[s.line].len() - s.column
    } else {
        0
    }
}

/// The state after the white space at and after the current scalar value.
pub open spec fn after_whitespace(s: LexerState) -> LexerState
    decreases s.source.len() - s.line, line_rest(s),
{
    match current_char_spec(s) {
        Some(c) => if is_whitespace(c) {
            after_whitespace(read_char_spec(s))
        } else {
            s
        },
        None => s,
    }
}

/// Whether a comment starts at the current scalar value: two slashes.
pub open spec fn at_comment_spec(s: LexerState) -> bool {
    current_char_spec(s) == Some('/') && peek_char_spec(s) == Some('/')
}

/// The state after the white space and the comments at and after the
/// current scalar value.  A comment runs to the end of its line.
pub open spec fn after_trivia(s: LexerState) -> LexerState
    decreases s.source.len() - s.line, line_rest(s),
{
    match current_char_spec(s) {
        Some(c) => if is_whitespace(c) {
            after_trivia(read_char_spec(s))
        } else if at_comment_spec(s) {
            after_trivia(read_line_spec(s))
        } else {
            s
        },
        None => s,
    }
}

/// Whether a scalar value can stand inside an identifier.
pub open spec fn is_identifier_char(c: char) -> bool {
    is_alphanumeric(c) || c == '_'
}

/// Whether a scalar value is one of the ten decimal digits.
pub open spec fn is_digit(c: char) -> bool {
    '0' <= c <= '9'
}

/// The scalar values of the identifier that starts at the current scalar
/// value, and the state after it.
pub open spec fn identifier_from(s: LexerState) -> (Seq<char>, LexerState)
    decreases s.source.len() - s.line, line_rest(s),
{
    match current_char_spec(s) {
        Some(c) => if is_identifier_char(c) {
            let rest = identifier_from(read_char_spec(s));
            (seq![c] + rest.0, rest.1)
        } else {
            (Seq::empty(), s)
        },
        None => (Seq::empty(), s),
    }
}

/// The digits of the number that starts at the current scalar value, and
/// the state after it.
pub open spec fn digits_from(s: LexerState) -> (Seq<char>, LexerState)
    decreases s.source.len() - s.line, line_rest(s),
{
    match current_char_spec(s) {
        Some(c) => if is_digit(c) {
            let rest = digits_from(read_char_spec(s));
            (seq![c] + rest.0, rest.1)
        } else {
            (Seq::empty(), s)
        },
        None => (Seq::empty(), s),
    }
}

/// The number that a sequence of decimal digits denotes.
pub open spec fn digits_value(digits: Seq<char>) -> nat
    decreases digits.len(),
{
    if digits.len() == 0 {
        0
    } else {
        (digits_value(digits.drop_last()) * 10 + (digits.last() as int - '0' as int)) as nat
    }
}

/// The scalar value that an escape sequence stands for: the one after
/// the backslash decides.
pub open spec fn escape_of(c: char) -> Option<char> {
    if c == '\\' {
        Some('\\')
    } else if c == 'n' {
        Some('\n')
    } else if c == 't' {
        Some('\t')
    } else if c == 'r' {
        Some('\r')
    } else if c == '"' {
        Some('"')
    } else {
        None
    }
}

/// The failure `error` at the position of state `s`.
pub open spec fn error_at(s: LexerState, error: LexerError) -> MonkeyError {
    MonkeyError { position: s.position, error }
}

/// A text with `c` in front, if there is a text.
pub open spec fn with_first(c: char, rest: Result<Seq<char>, MonkeyError>) -> Result<
    Seq<char>,
    MonkeyError,
> {
    match rest {
        Ok(chars) => Ok(seq![c] + chars),
        Err(e) => Err(e),
    }
}

/// The content of the string literal of which the current scalar value
/// is the opening quote or the last scalar value read so far, and the
/// state at the closing quote; or the failure and the state where it
/// arose.
pub open spec fn string_from(s: LexerState) -> (Result<Seq<char>, MonkeyError>, LexerState)
    decreases s.source.len() - s.line, line_rest(s),
{
    let t = read_char_spec(s);
    match current_char_spec(t) {
        None => (Err(error_at(t, LexerError::UnexpectedEOF)), t),
        Some(c) => if c == '"' {
            (Ok(Seq::empty()), t)
        } else if c == '\\' {
            let u = read_char_spec(t);
            match current_char_spec(u) {
                None => (Err(error_at(u, LexerError::UnexpectedEOF)), u),
                Some(e) => match escape_of(e) {
                    Some(unescaped) => {
                        let rest = string_from(u);
                        (with_first(unescaped, rest.0), rest.1)
                    },
                    None => (Err(error_at(u, LexerError::UnknownEscapeSequence(e))), u),
                },
            }
        } else {
            let rest = string_from(t);
            (with_first(c, rest.0), rest.1)
        },
    }
}

/// The keyword that a name is, if it is one.
pub open spec fn keyword_of(name: Seq<char>) -> Option<TokenView> {
    if name == "fn"@ {
        Some(TokenView::Function)
    } else if name == "let"@ {
        Some(TokenView::Let)
    } else if name == "true"@ {
        Some(TokenView::True)
    } else if name == "false"@ {
        Some(TokenView::False)
    } else if name == "if"@ {
        Some(TokenView::If)
    } else if name == "else"@ {
        Some(TokenView::Else)
    } else if name == "return"@ {
        Some(TokenView::Return)
    } else if name == "nil"@ {
        Some(TokenView::Nil)
    } else {
        None
    }
}

/// The token that a name is: a keyword, or else an identifier.
pub open spec fn name_token(name: Seq<char>) -> TokenView {
    match keyword_of(name) {
        Some(keyword) => keyword,
        None => TokenView::Identifier(name),
    }
}

/// The token that a sequence of digits is, or the failure if the number
/// is beyond the largest 64-bit integer.
pub open spec fn number_token(digits: Seq<char>, position: (usize, usize)) -> Result<
    TokenView,
    MonkeyError,
> {
    if digits_value(digits) <= i64::MAX {
        Ok(TokenView::Int(digits_value(digits) as int))
    } else {
        Err(MonkeyError { position, error: LexerError::IntegerOverflow })
    }
}

/// The operator or delimiter that starts with `c`, given the scalar value
/// that follows it in the line, and whether it takes both.
pub open spec fn symbol_of(c: char, peek: Option<char>) -> Option<(TokenView, bool)> {
    if c == '=' {
        if peek == Some('=') {
            Some((TokenView::Equals, true))
        } else {
            Some((TokenView::Assign, false))
        }
    } else if c == '!' {
        if peek == Some('=') {
            Some((TokenView::NotEquals, true))
        } else {
            Some((TokenView::Bang, false))
        }
    } else if c == '<' {
        if peek == Some('=') {
            Some((TokenView::LessEq, true))
        } else {
            Some((TokenView::LessThan, false))
        }
    } else if c == '>' {
        if peek == Some('=') {
            Some((TokenView::GreaterEq, true))
        } else {
            Some((TokenView::GreaterThan, false))
        }
    } else if c == '+' {
        Some((TokenView::Plus, false))
    } else if c == '-' {
        Some((TokenView::Minus, false))
    } else if c == '*' {
        Some((TokenView::Asterisk, false))
    } else if c == '/' {
        Some((TokenView::Slash, false))
    } else if c == '^' {
        Some((TokenView::Exponent, false))
    } else if c == '%' {
        Some((TokenView::Modulo, false))
    } else if c == ',' {
        Some((TokenView::Comma, false))
    } else if c == ';' {
        Some((TokenView::Semicolon, false))
    } else if c == ':' {
        Some((TokenView::Colon, false))
    } else if c == '(' {
        Some((TokenView::OpenParen, false))
    } else if c == ')' {
        Some((TokenView::CloseParen, false))
    } else if c == '{' {
        Some((TokenView::OpenCurlyBrace, false))
    } else if c == '}' {
        Some((TokenView::CloseCurlyBrace, false))
    } else if c == '[' {
        Some((TokenView::OpenSquareBracket, false))
    } else if c == ']' {
        Some((TokenView::CloseSquareBracket, false))
    } else if c == '#' && peek == Some('{') {
        Some((TokenView::OpenHash, true))
    } else {
        None
    }
}

/// The model of the outcome of a lexing step.
pub open spec fn token_result_view(r: Result<Token, MonkeyError>) -> Result<
    TokenView,
    MonkeyError,
> {
    match r {
        Ok(token) => Ok(token@),
        Err(e) => Err(e),
    }
}

/// The token that starts at the current scalar value of `t`, which is
/// neither white space nor the start of a comment, and the state after
/// the token; or the failure and the state where it arose.
pub open spec fn token_at(t: LexerState) -> (Result<TokenView, MonkeyError>, LexerState) {
    match current_char_spec(t) {
        None => (Ok(TokenView::EOF), t),
        Some(c) => match symbol_of(c, peek_char_spec(t)) {
            Some((token, two)) => (
                Ok(token),
                if two {
                    read_char_spec(read_char_spec(t))
                } else {
                    read_char_spec(t)
                },
            ),
            None => if c == '"' {
                let scanned = string_from(t);
                match scanned.0 {
                    Ok(chars) => (Ok(TokenView::Str(chars)), read_char_spec(scanned.1)),
                    Err(e) => (Err(e), scanned.1),
                }
            } else if is_digit(c) {
                let scanned = digits_from(t);
                (number_token(scanned.0, t.token_position), scanned.1)
            } else if is_alphanumeric(c) {
                let scanned = identifier_from(t);
                (Ok(name_token(scanned.0)), scanned.1)
            } else {
                (Err(error_at(t, LexerError::IllegalChar(c))), t)
            },
        },
    }
}

/// The next token and the state after it, or the failure and the state
/// where it arose.  White space and comments before the token are
/// skipped, and the place where the token starts is recorded.
pub open spec fn next_token_spec(s: LexerState) -> (Result<TokenView, MonkeyError>, LexerState) {
    let skipped = after_trivia(s);
    token_at(LexerState { token_position: skipped.position, ..skipped })
}

/// Skipping white space changes neither the source nor the recorded
/// token position, never moves backwards, stops at something that is no
/// white space, and does not change what skipping comments as well leads
/// to.
pub proof fn lemma_after_whitespace(s: LexerState)
    ensures
        after_whitespace(s).source == s.source,
        after_whitespace(s).token_position == s.token_position,
        s.line <= after_whitespace(s).line,
        current_char_spec(s) is None ==> after_whitespace(s) == s,
        current_char_spec(after_whitespace(s)) matches Some(c) ==> !is_whitespace(c),
        after_trivia(after_whitespace(s)) == after_trivia(s),
    decreases s.source.len() - s.line, line_rest(s),
{
    match current_char_spec(s) {
        Some(c) => {
            if is_whitespace(c) {
                lemma_after_whitespace(read_char_spec(s));
            }
        },
        None => {},
    }
}

/// The lexer.
pub struct Lexer {
    lines: Vec<Vec<char>>,
    line: usize,
    column: usize,
    token_position: (usize, usize),
    current_position: (usize, usize),
}

/// The sequences that a vector of vectors stands for.
pub open spec fn lines_view(lines: Seq<Vec<char>>) -> Seq<Seq<char>> {
    Seq::new(lines.len(), |i: int| lines[i]@)
}

impl View for Lexer {
    type V = LexerState;

    closed spec fn view(&self) -> LexerState {
        LexerState {
            source: lines_view(self.lines@),
            line: self.line as int,
            column: self.column as int,
            position: if self.line < self.lines@.len() {
                ((self.line + 1) as usize, (self.column + 1) as usize)
            } else {
                self.current_position
            },
            token_position: self.token_position,
        }
    }
}

/// Copies the scalar values of a text into a vector.
fn chars_of(text: &str) -> (chars: Vec<char>)
    ensures
        chars@ == text@,
{
    let mut out: Vec<char> = Vec::new();
    for c in it: text.chars()
        invariant
            it.seq() == text@,
            out@ == it.seq().take(it.index() as int),
    {
        out.push(c);
        assert(it.seq().take(it.index() + 1) =~= it.seq().take(it.index() as int).push(c));
    }
    assert(text@.take(text@.len() as int) =~= text@);
    out
}

fn is_char(current: Option<char>, expected: char) -> (b: bool)
    ensures
        b == (current == Some(expected)),
{
    match current {
        Some(c) => c == expected,
        None => false,
    }
}

fn is_whitespace_char(current: Option<char>) -> (b: bool)
    ensures
        b == (current matches Some(c) && is_whitespace(c)),
{
    match current {
        Some(c) => char_is_whitespace(c),
        None => false,
    }
}

fn is_identifier_start(current: Option<char>) -> (b: bool)
    ensures
        b == (current matches Some(c) && is_identifier_char(c)),
{
    match current {
        Some(c) => char_is_alphanumeric(c) || c == '_',
        None => false,
    }
}

fn is_digit_char(current: Option<char>) -> (b: bool)
    ensures
        b == (current matches Some(c) && is_digit(c)),
{
    match current {
        Some(c) => '0' <= c && c <= '9',
        None => false,
    }
}

fn unescape(c: char) -> (unescaped: Option<char>)
    ensures
        unescaped == escape_of(c),
{
    if c == '\\' {
        Some('\\')
    } else if c == 'n' {
        Some('\n')
    } else if c == 't' {
        Some('\t')
    } else if c == 'r' {
        Some('\r')
    } else if c == '"' {
        Some('"')
    } else {
        None
    }
}

fn symbol(c: char, peek: Option<char>) -> (found: Option<(Token, bool)>)
    ensures
        found is Some <==> symbol_of(c, peek) is Some,
        found matches Some(pair) ==> {
            let model = symbol_of(c, peek)->Some_0;
            pair.0@ == model.0 && pair.1 == model.1
        },
{
    let twin = is_char(peek, '=');
    if c == '=' {
        if twin {
            Some((Token::Equals, true))
        } else {
            Some((Token::Assign, false))
        }
    } else if c == '!' {
        if twin {
            Some((Token::NotEquals, true))
        } else {
            Some((Token::Bang, false))
        }
    } else if c == '<' {
        if twin {
            Some((Token::LessEq, true))
        } else {
            Some((Token::LessThan, false))
        }
    } else if c == '>' {
        if twin {
            Some((Token::GreaterEq, true))
        } else {
            Some((Token::GreaterThan, false))
        }
    } else if c == '+' {
        Some((Token::Plus, false))
    } else if c == '-' {
        Some((Token::Minus, false))
    } else if c == '*' {
        Some((Token::Asterisk, false))
    } else if c == '/' {
        Some((Token::Slash, false))
    } else if c == '^' {
        Some((Token::Exponent, false))
    } else if c == '%' {
        Some((Token::Modulo, false))
    } else if c == ',' {
        Some((Token::Comma, false))
    } else if c == ';' {
        Some((Token::Semicolon, false))
    } else if c == ':' {
        Some((Token::Colon, false))
    } else if c == '(' {
        Some((Token::OpenParen, false))
    } else if c == ')' {
        Some((Token::CloseParen, false))
    } else if c == '{' {
        Some((Token::OpenCurlyBrace, false))
    } else if c == '}' {
        Some((Token::CloseCurlyBrace, false))
    } else if c == '[' {
        Some((Token::OpenSquareBracket, false))
    } else if c == ']' {
        Some((Token::CloseSquareBracket, false))
    } else if c == '#' && is_char(peek, '{') {
        Some((Token::OpenHash, true))
    } else {
        None
    }
}

impl Lexer {
    #[verifier::type_invariant]
    spec fn inv(&self) -> bool {
        &&& self.line <= self.lines@.len()
        &&& forall|i: int| 0 <= i < self.lines@.len() ==> (#[trigger] self.lines@[i])@.len() > 0
        &&& self.line < self.lines@.len() ==> self.column < self.lines@[self.line as int]@.len()
        &&& self.line == self.lines@.len() ==> self.column == 0
    }

    fn from_lines(lines: Vec<Vec<char>>) -> (lexer: Lexer)
        requires
            forall|i: int| 0 <= i < lines@.len() ==> (#[trigger] lines@[i])@.len() > 0,
        ensures
            lexer@ == initial_state(lines_view(lines@)),
    {
        let position = if lines.len() > 0 {
            (1, 1)
        } else {
            (0, 0)
        };
        Lexer { lines, line: 0, column: 0, token_position: (0, 0), current_position: position }
    }

    /// A lexer on the given lines, which come without their terminators.
    pub fn new(input: Vec<String>) -> (lexer: Lexer)
        ensures
            lexer@ == initial_state(source_of(texts_of(input@))),
    {
        let mut lines: Vec<Vec<char>> = Vec::new();
        let mut i: usize = 0;
        while i < input.len()
            invariant
                i <= input@.len(),
                lines@.len() == i,
                forall|j: int| 0 <= j < i ==> (#[trigger] lines@[j])@ == input@[j]@.push('\n'),
            decreases input@.len() - i,
        {
            let mut line = chars_of(input[i].as_str());
            line.push('\n');
            lines.push(line);
            i += 1;
        }
        assert(lines_view(lines@) =~= source_of(texts_of(input@)));
        Lexer::from_lines(lines)
    }

    /// A lexer on the lines of the given text.
    pub fn from_string(input: String) -> (lexer: Lexer)
        ensures
            lexer@ == initial_state(source_of(split_lines(input@))),
    {
        let chars = chars_of(input.as_str());
        let ghost text = chars@;
        let mut lines: Vec<Vec<char>> = Vec::new();
        let mut current: Vec<char> = Vec::new();
        let mut i: usize = 0;
        // What was split off so far, followed by what the rest will give,
        // is what the whole text gives.
        let ghost mut done: Seq<Seq<char>> = Seq::empty();
        assert(text.skip(0) =~= text);
        assert(done + lines_from(text.skip(0), current@) =~= split_lines(text));
        while i < chars.len()
            invariant
                i <= chars@.len(),
                text == chars@,
                done.len() == lines@.len(),
                forall|j: int|
                    0 <= j < lines@.len() ==> (#[trigger] lines@[j])@ == done[j].push('\n'),
                done + lines_from(text.skip(i as int), current@) == split_lines(text),
            decreases chars@.len() - i,
        {
            let c = chars[i];
            let ghost rest = text.skip(i as int);
            assert(rest[0] == c);
            assert(rest.drop_first() =~= text.skip(i + 1));
            if c == '\n' {
                let ghost whole = current@;
                let n = current.len();
                if n > 0 && current[n - 1] == '\r' {
                    current.pop();
                }
                assert(current@ =~= strip_carriage_return(whole));
                let ghost line = current@;
                current.push('\n');
                lines.push(current);
                current = Vec::new();
                proof {
                    assert(done + (seq![line] + lines_from(text.skip(i + 1), Seq::empty()))
                        =~= done.push(line) + lines_from(text.skip(i + 1), Seq::empty()));
                    done = done.push(line);
                }
            } else {
                current.push(c);
            }
            i += 1;
        }
        assert(text.skip(i as int).len() == 0);
        if current.len() > 0 {
            let ghost line = current@;
            current.push('\n');
            lines.push(current);
            proof {
                assert(done + seq![line] =~= done.push(line));
                done = done.push(line);
            }
        } else {
            assert(done + Seq::<Seq<char>>::empty() =~= done);
        }
        assert(lines_view(lines@) =~= source_of(done));
        Lexer::from_lines(lines)
    }

    /// Where the last token started: line and column, from one.
    pub fn token_position(&self) -> (position: (usize, usize))
        ensures
            position == self@.token_position,
    {
        self.token_position
    }

    /// Line and column, from one, of the current scalar value.
    pub fn current_position(&self) -> (position: (usize, usize))
        ensures
            position == self@.position,
    {
        proof {
            use_type_invariant(self);
        }
        if self.line < self.lines.len() {
            let width = self.lines[self.line].len();
            assert(self.column < width);
            (self.line + 1, self.column + 1)
        } else {
            self.current_position
        }
    }

    /// The current scalar value, or `None` once the source is exhausted.
    pub fn current_char(&self) -> (c: Option<char>)
        ensures
            c == current_char_spec(self@),
    {
        proof {
            use_type_invariant(self);
        }
        if self.line < self.lines.len() {
            Some(self.lines[self.line][self.column])
        } else {
            None
        }
    }

    /// The scalar value after the current one in the same line, or `None`
    /// if the current one is the last of its line.
    pub fn peek_char(&self) -> (c: Option<char>)
        ensures
            c == peek_char_spec(self@),
    {
        proof {
            use_type_invariant(self);
        }
        if self.line < self.lines.len() {
            let width = self.lines[self.line].len();
            if self.column < width - 1 {
                Some(self.lines[self.line][self.column + 1])
            } else {
                None
            }
        } else {
            None
        }
    }

    /// Jumps to the first scalar value of the next line.
    pub fn read_line(&mut self)
        ensures
            final(self)@ == read_line_spec(old(self)@),
    {
        proof {
            use_type_invariant(&*self);
        }
        if self.line < self.lines.len() {
            let width = self.lines[self.line].len();
            assert(self.column < width);
            self.current_position = (self.line + 1, self.column + 1);
            self.column = 0;
            self.line = self.line + 1;
        }
    }

    /// Steps to the next scalar value.
    pub fn read_char(&mut self)
        ensures
            final(self)@ == read_char_spec(old(self)@),
    {
        proof {
            use_type_invariant(&*self);
        }
        if self.line < self.lines.len() {
            let width = self.lines[self.line].len();
            if self.column < width - 1 {
                self.column = self.column + 1;
            } else {
                self.current_position = (self.line + 1, self.column + 1);
                self.column = 0;
                self.line = self.line + 1;
            }
        }
    }

    /// Skips the white space at and after the current scalar value.
    pub fn consume_whitespace(&mut self)
        ensures
            final(self)@ == after_whitespace(old(self)@),
    {
        let mut current = self.current_char();
        while is_whitespace_char(current)
            invariant
                current == current_char_spec(self@),
                after_whitespace(self@) == after_whitespace(old(self)@),
            decreases self@.source.len() - self@.line, line_rest(self@),
        {
            self.read_char();
            current = self.current_char();
        }
    }

    /// Whether a comment starts at the current scalar value.
    fn at_comment(&self) -> (b: bool)
        ensures
            b == at_comment_spec(self@),
    {
        is_char(self.current_char(), '/') && is_char(self.peek_char(), '/')
    }

    /// Reads the identifier or keyword that starts at the current scalar
    /// value.
    pub fn read_identifier(&mut self) -> (token: Token)
        ensures
            token@ == name_token(identifier_from(old(self)@).0),
            final(self)@ == identifier_from(old(self)@).1,
    {
        let mut literal = String::new();
        let mut current = self.current_char();
        assert(literal@ + identifier_from(self@).0 =~= identifier_from(old(self)@).0);
        while is_identifier_start(current)
            invariant
                current == current_char_spec(self@),
                literal@ + identifier_from(self@).0 == identifier_from(old(self)@).0,
                identifier_from(self@).1 == identifier_from(old(self)@).1,
            decreases self@.source.len() - self@.line, line_rest(self@),
        {
            let ghost before = literal@;
            let ghost rest = identifier_from(read_char_spec(self@)).0;
            let ch = current.unwrap();
            push_char(&mut literal, ch);
            self.read_char();
            current = self.current_char();
            assert(before.push(ch) + rest =~= before + (seq![ch] + rest));
        }
        assert(literal@ + Seq::<char>::empty() =~= literal@);
        match Lexer::match_keyword(literal.as_str()) {
            Some(keyword) => keyword,
            None => Token::Identifier(literal),
        }
    }

    /// Reads the integer literal that starts at the current scalar value.
    /// A number beyond the largest 64-bit integer is a failure at the
    /// place where the literal starts.
    pub fn read_number(&mut self) -> (res: Result<Token, MonkeyError>)
        ensures
            token_result_view(res) == number_token(
                digits_from(old(self)@).0,
                old(self)@.token_position,
            ),
            final(self)@ == digits_from(old(self)@).1,
    {
        let mut value: u64 = 0;
        let mut overflow = false;
        let ghost mut digits: Seq<char> = Seq::empty();
        let mut current = self.current_char();
        assert(digits + digits_from(self@).0 =~= digits_from(old(self)@).0);
        while is_digit_char(current)
            invariant
                current == current_char_spec(self@),
                self@.token_position == old(self)@.token_position,
                digits + digits_from(self@).0 == digits_from(old(self)@).0,
                digits_from(self@).1 == digits_from(old(self)@).1,
                !overflow ==> value == digits_value(digits) && value <= i64::MAX,
                overflow ==> digits_value(digits) > i64::MAX,
            decreases self@.source.len() - self@.line, line_rest(self@),
        {
            let ghost rest = digits_from(read_char_spec(self@)).0;
            let ch = current.unwrap();
            let digit: u64 = (ch as u32 - '0' as u32) as u64;
            proof {
                assert(digits.push(ch).drop_last() =~= digits);
                assert(digits.push(ch) + rest =~= digits + (seq![ch] + rest));
                digits = digits.push(ch);
            }
            if !overflow {
                let wide: u128 = value as u128 * 10 + digit as u128;
                if wide > 0x7fff_ffff_ffff_ffffu128 {
                    overflow = true;
                } else {
                    value = wide as u64;
                }
            }
            self.read_char();
            current = self.current_char();
        }
        assert(digits + Seq::<char>::empty() =~= digits);
        if overflow {
            Err(MonkeyError { position: self.token_position, error: LexerError::IntegerOverflow })
        } else {
            Ok(Token::Int(value as i64))
        }
    }

    /// Reads the string literal whose opening quote is the current scalar
    /// value, and stops at its closing quote.
    pub fn read_string(&mut self) -> (res: Result<Token, MonkeyError>)
        ensures
            match string_from(old(self)@).0 {
                Ok(chars) => res is Ok && res->Ok_0@ == TokenView::Str(chars),
                Err(e) => res is Err && res->Err_0 == e,
            },
            final(self)@ == string_from(old(self)@).1,
    {
        let mut result = String::new();
        loop
            invariant
                string_from(self@).1 == string_from(old(self)@).1,
                match string_from(self@).0 {
                    Ok(chars) => string_from(old(self)@).0 == Ok::<Seq<char>, MonkeyError>(
                        result@ + chars,
                    ),
                    Err(e) => string_from(old(self)@).0 == Err::<Seq<char>, MonkeyError>(e),
                },
            decreases self@.source.len() - self@.line, line_rest(self@),
        {
            let ghost before = result@;
            let ghost was_at_end = current_char_spec(self@) is None;
            self.read_char();
            match self.current_char() {
                None => {
                    return Err(
                        MonkeyError {
                            position: self.current_position(),
                            error: LexerError::UnexpectedEOF,
                        },
                    );
                },
                Some(c) => {
                    if c == '"' {
                        assert(before + Seq::<char>::empty() =~= before);
                        return Ok(Token::Str(result));
                    } else if c == '\\' {
                        self.read_char();
                        match self.current_char() {
                            None => {
                                return Err(
                                    MonkeyError {
                                        position: self.current_position(),
                                        error: LexerError::UnexpectedEOF,
                                    },
                                );
                            },
                            Some(e) => {
                                match unescape(e) {
                                    Some(unescaped) => {
                                        push_char(&mut result, unescaped);
                                        proof {
                                            let rest = string_from(self@).0;
                                            if rest is Ok {
                                                assert(before.push(unescaped) + rest->Ok_0
                                                    =~= before + (seq![unescaped]
                                                    + rest->Ok_0));
                                            }
                                        }
                                    },
                                    None => {
                                        return Err(
                                            MonkeyError {
                                                position: self.current_position(),
                                                error: LexerError::UnknownEscapeSequence(e),
                                            },
                                        );
                                    },
                                }
                            },
                        }
                    } else {
                        push_char(&mut result, c);
                        proof {
                            let rest = string_from(self@).0;
                            if rest is Ok {
                                assert(before.push(c) + rest->Ok_0 =~= before + (seq![c]
                                    + rest->Ok_0));
                            }
                        }
                    }
                },
            }
        }
    }

    /// The keyword that a name is, or `None` if it is none.
    pub fn match_keyword(literal: &str) -> (keyword: Option<Token>)
        ensures
            keyword is Some <==> keyword_of(literal@) is Some,
            keyword is Some ==> keyword->0@ == keyword_of(literal@)->0,
    {
        if str_equal(literal, "fn") {
            Some(Token::Function)
        } else if str_equal(literal, "let") {
            Some(Token::Let)
        } else if str_equal(literal, "true") {
            Some(Token::True)
        } else if str_equal(literal, "false") {
            Some(Token::False)
        } else if str_equal(literal, "if") {
            Some(Token::If)
        } else if str_equal(literal, "else") {
            Some(Token::Else)
        } else if str_equal(literal, "return") {
            Some(Token::Return)
        } else if str_equal(literal, "nil") {
            Some(Token::Nil)
        } else {
            None
        }
    }

    /// Reads the next token.  White space and comments before it are
    /// skipped.  At the end of the source the token is `EOF`, again and
    /// again.  After a failure the lexer stands where the failure arose.
    pub fn next_token(&mut self) -> (res: Result<Token, MonkeyError>)
        ensures
            token_result_view(res) == next_token_spec(old(self)@).0,
            final(self)@ == next_token_spec(old(self)@).1,
    {
        proof {
            lemma_after_whitespace(self@);
        }
        self.consume_whitespace();
        while self.at_comment()
            invariant
                after_trivia(self@) == after_trivia(old(self)@),
                current_char_spec(self@) matches Some(c) ==> !is_whitespace(c),
            decreases self@.source.len() - self@.line,
        {
            self.read_line();
            proof {
                lemma_after_whitespace(self@);
            }
            self.consume_whitespace();
            proof {
                use_type_invariant(&*self);
            }
        }
        proof {
            use_type_invariant(&*self);
        }
        self.token_position = self.current_position();
        let c = match self.current_char() {
            None => {
                return Ok(Token::EOF);
            },
            Some(c) => c,
        };
        match symbol(c, self.peek_char()) {
            Some((token, two)) => {
                if two {
                    self.read_char();
                }
                self.read_char();
                Ok(token)
            },
            None => {
                if c == '"' {
                    match self.read_string() {
                        Ok(token) => {
                            self.read_char();
                            Ok(token)
                        },
                        Err(e) => Err(e),
                    }
                } else if '0' <= c && c <= '9' {
                    self.read_number()
                } else if char_is_alphanumeric(c) {
                    Ok(self.read_identifier())
                } else {
                    Err(
                        MonkeyError {
                            position: self.current_position(),
                            error: LexerError::IllegalChar(c),
                        },
                    )
                }
            },
        }
    }
}

} // verus!
