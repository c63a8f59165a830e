//! A tokenizer for a subset of SQL.
//!
//! It splits text into [`Token`]s; what the tokens mean is up to the caller. Literals keep their
//! source text. For example, `` `col1` > 5 `` is split into `Ident("col1")`, `Gt` and `Number("5")`.

use vstd::prelude::*;
use vstd::std_specs::cmp::PartialEqSpecImpl;

use crate::error::{DeltaResult, Error};
use crate::expressions::column_names::{
    doubled, escaped_name, is_plain, is_plain_char, law_written_name_is_read_back,
    parse_escaped_field_name,
};
use crate::number::{is_ascii_digit, is_digit};
use crate::text::{
    from_chars, is_text_in_any_case, is_white, is_whitespace, lowercase, skip_white, to_chars,
    white_end,
};

verus! {

/// A keyword.
#[derive(Debug, Clone, Copy, PartialEq, Eq, Structural)]
pub enum Keyword {
    /// `AND`.
    And,
    /// `OR`.
    Or,
    /// `NOT`.
    Not,
    /// `IS`.
    Is,
}

/// A token.
#[derive(Debug)]
pub enum Token {
    /// A name.
    Ident(String),
    /// A number without a sign, in its source text, such as `42`, `.5` or `2e+1`.
    Number(String),
    /// Another literal in its source text, with its quotes and the keyword before them.
    Literal(String),
    /// `.`.
    Dot,
    /// `<`.
    Lt,
    /// `<=` or `!>`.
    Le,
    /// `>`.
    Gt,
    /// `>=` or `!<`.
    Ge,
    /// `=` or `==`.
    Eq,
    /// `<>` or `!=`.
    Ne,
    /// `<=>`, which is true of two nulls.
    NullSafeEq,
    /// `+`.
    Plus,
    /// `-`.
    Minus,
    /// A keyword.
    Keyword(Keyword),
}

/// What a token is.
pub enum TokenView {
    /// A name.
    Ident(Seq<char>),
    /// A number without a sign.
    Number(Seq<char>),
    /// Another literal.
    Literal(Seq<char>),
    /// `.`.
    Dot,
    /// `<`.
    Lt,
    /// `<=` or `!>`.
    Le,
    /// `>`.
    Gt,
    /// `>=` or `!<`.
    Ge,
    /// `=` or `==`.
    Eq,
    /// `<>` or `!=`.
    Ne,
    /// `<=>`.
    NullSafeEq,
    /// `+`.
    Plus,
    /// `-`.
    Minus,
    /// A keyword.
    Keyword(Keyword),
}

impl View for Token {
    type V = TokenView;

    open spec fn view(&self) -> TokenView {
        match self {
            Token::Ident(s) => TokenView::Ident(s@),
            Token::Number(s) => TokenView::Number(s@),
            Token::Literal(s) => TokenView::Literal(s@),
            Token::Dot => TokenView::Dot,
            Token::Lt => TokenView::Lt,
            Token::Le => TokenView::Le,
            Token::Gt => TokenView::Gt,
            Token::Ge => TokenView::Ge,
            Token::Eq => TokenView::Eq,
            Token::Ne => TokenView::Ne,
            Token::NullSafeEq => TokenView::NullSafeEq,
            Token::Plus => TokenView::Plus,
            Token::Minus => TokenView::Minus,
            Token::Keyword(k) => TokenView::Keyword(*k),
        }
    }
}

impl Clone for Token {
    fn clone(&self) -> (r: Token)
        ensures
            r@ == self@,
    {
        match self {
            Token::Ident(s) => Token::Ident(s.clone()),
            Token::Number(s) => Token::Number(s.clone()),
            Token::Literal(s) => Token::Literal(s.clone()),
            Token::Dot => Token::Dot,
            Token::Lt => Token::Lt,
            Token::Le => Token::Le,
            Token::Gt => Token::Gt,
            Token::Ge => Token::Ge,
            Token::Eq => Token::Eq,
            Token::Ne => Token::Ne,
            Token::NullSafeEq => Token::NullSafeEq,
            Token::Plus => Token::Plus,
            Token::Minus => Token::Minus,
            Token::Keyword(k) => Token::Keyword(*k),
        }
    }
}

impl Token {
    /// Whether two tokens are the same.
    pub fn same(&self, other: &Token) -> (r: bool)
        ensures
            r == (self@ == other@),
    {
        match (self, other) {
            (Token::Ident(a), Token::Ident(b)) => *a == *b,
            (Token::Number(a), Token::Number(b)) => *a == *b,
            (Token::Literal(a), Token::Literal(b)) => *a == *b,
            (Token::Dot, Token::Dot) => true,
            (Token::Lt, Token::Lt) => true,
            (Token::Le, Token::Le) => true,
            (Token::Gt, Token::Gt) => true,
            (Token::Ge, Token::Ge) => true,
            (Token::Eq, Token::Eq) => true,
            (Token::Ne, Token::Ne) => true,
            (Token::NullSafeEq, Token::NullSafeEq) => true,
            (Token::Plus, Token::Plus) => true,
            (Token::Minus, Token::Minus) => true,
            (Token::Keyword(a), Token::Keyword(b)) => *a == *b,
            _ => false,
        }
    }
}

impl PartialEq for Token {
    fn eq(&self, other: &Token) -> (r: bool) {
        self.same(other)
    }
}

impl PartialEqSpecImpl for Token {
    open spec fn obeys_eq_spec() -> bool {
        true
    }

    open spec fn eq_spec(&self, other: &Token) -> bool {
        self@ == other@
    }
}

/// What some tokens are.
pub open spec fn tokens_view(tokens: Seq<Token>) -> Seq<TokenView> {
    tokens.map_values(|token: Token| token@)
}

// ---------------------------------------------------------------------------------------------
// What a token is made of
// ---------------------------------------------------------------------------------------------

/// What comes at a place in a text: white space, a token, or something that is neither.
pub enum Lexeme {
    /// White space.
    White,
    /// A token, and the place after it.
    Token(TokenView, int),
    /// A text that cannot be split, and why.
    Failure(Seq<char>),
}

/// Whether a place holds a character.
pub open spec fn holds(s: Seq<char>, i: int, c: char) -> bool {
    0 <= i < s.len() && s[i] == c
}

/// The place after the digits, and where `dots` is set the points, from `i` on.
pub open spec fn digits_end(s: Seq<char>, i: int, dots: bool) -> int
    decreases s.len() - i,
{
    if 0 <= i < s.len() && (is_digit(s[i]) || (dots && s[i] == '.')) {
        digits_end(s, i + 1, dots)
    } else {
        i
    }
}

/// The place after the number at `i`: digits and points, then an exponent, if there is one, with or
/// without a sign.
pub open spec fn number_end(s: Seq<char>, i: int) -> int {
    let mantissa = digits_end(s, i, true);
    if holds(s, mantissa, 'e') || holds(s, mantissa, 'E') {
        let sign = mantissa + 1;
        let exponent = if holds(s, sign, '+') || holds(s, sign, '-') {
            sign + 1
        } else {
            sign
        };
        digits_end(s, exponent, false)
    } else {
        mantissa
    }
}

/// The place after the closing quote of a string that goes on at `i`; two quotes do not close it.
pub open spec fn quoted_end(s: Seq<char>, i: int) -> Option<int>
    decreases s.len() - i,
{
    if i >= s.len() {
        None
    } else if s[i] != '\'' {
        quoted_end(s, i + 1)
    } else if holds(s, i + 1, '\'') {
        quoted_end(s, i + 2)
    } else {
        Some(i + 1)
    }
}

/// The place after the letters, digits and underscores from `i` on.
pub open spec fn word_end(s: Seq<char>, i: int) -> int
    decreases s.len() - i,
{
    if 0 <= i < s.len() && is_plain(s[i]) {
        word_end(s, i + 1)
    } else {
        i
    }
}

/// The message for a character that begins no token.
pub open spec fn unexpected_text(c: char, sql: Seq<char>) -> Seq<char> {
    "unexpected character '"@ + seq![c] + "' in "@ + sql
}

/// The message for a string without a closing quote.
pub open spec fn unterminated_text(sql: Seq<char>) -> Seq<char> {
    "unterminated string literal in "@ + sql
}

/// The message for a quoted name without a closing backtick.
pub open spec fn unclosed_text(sql: Seq<char>) -> Seq<char> {
    "unterminated quoted field name in "@ + sql
}

/// The string whose opening quote is at `i`, after `before`.
pub open spec fn string_at(s: Seq<char>, i: int, before: Seq<char>) -> Lexeme {
    match quoted_end(s, i + 1) {
        Some(end) => Lexeme::Token(TokenView::Literal(before + s.subrange(i, end)), end),
        None => Lexeme::Failure(unterminated_text(s)),
    }
}

/// The keyword that a word in small letters is.
pub open spec fn keyword_of(word: Seq<char>) -> Option<Keyword> {
    if word == "and"@ {
        Some(Keyword::And)
    } else if word == "or"@ {
        Some(Keyword::Or)
    } else if word == "not"@ {
        Some(Keyword::Not)
    } else if word == "is"@ {
        Some(Keyword::Is)
    } else {
        None
    }
}

/// Whether a word in small letters, before a string, gives the string a type.
pub open spec fn is_type_word(word: Seq<char>) -> bool {
    ||| word == "date"@
    ||| word == "timestamp"@
    ||| word == "timestamp_ltz"@
    ||| word == "timestamp_ntz"@
}

/// What the word at `i` is: a keyword, a literal, the beginning of a literal, or a name.
pub open spec fn word_at(s: Seq<char>, i: int) -> Lexeme {
    let end = word_end(s, i);
    let word = s.subrange(i, end);
    let lower = lowercase(word);
    match keyword_of(lower) {
        Some(keyword) => Lexeme::Token(TokenView::Keyword(keyword), end),
        None => {
            let quote = white_end(s, end);
            if lower == "null"@ || lower == "true"@ || lower == "false"@ {
                Lexeme::Token(TokenView::Literal(word), end)
            } else if lower == "x"@ && holds(s, end, '\'') {
                string_at(s, end, word)
            } else if is_type_word(lower) && holds(s, quote, '\'') {
                string_at(s, quote, word + " "@)
            } else {
                Lexeme::Token(TokenView::Ident(word), end)
            }
        },
    }
}

/// What comes at `i`.
pub open spec fn lexeme_at(s: Seq<char>, i: int) -> Lexeme {
    let c = s[i];
    if is_white(c) {
        Lexeme::White
    } else if c == '.' {
        if i + 1 < s.len() && is_digit(s[i + 1]) {
            Lexeme::Token(TokenView::Number(s.subrange(i, number_end(s, i))), number_end(s, i))
        } else {
            Lexeme::Token(TokenView::Dot, i + 1)
        }
    } else if c == '=' {
        Lexeme::Token(
            TokenView::Eq,
            if holds(s, i + 1, '=') {
                i + 2
            } else {
                i + 1
            },
        )
    } else if c == '<' {
        if holds(s, i + 1, '=') {
            if holds(s, i + 2, '>') {
                Lexeme::Token(TokenView::NullSafeEq, i + 3)
            } else {
                Lexeme::Token(TokenView::Le, i + 2)
            }
        } else if holds(s, i + 1, '>') {
            Lexeme::Token(TokenView::Ne, i + 2)
        } else {
            Lexeme::Token(TokenView::Lt, i + 1)
        }
    } else if c == '>' {
        if holds(s, i + 1, '=') {
            Lexeme::Token(TokenView::Ge, i + 2)
        } else {
            Lexeme::Token(TokenView::Gt, i + 1)
        }
    } else if c == '!' {
        if holds(s, i + 1, '=') {
            Lexeme::Token(TokenView::Ne, i + 2)
        } else if holds(s, i + 1, '>') {
            Lexeme::Token(TokenView::Le, i + 2)
        } else if holds(s, i + 1, '<') {
            Lexeme::Token(TokenView::Ge, i + 2)
        } else {
            Lexeme::Failure(unexpected_text('!', s))
        }
    } else if c == '\'' {
        string_at(s, i, Seq::empty())
    } else if c == '`' {
        match escaped_name(s, i + 1) {
            Some((name, end)) => Lexeme::Token(TokenView::Ident(name), end),
            None => Lexeme::Failure(unclosed_text(s)),
        }
    } else if c == '+' {
        Lexeme::Token(TokenView::Plus, i + 1)
    } else if c == '-' {
        Lexeme::Token(TokenView::Minus, i + 1)
    } else if is_digit(c) {
        Lexeme::Token(TokenView::Number(s.subrange(i, number_end(s, i))), number_end(s, i))
    } else if is_plain(c) {
        word_at(s, i)
    } else {
        Lexeme::Failure(unexpected_text(c, s))
    }
}

/// The tokens from `i` on, or why the text cannot be split.
pub open spec fn tokens_from(s: Seq<char>, i: int) -> Result<Seq<TokenView>, Seq<char>>
    decreases s.len() - i,
{
    if i < 0 || i >= s.len() {
        Ok(Seq::empty())
    } else {
        match lexeme_at(s, i) {
            Lexeme::White => tokens_from(s, i + 1),
            Lexeme::Failure(message) => Err(message),
            Lexeme::Token(token, end) => if i < end <= s.len() {
                match tokens_from(s, end) {
                    Ok(rest) => Ok(seq![token] + rest),
                    Err(message) => Err(message),
                }
            } else {
                Ok(Seq::empty())
            },
        }
    }
}

// ---------------------------------------------------------------------------------------------
// Splitting a text
// ---------------------------------------------------------------------------------------------

fn peek(s: &[char], i: usize, c: char) -> (r: bool)
    ensures
        r == holds(s@, i as int, c),
{
    i < s.len() && s[i] == c
}

fn text_between(s: &[char], from: usize, to: usize) -> (r: String)
    requires
        from <= to <= s@.len(),
    ensures
        r@ == s@.subrange(from as int, to as int),
{
    from_chars(vstd::slice::slice_subrange(s, from, to))
}

fn skip_digits(s: &[char], from: usize, dots: bool) -> (r: usize)
    requires
        from <= s@.len(),
    ensures
        r == digits_end(s@, from as int, dots),
        from <= r <= s@.len(),
        from < s@.len() && (is_digit(s@[from as int]) || (dots && s@[from as int] == '.')) ==> from
            < r,
{
    let mut i: usize = from;
    while i < s.len() && (is_ascii_digit(s[i]) || (dots && s[i] == '.'))
        invariant
            from <= i <= s@.len(),
            digits_end(s@, from as int, dots) == digits_end(s@, i as int, dots),
        decreases s@.len() - i,
    {
        i += 1;
    }
    i
}

/// The number at `from`, and the place after it.
fn take_number(s: &[char], from: usize) -> (r: (String, usize))
    requires
        from < s@.len(),
        is_digit(s@[from as int]) || s@[from as int] == '.',
    ensures
        r.1 == number_end(s@, from as int),
        from < r.1 <= s@.len(),
        r.0@ == s@.subrange(from as int, r.1 as int),
{
    let len: usize = s.len();
    let mut end: usize = skip_digits(s, from, true);
    if peek(s, end, 'e') || peek(s, end, 'E') {
        end += 1;
        if peek(s, end, '+') || peek(s, end, '-') {
            end += 1;
        }
        end = skip_digits(s, end, false);
    }
    (text_between(s, from, end), end)
}

/// The place after the closing quote of the string whose opening quote is at `from`.
fn skip_quoted(s: &[char], from: usize) -> (r: Option<usize>)
    requires
        from < s@.len(),
    ensures
        match quoted_end(s@, from + 1) {
            Some(end) => r matches Some(e) && e == end,
            None => r is None,
        },
        r matches Some(end) ==> from < end <= s@.len(),
{
    let len: usize = s.len();
    let mut i: usize = from + 1;
    while i < len
        invariant
            from < i <= s@.len(),
            len == s@.len(),
            quoted_end(s@, from + 1) == quoted_end(s@, i as int),
        decreases s@.len() - i,
    {
        if s[i] != '\'' {
            i += 1;
        } else if i + 1 < len && s[i + 1] == '\'' {
            i += 2;
        } else {
            return Some(i + 1);
        }
    }
    None
}

/// Appends an error message about `sql`.
fn error_about(before: &str, sql: &str) -> (r: Error)
    ensures
        r matches Error::Generic(message) && message@ == before@ + sql@,
{
    let mut message: String = before.to_owned();
    message.append(sql);
    Error::Generic(message)
}

/// The error for a character that begins no token.
fn unexpected(c: char, sql: &str) -> (r: Error)
    ensures
        r matches Error::Generic(message) && message@ == unexpected_text(c, sql@),
{
    let mut message: String = "unexpected character '".to_owned();
    message.push(c);
    message.append("' in ");
    message.append(sql);
    assert(message@ =~= unexpected_text(c, sql@));
    Error::Generic(message)
}

/// The string whose opening quote is at `from`, with its quotes, after `before`; and the place after
/// it.
fn take_quoted_string(s: &[char], from: usize, before: &str, sql: &str) -> (r: DeltaResult<
    (String, usize),
>)
    requires
        from < s@.len(),
        s@ == sql@,
    ensures
        match string_at(s@, from as int, before@) {
            Lexeme::Token(token, end) => r matches Ok((text, e)) && token == TokenView::Literal(
                text@,
            ) && e == end && from < e <= s@.len(),
            Lexeme::Failure(message) => r matches Err(Error::Generic(text)) && text@ == message,
            Lexeme::White => false,
        },
{
    match skip_quoted(s, from) {
        Some(end) => {
            let mut text: String = before.to_owned();
            text.append(text_between(s, from, end).as_str());
            Ok((text, end))
        },
        None => Err(error_about("unterminated string literal in ", sql)),
    }
}

/// The token that the word at `from` is or begins, and the place after it.
fn classify_word(s: &[char], from: usize, sql: &str) -> (r: DeltaResult<(Token, usize)>)
    requires
        from < s@.len(),
        is_plain(s@[from as int]),
        s@ == sql@,
    ensures
        match word_at(s@, from as int) {
            Lexeme::Token(token, end) => r matches Ok((t, e)) && t@ == token && e == end && from < e
                <= s@.len(),
            Lexeme::Failure(message) => r matches Err(Error::Generic(text)) && text@ == message,
            Lexeme::White => false,
        },
{
    let mut end: usize = from;
    while end < s.len() && is_plain_char(s[end])
        invariant
            from <= end <= s@.len(),
            word_end(s@, from as int) == word_end(s@, end as int),
        decreases s@.len() - end,
    {
        end += 1;
    }
    let word: &[char] = vstd::slice::slice_subrange(s, from, end);
    assert(word@ =~= s@.subrange(from as int, end as int));
    if is_text_in_any_case(word, "and") {
        return Ok((Token::Keyword(Keyword::And), end));
    }
    if is_text_in_any_case(word, "or") {
        return Ok((Token::Keyword(Keyword::Or), end));
    }
    if is_text_in_any_case(word, "not") {
        return Ok((Token::Keyword(Keyword::Not), end));
    }
    if is_text_in_any_case(word, "is") {
        return Ok((Token::Keyword(Keyword::Is), end));
    }
    let text: String = from_chars(word);
    if is_text_in_any_case(word, "null") || is_text_in_any_case(word, "true")
        || is_text_in_any_case(word, "false") {
        return Ok((Token::Literal(text), end));
    }
    if is_text_in_any_case(word, "x") && peek(s, end, '\'') {
        return match take_quoted_string(s, end, text.as_str(), sql) {
            Ok((literal, after)) => Ok((Token::Literal(literal), after)),
            Err(error) => Err(error),
        };
    }
    let quote: usize = skip_white(s, end);
    let typed: bool = is_text_in_any_case(word, "date") || is_text_in_any_case(word, "timestamp")
        || is_text_in_any_case(word, "timestamp_ltz") || is_text_in_any_case(
        word,
        "timestamp_ntz",
    );
    if typed && peek(s, quote, '\'') {
        let mut before: String = text;
        before.append(" ");
        return match take_quoted_string(s, quote, before.as_str(), sql) {
            Ok((literal, after)) => Ok((Token::Literal(literal), after)),
            Err(error) => Err(error),
        };
    }
    Ok((Token::Ident(text), end))
}

/// What comes at `i`: white space (`None`), or a token and the place after it.
fn next_token(s: &[char], i: usize, sql: &str) -> (r: DeltaResult<Option<(Token, usize)>>)
    requires
        i < s@.len(),
        s@ == sql@,
    ensures
        match lexeme_at(s@, i as int) {
            Lexeme::White => r == Ok::<Option<(Token, usize)>, Error>(None),
            Lexeme::Token(token, end) => r matches Ok(Some((t, e))) && t@ == token && e == end && i
                < e <= s@.len(),
            Lexeme::Failure(message) => r matches Err(Error::Generic(text)) && text@ == message,
        },
{
    let len: usize = s.len();
    let c: char = s[i];
    if is_whitespace(c) {
        return Ok(None);
    }
    let found: (Token, usize) = if c == '.' {
        if i + 1 < len && is_ascii_digit(s[i + 1]) {
            let (text, end): (String, usize) = take_number(s, i);
            (Token::Number(text), end)
        } else {
            (Token::Dot, i + 1)
        }
    } else if c == '=' {
        if peek(s, i + 1, '=') {
            (Token::Eq, i + 2)
        } else {
            (Token::Eq, i + 1)
        }
    } else if c == '<' {
        if peek(s, i + 1, '=') {
            if peek(s, i + 2, '>') {
                (Token::NullSafeEq, i + 3)
            } else {
                (Token::Le, i + 2)
            }
        } else if peek(s, i + 1, '>') {
            (Token::Ne, i + 2)
        } else {
            (Token::Lt, i + 1)
        }
    } else if c == '>' {
        if peek(s, i + 1, '=') {
            (Token::Ge, i + 2)
        } else {
            (Token::Gt, i + 1)
        }
    } else if c == '!' {
        if peek(s, i + 1, '=') {
            (Token::Ne, i + 2)
        } else if peek(s, i + 1, '>') {
            (Token::Le, i + 2)
        } else if peek(s, i + 1, '<') {
            (Token::Ge, i + 2)
        } else {
            return Err(unexpected('!', sql));
        }
    } else if c == '\'' {
        match take_quoted_string(s, i, "", sql) {
            Ok((text, end)) => {
                proof {
                    reveal_strlit("");
                    assert(""@ =~= Seq::<char>::empty());
                }
                (Token::Literal(text), end)
            },
            Err(error) => {
                return Err(error);
            },
        }
    } else if c == '`' {
        match parse_escaped_field_name(s, i + 1) {
            Some((name, end)) => (Token::Ident(name), end),
            None => {
                return Err(error_about("unterminated quoted field name in ", sql));
            },
        }
    } else if c == '+' {
        (Token::Plus, i + 1)
    } else if c == '-' {
        (Token::Minus, i + 1)
    } else if is_ascii_digit(c) {
        let (text, end): (String, usize) = take_number(s, i);
        (Token::Number(text), end)
    } else if is_plain_char(c) {
        match classify_word(s, i, sql) {
            Ok(found) => found,
            Err(error) => {
                return Err(error);
            },
        }
    } else {
        return Err(unexpected(c, sql));
    };
    Ok(Some(found))
}

/// The tokens of a text, or an error for a text that cannot be split into tokens.
pub fn tokenize(sql: &str) -> (r: DeltaResult<Vec<Token>>)
    ensures
        match tokens_from(sql@, 0) {
            Ok(tokens) => r matches Ok(found) && tokens_view(found@) == tokens,
            Err(message) => r matches Err(Error::Generic(text)) && text@ == message,
        },
{
    let chars: Vec<char> = to_chars(sql);
    let s: &[char] = chars.as_slice();
    let mut tokens: Vec<Token> = Vec::new();
    let mut i: usize = 0;
    assert(tokens_from(sql@, 0) matches Ok(rest) ==> tokens_view(tokens@) + rest =~= rest);
    while i < s.len()
        invariant
            i <= s@.len(),
            s@ == sql@,
            match (tokens_from(sql@, 0), tokens_from(sql@, i as int)) {
                (Ok(all), Ok(rest)) => all == tokens_view(tokens@) + rest,
                (Err(message), Err(other)) => message == other,
                _ => false,
            },
        decreases s@.len() - i,
    {
        match next_token(s, i, sql) {
            Err(error) => {
                return Err(error);
            },
            Ok(None) => {
                i += 1;
            },
            Ok(Some((token, end))) => {
                let ghost before = tokens_view(tokens@);
                let ghost view = token@;
                tokens.push(token);
                proof {
                    assert(tokens_view(tokens@) =~= before.push(view));
                    if let Ok(rest) = tokens_from(sql@, end as int) {
                        assert(before.push(view) + rest =~= before + (seq![view] + rest));
                    }
                }
                i = end;
            },
        }
    }
    assert(tokens_view(tokens@) + Seq::<TokenView>::empty() =~= tokens_view(tokens@));
    Ok(tokens)
}

// ---------------------------------------------------------------------------------------------
// Laws
// ---------------------------------------------------------------------------------------------

/// White space alone makes no tokens.
pub proof fn law_white_space_makes_no_tokens(s: Seq<char>, i: int)
    requires
        0 <= i,
        forall|j: int| 0 <= j < s.len() ==> is_white(#[trigger] s[j]),
    ensures
        tokens_from(s, i) == Ok::<Seq<TokenView>, Seq<char>>(Seq::empty()),
    decreases s.len() - i,
{
    if i < s.len() {
        assert(is_white(s[i]));
        law_white_space_makes_no_tokens(s, i + 1);
    }
}

/// The end of a word of plain characters is its length.
proof fn lemma_word_end(word: Seq<char>, i: int)
    requires
        0 <= i <= word.len(),
        forall|j: int| 0 <= j < word.len() ==> is_plain(#[trigger] word[j]),
    ensures
        word_end(word, i) == word.len(),
    decreases word.len() - i,
{
    if i < word.len() {
        assert(is_plain(word[i]));
        lemma_word_end(word, i + 1);
    }
}

/// A word is a keyword whatever the case of its letters.
pub proof fn law_keyword_in_any_case(word: Seq<char>, keyword: Keyword)
    requires
        word.len() > 0,
        !is_digit(word[0]),
        forall|j: int| 0 <= j < word.len() ==> is_plain(#[trigger] word[j]),
        keyword_of(lowercase(word)) == Some(keyword),
    ensures
        tokens_from(word, 0) == Ok::<Seq<TokenView>, Seq<char>>(
            seq![TokenView::Keyword(keyword)],
        ),
{
    lemma_word_end(word, 0);
    assert(is_plain(word[0]));
    assert(word.subrange(0, word.len() as int) =~= word);
    reveal_with_fuel(tokens_from, 2);
    assert(seq![TokenView::Keyword(keyword)] + Seq::<TokenView>::empty() =~= seq![
        TokenView::Keyword(keyword),
    ]);
}

/// A name within backticks is one identifier, whatever the name holds, so a column can have the name
/// of a keyword.
pub proof fn law_quoted_name_is_one_identifier(name: Seq<char>)
    ensures
        tokens_from(seq!['`'] + doubled(name, name.len()) + seq!['`'], 0) == Ok::<
            Seq<TokenView>,
            Seq<char>,
        >(seq![TokenView::Ident(name)]),
{
    let s = seq!['`'] + doubled(name, name.len()) + seq!['`'];
    law_written_name_is_read_back(name, seq!['`'], Seq::empty());
    assert(seq!['`'] + doubled(name, name.len()) + seq!['`'] + Seq::<char>::empty() =~= s);
    assert(s[0] == '`');
    reveal_with_fuel(tokens_from, 2);
    assert(seq![TokenView::Ident(name)] + Seq::<TokenView>::empty() =~= seq![
        TokenView::Ident(name),
    ]);
}

} // verus!
