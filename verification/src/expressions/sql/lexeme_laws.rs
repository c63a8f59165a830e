//! What single words, numbers, strings and operators are split into, character by character.

use vstd::prelude::*;

use super::parser::{
    comparison_of, operand_at, operator_of, CmpOp, ComparisonView, OperandView,
};
use super::token::{
    digits_end, number_end, quoted_end, tokens_from, word_end, Keyword, TokenView,
};
use crate::expressions::column_names::is_plain;
use crate::text::{is_white, lower, lowercase, white_end};

verus! {

/// Whether a character is a letter from A to Z, small or capital, a digit or an underscore.
pub open spec fn is_word_char(c: char) -> bool {
    'a' <= c <= 'z' || 'A' <= c <= 'Z' || '0' <= c <= '9' || c == '_'
}

/// Whether a text can be a word: letters, digits and underscores, and no digit at the beginning.
pub open spec fn is_word(word: Seq<char>) -> bool {
    &&& word.len() > 0
    &&& !('0' <= word[0] <= '9')
    &&& forall|i: int| 0 <= i < word.len() ==> is_word_char(#[trigger] word[i])
}

/// Whether two texts are the same but for the case of the letters from A to Z: each character is
/// the same, or one is the small form of the other.
pub open spec fn same_but_case(a: Seq<char>, b: Seq<char>) -> bool {
    &&& a.len() == b.len()
    &&& forall|i: int|
        0 <= i < a.len() ==> #[trigger] a[i] == b[i] || ('A' <= a[i] <= 'Z' && b[i] as int
            == a[i] as int + 32)
}

/// Some tokens after a first one, or why there are none.
pub open spec fn after_token(
    token: TokenView,
    rest: Result<Seq<TokenView>, Seq<char>>,
) -> Result<Seq<TokenView>, Seq<char>> {
    match rest {
        Ok(tokens) => Ok(seq![token] + tokens),
        Err(message) => Err(message),
    }
}

/// Whether a text has a character in a place.
pub open spec fn stands_at(s: Seq<char>, i: int, c: char) -> bool {
    0 <= i < s.len() && s[i] == c
}

/// A text in small letters is the same but for the case of its letters, and has no capital ones.
pub proof fn law_small_letters_are_the_same_but_for_case(s: Seq<char>, small: Seq<char>)
    requires
        forall|i: int| 0 <= i < small.len() ==> !('A' <= #[trigger] small[i] <= 'Z'),
    ensures
        same_but_case(s, small) <==> lowercase(s) == small,
{
    let other = lowercase(s);
    assert(other.len() == s.len());
    if same_but_case(s, small) {
        assert forall|i: int| 0 <= i < s.len() implies other[i] == small[i] by {
            assert(other[i] == lower(s[i]));
            let _ = small[i];
        }
        assert(other =~= small);
    }
    if other == small {
        assert forall|i: int| 0 <= i < s.len() implies #[trigger] s[i] == small[i] || ('A' <= s[i]
            <= 'Z' && small[i] as int == s[i] as int + 32) by {
            assert(other[i] == lower(s[i]));
        }
    }
}

proof fn lemma_whole_word(word: Seq<char>, i: int)
    requires
        is_word(word),
        0 <= i <= word.len(),
    ensures
        word_end(word, i) == word.len(),
    decreases word.len() - i,
{
    if i < word.len() {
        assert(is_word_char(word[i]));
        lemma_whole_word(word, i + 1);
    }
}

proof fn lemma_one_token(s: Seq<char>, token: TokenView)
    requires
        s.len() > 0,
        super::token::lexeme_at(s, 0) == super::token::Lexeme::Token(token, s.len() as int),
    ensures
        tokens_from(s, 0) == Ok::<Seq<TokenView>, Seq<char>>(seq![token]),
{
    reveal_with_fuel(tokens_from, 2);
    assert(seq![token] + Seq::<TokenView>::empty() =~= seq![token]);
}

/// A word that is neither a keyword nor a literal is one identifier, and its name is the word,
/// character for character: the case of its letters is kept.
pub proof fn law_plain_word_is_one_identifier(word: Seq<char>)
    requires
        is_word(word),
        !same_but_case(word, "and"@),
        !same_but_case(word, "or"@),
        !same_but_case(word, "not"@),
        !same_but_case(word, "is"@),
        !same_but_case(word, "null"@),
        !same_but_case(word, "true"@),
        !same_but_case(word, "false"@),
    ensures
        tokens_from(word, 0) == Ok::<Seq<TokenView>, Seq<char>>(seq![TokenView::Ident(word)]),
{
    lemma_reserved_words(word);
    lemma_whole_word(word, 0);
    assert(is_word_char(word[0]));
    assert(word.subrange(0, word.len() as int) =~= word);
    lemma_one_token(word, TokenView::Ident(word));
}

/// What it is to be one of the words with a meaning, whatever the case.
proof fn lemma_reserved_words(word: Seq<char>)
    ensures
        same_but_case(word, "and"@) <==> lowercase(word) == "and"@,
        same_but_case(word, "or"@) <==> lowercase(word) == "or"@,
        same_but_case(word, "not"@) <==> lowercase(word) == "not"@,
        same_but_case(word, "is"@) <==> lowercase(word) == "is"@,
        same_but_case(word, "null"@) <==> lowercase(word) == "null"@,
        same_but_case(word, "true"@) <==> lowercase(word) == "true"@,
        same_but_case(word, "false"@) <==> lowercase(word) == "false"@,
{
    reveal_strlit("and");
    reveal_strlit("or");
    reveal_strlit("not");
    reveal_strlit("is");
    reveal_strlit("null");
    reveal_strlit("true");
    reveal_strlit("false");
    law_small_letters_are_the_same_but_for_case(word, "and"@);
    law_small_letters_are_the_same_but_for_case(word, "or"@);
    law_small_letters_are_the_same_but_for_case(word, "not"@);
    law_small_letters_are_the_same_but_for_case(word, "is"@);
    law_small_letters_are_the_same_but_for_case(word, "null"@);
    law_small_letters_are_the_same_but_for_case(word, "true"@);
    law_small_letters_are_the_same_but_for_case(word, "false"@);
}

/// The words and, or, not and is are keywords in any case, and null, true and false are literals
/// that keep their text.
pub proof fn law_words_with_a_meaning(word: Seq<char>)
    requires
        is_word(word),
    ensures
        same_but_case(word, "and"@) ==> tokens_from(word, 0) == Ok::<Seq<TokenView>, Seq<char>>(
            seq![TokenView::Keyword(Keyword::And)],
        ),
        same_but_case(word, "or"@) ==> tokens_from(word, 0) == Ok::<Seq<TokenView>, Seq<char>>(
            seq![TokenView::Keyword(Keyword::Or)],
        ),
        same_but_case(word, "not"@) ==> tokens_from(word, 0) == Ok::<Seq<TokenView>, Seq<char>>(
            seq![TokenView::Keyword(Keyword::Not)],
        ),
        same_but_case(word, "is"@) ==> tokens_from(word, 0) == Ok::<Seq<TokenView>, Seq<char>>(
            seq![TokenView::Keyword(Keyword::Is)],
        ),
        same_but_case(word, "null"@) || same_but_case(word, "true"@) || same_but_case(
            word,
            "false"@,
        ) ==> tokens_from(word, 0) == Ok::<Seq<TokenView>, Seq<char>>(
            seq![TokenView::Literal(word)],
        ),
{
    lemma_reserved_words(word);
    lemma_whole_word(word, 0);
    assert(is_word_char(word[0]));
    assert(word.subrange(0, word.len() as int) =~= word);
    reveal_strlit("and");
    reveal_strlit("or");
    reveal_strlit("not");
    reveal_strlit("is");
    reveal_strlit("null");
    reveal_strlit("true");
    reveal_strlit("false");
    let small = lowercase(word);
    if small == "and"@ {
        lemma_one_token(word, TokenView::Keyword(Keyword::And));
    } else if small == "or"@ {
        assert(small.len() != 3);
        lemma_one_token(word, TokenView::Keyword(Keyword::Or));
    } else if small == "not"@ {
        lemma_one_token(word, TokenView::Keyword(Keyword::Not));
    } else if small == "is"@ {
        assert(small[0] == 'i');
        lemma_one_token(word, TokenView::Keyword(Keyword::Is));
    } else if small == "null"@ || small == "true"@ || small == "false"@ {
        lemma_one_token(word, TokenView::Literal(word));
    }
}

/// A word within a text ends where its letters, digits and underscores do: without a meaning of its
/// own it is an identifier with just those characters, and what follows is split on its own.
pub proof fn law_word_ends_before_another_character(word: Seq<char>, rest: Seq<char>)
    requires
        is_word(word),
        rest.len() > 0,
        !is_word_char(rest[0]),
        rest[0] != '\'',
        !gives_a_type(word),
        !same_but_case(word, "and"@),
        !same_but_case(word, "or"@),
        !same_but_case(word, "not"@),
        !same_but_case(word, "is"@),
        !same_but_case(word, "null"@),
        !same_but_case(word, "true"@),
        !same_but_case(word, "false"@),
    ensures
        tokens_from(word + rest, 0) == after_token(
            TokenView::Ident(word),
            tokens_from(word + rest, word.len() as int),
        ),
{
    let s = word + rest;
    lemma_reserved_words(word);
    assert(s[word.len() as int] == rest[0]);
    assert forall|j: int| 0 <= j < word.len() implies #[trigger] s[j] == word[j] by {
    }
    lemma_word_before(s, word, 0);
    assert(s.subrange(0, word.len() as int) =~= word);
    assert(is_word_char(word[0]));
    assert(s[0] == word[0]);
    reveal_strlit("date");
    reveal_strlit("timestamp");
    reveal_strlit("timestamp_ltz");
    reveal_strlit("timestamp_ntz");
    law_small_letters_are_the_same_but_for_case(word, "date"@);
    law_small_letters_are_the_same_but_for_case(word, "timestamp"@);
    law_small_letters_are_the_same_but_for_case(word, "timestamp_ltz"@);
    law_small_letters_are_the_same_but_for_case(word, "timestamp_ntz"@);
}

/// Digits and points within a text end where another character follows that is no exponent; what
/// follows is split on its own.
pub proof fn law_number_ends_before_another_character(number: Seq<char>, rest: Seq<char>)
    requires
        number.len() > 0,
        '0' <= number[0] <= '9',
        forall|j: int| 0 <= j < number.len() ==> '0' <= #[trigger] number[j] <= '9' || number[j]
            == '.',
        rest.len() > 0,
        !('0' <= rest[0] <= '9') && rest[0] != '.' && rest[0] != 'e' && rest[0] != 'E',
    ensures
        tokens_from(number + rest, 0) == after_token(
            TokenView::Number(number),
            tokens_from(number + rest, number.len() as int),
        ),
{
    let s = number + rest;
    let n = number.len() as int;
    assert(s[n] == rest[0]);
    assert forall|j: int| 0 <= j < n implies '0' <= #[trigger] s[j] <= '9' || s[j] == '.' by {
        assert(s[j] == number[j]);
    }
    lemma_digits_end(s, 0, n, true);
    assert(s[0] == number[0]);
    assert(number_end(s, 0) == n);
    assert(s.subrange(0, n) =~= number);
}

/// Blanks, tabs and ends of lines are white space, and no character of a word, a number, a string or
/// an operator is.
pub proof fn law_usual_white_space(c: char)
    ensures
        c == ' ' || c == '\t' || c == '\n' || c == '\r' ==> is_white(c),
        is_word_char(c) || c == '.' || c == '\'' || c == '`' || c == '<' || c == '>' || c == '='
            || c == '!' || c == '+' || c == '-' ==> !is_white(c),
{
}

// ---------------------------------------------------------------------------------------------
// Numbers
// ---------------------------------------------------------------------------------------------

proof fn lemma_digits_end(s: Seq<char>, i: int, k: int, dots: bool)
    requires
        0 <= i <= k <= s.len(),
        forall|j: int|
            i <= j < k ==> '0' <= #[trigger] s[j] <= '9' || (dots && s[j] == '.'),
        k < s.len() ==> !('0' <= s[k] <= '9') && s[k] != '.',
    ensures
        digits_end(s, i, dots) == k,
    decreases k - i,
{
    if i < k {
        assert('0' <= s[i] <= '9' || (dots && s[i] == '.'));
        lemma_digits_end(s, i + 1, k, dots);
    }
}

/// Digits and points, with a digit first or a point and a digit, are one number with that text.
pub proof fn law_digits_are_one_number(s: Seq<char>)
    requires
        s.len() > 0,
        forall|j: int| 0 <= j < s.len() ==> '0' <= #[trigger] s[j] <= '9' || s[j] == '.',
        s[0] == '.' ==> s.len() > 1 && s[1] != '.',
    ensures
        tokens_from(s, 0) == Ok::<Seq<TokenView>, Seq<char>>(seq![TokenView::Number(s)]),
{
    lemma_digits_end(s, 0, s.len() as int, true);
    assert('0' <= s[0] <= '9' || s[0] == '.');
    if s[0] == '.' {
        assert('0' <= s[1] <= '9' || s[1] == '.');
    }
    assert(number_end(s, 0) == s.len());
    assert(s.subrange(0, s.len() as int) =~= s);
    lemma_one_token(s, TokenView::Number(s));
}

/// Digits and points, the letter e in either case, a sign if there is one, and digits are one number
/// with that text.
pub proof fn law_exponent_is_part_of_the_number(s: Seq<char>, k: int, from: int)
    requires
        0 < k < s.len(),
        '0' <= s[0] <= '9',
        forall|j: int| 0 <= j < k ==> '0' <= #[trigger] s[j] <= '9' || s[j] == '.',
        s[k] == 'e' || s[k] == 'E',
        from == k + 1 || (from == k + 2 && (stands_at(s, k + 1, '+') || stands_at(s, k + 1, '-'))),
        from < s.len(),
        forall|j: int| from <= j < s.len() ==> '0' <= #[trigger] s[j] <= '9',
    ensures
        tokens_from(s, 0) == Ok::<Seq<TokenView>, Seq<char>>(seq![TokenView::Number(s)]),
{
    lemma_digits_end(s, 0, k, true);
    assert('0' <= s[from] <= '9');
    lemma_digits_end(s, from, s.len() as int, false);
    assert(number_end(s, 0) == s.len());
    assert(s.subrange(0, s.len() as int) =~= s);
    lemma_one_token(s, TokenView::Number(s));
}

// ---------------------------------------------------------------------------------------------
// Strings
// ---------------------------------------------------------------------------------------------

/// A text with each quote doubled.
pub open spec fn quotes_doubled(text: Seq<char>) -> Seq<char>
    decreases text.len(),
{
    if text.len() == 0 {
        Seq::empty()
    } else if text[0] == '\'' {
        seq!['\'', '\''] + quotes_doubled(text.skip(1))
    } else {
        seq![text[0]] + quotes_doubled(text.skip(1))
    }
}

/// A text within quotes.
pub open spec fn in_quotes(text: Seq<char>) -> Seq<char> {
    seq!['\''] + quotes_doubled(text) + seq!['\'']
}

proof fn lemma_quoted(s: Seq<char>, i: int, text: Seq<char>)
    requires
        0 <= i,
        i + quotes_doubled(text).len() + 1 == s.len(),
        s.subrange(i, s.len() as int) == quotes_doubled(text) + seq!['\''],
    ensures
        quoted_end(s, i) == Some(s.len() as int),
    decreases text.len(),
{
    let tail = s.subrange(i, s.len() as int);
    let inner = quotes_doubled(text);
    if text.len() == 0 {
        assert(tail[0] == '\'');
        assert(s[i] == '\'');
    } else {
        let rest = text.skip(1);
        let n = if text[0] == '\'' {
            2int
        } else {
            1int
        };
        assert(tail[0] == text[0]);
        assert(s[i] == text[0]);
        if n == 2 {
            assert(tail[1] == '\'');
            assert(s[i + 1] == '\'');
        }
        assert(s.subrange(i + n, s.len() as int) =~= tail.skip(n));
        assert(tail.skip(n) =~= quotes_doubled(rest) + seq!['\'']);
        lemma_quoted(s, i + n, rest);
    }
}

/// A text within quotes, its own quotes doubled, is one literal that keeps the quotes.
pub proof fn law_quoted_text_is_one_literal(text: Seq<char>)
    ensures
        tokens_from(in_quotes(text), 0) == Ok::<Seq<TokenView>, Seq<char>>(
            seq![TokenView::Literal(in_quotes(text))],
        ),
{
    let s = in_quotes(text);
    assert(s.subrange(1, s.len() as int) =~= quotes_doubled(text) + seq!['\'']);
    lemma_quoted(s, 1, text);
    assert(s[0] == '\'');
    assert(Seq::<char>::empty() + s.subrange(0, s.len() as int) =~= s);
    lemma_one_token(s, TokenView::Literal(s));
}

/// The words that give a string after them a type.
pub open spec fn gives_a_type(word: Seq<char>) -> bool {
    ||| same_but_case(word, "date"@)
    ||| same_but_case(word, "timestamp"@)
    ||| same_but_case(word, "timestamp_ltz"@)
    ||| same_but_case(word, "timestamp_ntz"@)
}

proof fn lemma_type_words(word: Seq<char>)
    requires
        gives_a_type(word),
    ensures
        super::token::is_type_word(lowercase(word)),
        is_word(word),
        super::token::keyword_of(lowercase(word)) is None,
        lowercase(word) != "null"@ && lowercase(word) != "true"@ && lowercase(word) != "false"@,
        lowercase(word) != "x"@,
{
    reveal_strlit("date");
    reveal_strlit("timestamp");
    reveal_strlit("timestamp_ltz");
    reveal_strlit("timestamp_ntz");
    reveal_strlit("and");
    reveal_strlit("or");
    reveal_strlit("not");
    reveal_strlit("is");
    reveal_strlit("null");
    reveal_strlit("true");
    reveal_strlit("false");
    reveal_strlit("x");
    law_small_letters_are_the_same_but_for_case(word, "date"@);
    law_small_letters_are_the_same_but_for_case(word, "timestamp"@);
    law_small_letters_are_the_same_but_for_case(word, "timestamp_ltz"@);
    law_small_letters_are_the_same_but_for_case(word, "timestamp_ntz"@);
    let small = lowercase(word);
    assert(small[0] == 'd' || small[0] == 't');
    assert(small.len() == word.len());
    assert forall|i: int| 0 <= i < word.len() implies is_word_char(#[trigger] word[i]) by {
        assert(small[i] == lower(word[i]));
        assert(is_word_char(small[i]));
    }
    assert(small[0] == lower(word[0]));
    assert(small[1] == 'a' || small[1] == 'i');
}

proof fn lemma_word_before(s: Seq<char>, word: Seq<char>, i: int)
    requires
        0 <= i <= word.len() < s.len(),
        forall|j: int| 0 <= j < word.len() ==> #[trigger] s[j] == word[j],
        forall|j: int| 0 <= j < word.len() ==> is_word_char(#[trigger] word[j]),
        !is_word_char(s[word.len() as int]),
    ensures
        word_end(s, i) == word.len(),
    decreases word.len() - i,
{
    if i < word.len() {
        assert(s[i] == word[i]);
        assert(is_plain(s[i]) == is_word_char(s[i]));
        lemma_word_before(s, word, i + 1);
    } else {
        assert(is_plain(s[i]) == is_word_char(s[i]));
    }
}

proof fn lemma_white_before(s: Seq<char>, i: int, k: int)
    requires
        0 <= i <= k < s.len(),
        forall|j: int| i <= j < k ==> is_white(#[trigger] s[j]),
        !is_white(s[k]),
    ensures
        white_end(s, i) == k,
    decreases k - i,
{
    if i < k {
        assert(is_white(s[i]));
        lemma_white_before(s, i + 1, k);
    }
}

/// A word for a type, white space if there is some, and a text within quotes are one literal: the
/// word as it is written, one blank, and the quoted text.
pub proof fn law_typed_string_is_one_literal(word: Seq<char>, gap: Seq<char>, text: Seq<char>)
    requires
        gives_a_type(word),
        forall|j: int| 0 <= j < gap.len() ==> is_white(#[trigger] gap[j]),
    ensures
        tokens_from(word + gap + in_quotes(text), 0) == Ok::<Seq<TokenView>, Seq<char>>(
            seq![TokenView::Literal(word + seq![' '] + in_quotes(text))],
        ),
{
    let s = word + gap + in_quotes(text);
    let n = word.len() as int;
    let quote = n + gap.len();
    lemma_type_words(word);
    assert forall|j: int| 0 <= j < n implies #[trigger] s[j] == word[j] by {
    }
    assert(s[quote] == in_quotes(text)[0]);
    assert(in_quotes(text)[0] == '\'');
    if gap.len() > 0 {
        assert(s[n] == gap[0]);
        assert(is_white(gap[0]));
    }
    lemma_word_before(s, word, 0);
    assert forall|j: int| n <= j < quote implies is_white(#[trigger] s[j]) by {
        assert(s[j] == gap[j - n]);
    }
    lemma_white_before(s, n, quote);
    assert(s.subrange(quote + 1, s.len() as int) =~= quotes_doubled(text) + seq!['\'']);
    lemma_quoted(s, quote + 1, text);
    assert(s.subrange(0, n) =~= word);
    assert(s.subrange(quote, s.len() as int) =~= in_quotes(text));
    reveal_strlit(" ");
    assert(" "@ =~= seq![' ']);
    assert(is_word_char(word[0]));
    assert(s[0] == word[0]);
    lemma_one_token(s, TokenView::Literal(word + seq![' '] + in_quotes(text)));
}

/// The letter x in either case and a text within quotes right after it are one literal.
pub proof fn law_bytes_in_hexadecimal_are_one_literal(x: char, text: Seq<char>)
    requires
        x == 'x' || x == 'X',
    ensures
        tokens_from(seq![x] + in_quotes(text), 0) == Ok::<Seq<TokenView>, Seq<char>>(
            seq![TokenView::Literal(seq![x] + in_quotes(text))],
        ),
{
    let word = seq![x];
    let s = word + in_quotes(text);
    reveal_strlit("and");
    reveal_strlit("or");
    reveal_strlit("not");
    reveal_strlit("is");
    reveal_strlit("null");
    reveal_strlit("true");
    reveal_strlit("false");
    reveal_strlit("x");
    assert(lowercase(word).len() == 1);
    assert(lowercase(word)[0] == lower(x));
    assert(lower(x) == 'x');
    assert(lowercase(word) =~= "x"@);
    assert(s[1] == in_quotes(text)[0]);
    assert(in_quotes(text)[0] == '\'');
    lemma_word_before(s, word, 0);
    assert(s.subrange(2, s.len() as int) =~= quotes_doubled(text) + seq!['\'']);
    lemma_quoted(s, 2, text);
    assert(s.subrange(0, 1) =~= word);
    assert(s.subrange(1, s.len() as int) =~= in_quotes(text));
    assert(s[0] == x);
    lemma_one_token(s, TokenView::Literal(s));
}

// ---------------------------------------------------------------------------------------------
// Operators
// ---------------------------------------------------------------------------------------------

/// Each operator is one token, the longest one that the characters make; what follows is split on
/// its own.
pub proof fn law_operators_are_single_tokens(s: Seq<char>, i: int)
    requires
        0 <= i < s.len(),
    ensures
        s[i] == '=' && stands_at(s, i + 1, '=') ==> tokens_from(s, i) == after_token(
            TokenView::Eq,
            tokens_from(s, i + 2),
        ),
        s[i] == '=' && !stands_at(s, i + 1, '=') ==> tokens_from(s, i) == after_token(
            TokenView::Eq,
            tokens_from(s, i + 1),
        ),
        s[i] == '<' && stands_at(s, i + 1, '=') && stands_at(s, i + 2, '>') ==> tokens_from(s, i)
            == after_token(TokenView::NullSafeEq, tokens_from(s, i + 3)),
        s[i] == '<' && stands_at(s, i + 1, '=') && !stands_at(s, i + 2, '>') ==> tokens_from(s, i)
            == after_token(TokenView::Le, tokens_from(s, i + 2)),
        s[i] == '<' && stands_at(s, i + 1, '>') ==> tokens_from(s, i) == after_token(
            TokenView::Ne,
            tokens_from(s, i + 2),
        ),
        s[i] == '<' && !stands_at(s, i + 1, '=') && !stands_at(s, i + 1, '>') ==> tokens_from(s, i)
            == after_token(TokenView::Lt, tokens_from(s, i + 1)),
        s[i] == '>' && stands_at(s, i + 1, '=') ==> tokens_from(s, i) == after_token(
            TokenView::Ge,
            tokens_from(s, i + 2),
        ),
        s[i] == '>' && !stands_at(s, i + 1, '=') ==> tokens_from(s, i) == after_token(
            TokenView::Gt,
            tokens_from(s, i + 1),
        ),
        s[i] == '!' && stands_at(s, i + 1, '=') ==> tokens_from(s, i) == after_token(
            TokenView::Ne,
            tokens_from(s, i + 2),
        ),
        s[i] == '!' && stands_at(s, i + 1, '>') ==> tokens_from(s, i) == after_token(
            TokenView::Le,
            tokens_from(s, i + 2),
        ),
        s[i] == '!' && stands_at(s, i + 1, '<') ==> tokens_from(s, i) == after_token(
            TokenView::Ge,
            tokens_from(s, i + 2),
        ),
        s[i] == '+' ==> tokens_from(s, i) == after_token(TokenView::Plus, tokens_from(s, i + 1)),
        s[i] == '-' ==> tokens_from(s, i) == after_token(TokenView::Minus, tokens_from(s, i + 1)),
        s[i] == '.' && (i + 1 >= s.len() || !('0' <= s[i + 1] <= '9')) ==> tokens_from(s, i)
            == after_token(TokenView::Dot, tokens_from(s, i + 1)),
{
}

/// A text that begins with a character that no token begins with cannot be split, nor can one with a
/// string or a quoted name that does not end.
pub proof fn law_texts_that_cannot_be_split(s: Seq<char>, i: int)
    requires
        0 <= i < s.len(),
    ensures
        s[i] == '!' && !stands_at(s, i + 1, '=') && !stands_at(s, i + 1, '<') && !stands_at(s, i + 1, '>')
            ==> tokens_from(s, i) is Err,
        s[i] == '(' || s[i] == ')' || s[i] == '*' || s[i] == '/' || s[i] == ';' || s[i] == ','
            || s[i] == '"' ==> tokens_from(s, i) is Err,
        s[i] == '\'' && (forall|j: int| i < j < s.len() ==> #[trigger] s[j] != '\'') ==> tokens_from(
            s,
            i,
        ) is Err,
{
    if s[i] == '\'' && (forall|j: int| i < j < s.len() ==> #[trigger] s[j] != '\'') {
        lemma_not_closed(s, i + 1);
    }
}

proof fn lemma_not_closed(s: Seq<char>, i: int)
    requires
        0 <= i,
        forall|j: int| i <= j < s.len() ==> #[trigger] s[j] != '\'',
    ensures
        quoted_end(s, i) is None,
    decreases s.len() - i,
{
    if i < s.len() {
        lemma_not_closed(s, i + 1);
    }
}

// ---------------------------------------------------------------------------------------------
// Comparisons
// ---------------------------------------------------------------------------------------------

/// Each comparison operator is read as itself, and no other token is one.
pub proof fn law_operators_compare_as_they_say(token: TokenView)
    ensures
        operator_of(Some(TokenView::Lt)) == Some(CmpOp::Lt),
        operator_of(Some(TokenView::Le)) == Some(CmpOp::Le),
        operator_of(Some(TokenView::Gt)) == Some(CmpOp::Gt),
        operator_of(Some(TokenView::Ge)) == Some(CmpOp::Ge),
        operator_of(Some(TokenView::Eq)) == Some(CmpOp::Eq),
        operator_of(Some(TokenView::Ne)) == Some(CmpOp::Ne),
        operator_of(Some(TokenView::NullSafeEq)) == Some(CmpOp::NullSafeEq),
        token is Ident || token is Number || token is Literal || token is Dot || token is Plus
            || token is Minus || token is Keyword ==> operator_of(Some(token)) is None,
        operator_of(None) is None,
{
}

/// A number, with or without a sign, is a literal with its text on either side of a comparison.
pub proof fn law_numbers_are_literals_on_both_sides(
    left: Seq<char>,
    right: Seq<char>,
    operator: TokenView,
)
    requires
        operator_of(Some(operator)) is Some,
    ensures
        comparison_of(seq![TokenView::Number(left), operator, TokenView::Number(right)]) == Ok::<
            ComparisonView,
            Seq<char>,
        >(
            ComparisonView {
                op: operator_of(Some(operator))->0,
                left: OperandView::Literal(left),
                right: OperandView::Literal(right),
            },
        ),
        comparison_of(
            seq![TokenView::Number(left), operator, TokenView::Minus, TokenView::Number(right)],
        ) == Ok::<ComparisonView, Seq<char>>(
            ComparisonView {
                op: operator_of(Some(operator))->0,
                left: OperandView::Literal(left),
                right: OperandView::Literal(seq!['-'] + right),
            },
        ),
{
    reveal_strlit("-");
    assert("-"@ =~= seq!['-']);
}

/// A comparison takes all tokens: where some follow, there is none; nor without an operator between
/// two operands.
pub proof fn law_one_comparison_and_nothing_else(tokens: Seq<TokenView>, end: int, last: int)
    requires
        operand_at(tokens, 0) matches Ok((_, i)) && i == end,
    ensures
        end >= tokens.len() ==> comparison_of(tokens) is Err,
        end < tokens.len() && operator_of(Some(tokens[end])) is None ==> comparison_of(
            tokens,
        ) is Err,
        (operand_at(tokens, end + 1) matches Ok((_, i)) && i == last) && last < tokens.len()
            ==> comparison_of(tokens) is Err,
        operand_at(tokens, end + 1) is Err ==> comparison_of(tokens) is Err,
{
}

} // verus!
