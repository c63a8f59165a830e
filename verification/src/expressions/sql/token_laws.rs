//! What holds of splitting texts that stand side by side.

use vstd::prelude::*;

use super::token::{
    digits_end, holds, is_type_word, keyword_of, lexeme_at, number_end, quoted_end, string_at,
    tokens_from, word_at, word_end, Lexeme, TokenView,
};
use crate::expressions::column_names::{escaped_name, is_plain};
use crate::number::is_digit;
use crate::text::{is_white, lowercase, white_end};

verus! {

// ---------------------------------------------------------------------------------------------
// A text that white space follows
// ---------------------------------------------------------------------------------------------

/// Whether a text begins with another one, and white space comes after that.
spec fn white_follows(a: Seq<char>, s: Seq<char>) -> bool {
    &&& a.len() < s.len()
    &&& forall|i: int| 0 <= i < a.len() ==> #[trigger] s[i] == a[i]
    &&& is_white(s[a.len() as int])
}

proof fn lemma_digits_before_white(a: Seq<char>, s: Seq<char>, i: int, dots: bool)
    requires
        white_follows(a, s),
        0 <= i <= a.len(),
    ensures
        digits_end(s, i, dots) == digits_end(a, i, dots),
        i <= digits_end(a, i, dots) <= a.len(),
    decreases a.len() - i,
{
    if i < a.len() && (is_digit(a[i]) || (dots && a[i] == '.')) {
        lemma_digits_before_white(a, s, i + 1, dots);
    }
}

proof fn lemma_number_before_white(a: Seq<char>, s: Seq<char>, i: int)
    requires
        white_follows(a, s),
        0 <= i < a.len(),
        is_digit(a[i]) || a[i] == '.',
    ensures
        number_end(s, i) == number_end(a, i),
        i < number_end(a, i) <= a.len(),
{
    lemma_digits_before_white(a, s, i + 1, true);
    let mantissa = digits_end(a, i, true);
    assert(mantissa == digits_end(a, i + 1, true));
    assert(digits_end(s, i, true) == mantissa);
    if holds(a, mantissa, 'e') || holds(a, mantissa, 'E') {
        let sign = mantissa + 1;
        lemma_digits_before_white(a, s, sign, false);
        if holds(a, sign, '+') || holds(a, sign, '-') {
            lemma_digits_before_white(a, s, sign + 1, false);
        }
    }
}

proof fn lemma_quoted_before_white(a: Seq<char>, s: Seq<char>, i: int)
    requires
        white_follows(a, s),
        0 <= i,
        quoted_end(a, i) is Some,
    ensures
        quoted_end(s, i) == quoted_end(a, i),
        i < quoted_end(a, i)->Some_0 <= a.len(),
    decreases a.len() - i,
{
    if a[i] != '\'' {
        lemma_quoted_before_white(a, s, i + 1);
    } else if holds(a, i + 1, '\'') {
        lemma_quoted_before_white(a, s, i + 2);
    }
}

proof fn lemma_word_before_white(a: Seq<char>, s: Seq<char>, i: int)
    requires
        white_follows(a, s),
        0 <= i <= a.len(),
    ensures
        word_end(s, i) == word_end(a, i),
        i <= word_end(a, i) <= a.len(),
    decreases a.len() - i,
{
    if i < a.len() && is_plain(a[i]) {
        lemma_word_before_white(a, s, i + 1);
    }
}

proof fn lemma_gap_before_white(a: Seq<char>, s: Seq<char>, i: int)
    requires
        white_follows(a, s),
        0 <= i <= a.len(),
    ensures
        i <= white_end(a, i) <= a.len(),
        white_end(a, i) < a.len() ==> white_end(s, i) == white_end(a, i),
        white_end(a, i) == a.len() ==> white_end(s, i) == white_end(s, a.len() as int),
    decreases a.len() - i,
{
    if i < a.len() && is_white(a[i]) {
        lemma_gap_before_white(a, s, i + 1);
    }
}

proof fn lemma_name_before_white(a: Seq<char>, s: Seq<char>, i: int)
    requires
        white_follows(a, s),
        0 <= i,
        escaped_name(a, i) is Some,
    ensures
        escaped_name(s, i) == escaped_name(a, i),
        i < escaped_name(a, i)->Some_0.1 <= a.len(),
    decreases a.len() - i,
{
    if a[i] != '`' {
        lemma_name_before_white(a, s, i + 1);
    } else if i + 1 < a.len() && a[i + 1] == '`' {
        lemma_name_before_white(a, s, i + 2);
    }
}

proof fn lemma_string_before_white(a: Seq<char>, s: Seq<char>, i: int, before: Seq<char>)
    requires
        white_follows(a, s),
        0 <= i < a.len(),
        !(string_at(a, i, before) is Failure),
    ensures
        string_at(s, i, before) == string_at(a, i, before),
        string_at(a, i, before) matches Lexeme::Token(_, end) && i < end <= a.len(),
{
    lemma_quoted_before_white(a, s, i + 1);
    let end = quoted_end(a, i + 1)->Some_0;
    assert(s.subrange(i, end) =~= a.subrange(i, end));
}

proof fn lemma_word_token_before_white(a: Seq<char>, s: Seq<char>, i: int)
    requires
        white_follows(a, s),
        !holds(s, white_end(s, a.len() as int), '\''),
        0 <= i < a.len(),
        is_plain(a[i]),
        !(word_at(a, i) is Failure),
    ensures
        word_at(s, i) == word_at(a, i),
        word_at(a, i) matches Lexeme::Token(_, end) && i < end <= a.len(),
{
    lemma_word_before_white(a, s, i + 1);
    let end = word_end(a, i);
    assert(end == word_end(a, i + 1));
    let word = a.subrange(i, end);
    assert(s.subrange(i, end) =~= word);
    lemma_gap_before_white(a, s, end);
    let lower = lowercase(word);
    if keyword_of(lower) is None && !(lower == "null"@ || lower == "true"@ || lower == "false"@) {
        assert(holds(s, end, '\'') == holds(a, end, '\''));
        let quote = white_end(a, end);
        assert(holds(s, white_end(s, end), '\'') == holds(a, quote, '\''));
        if lower == "x"@ && holds(a, end, '\'') {
            lemma_string_before_white(a, s, end, word);
        } else if is_type_word(lower) && holds(a, quote, '\'') {
            lemma_string_before_white(a, s, quote, word + " "@);
        }
    }
}

/// White space after a text, with no string after it, changes nothing that the text holds.
proof fn lemma_lexeme_before_white(a: Seq<char>, s: Seq<char>, i: int)
    requires
        white_follows(a, s),
        !holds(s, white_end(s, a.len() as int), '\''),
        0 <= i < a.len(),
        !(lexeme_at(a, i) is Failure),
    ensures
        lexeme_at(s, i) == lexeme_at(a, i),
        lexeme_at(a, i) matches Lexeme::Token(_, end) ==> i < end <= a.len(),
{
    let c = a[i];
    assert(s[i] == c);
    assert forall|j: int, d: char| 0 <= j <= a.len() && !is_white(d) implies #[trigger] holds(
        s,
        j,
        d,
    ) == holds(a, j, d) by {}
    if is_white(c) {
    } else if c == '.' {
        if i + 1 < a.len() && is_digit(a[i + 1]) {
            lemma_number_before_white(a, s, i);
            assert(s.subrange(i, number_end(a, i)) =~= a.subrange(i, number_end(a, i)));
        } else {
            assert(!is_digit(s[i + 1]));
        }
    } else if c == '\'' {
        lemma_string_before_white(a, s, i, Seq::empty());
    } else if c == '`' {
        lemma_name_before_white(a, s, i + 1);
    } else if is_digit(c) {
        lemma_number_before_white(a, s, i);
        assert(s.subrange(i, number_end(a, i)) =~= a.subrange(i, number_end(a, i)));
    } else if is_plain(c) {
        lemma_word_token_before_white(a, s, i);
    }
}

/// The tokens of a text come before those of what follows it after white space.
proof fn lemma_tokens_before_white(a: Seq<char>, s: Seq<char>, i: int)
    requires
        white_follows(a, s),
        !holds(s, white_end(s, a.len() as int), '\''),
        0 <= i <= a.len(),
        tokens_from(a, i) is Ok,
        tokens_from(s, a.len() as int) is Ok,
    ensures
        tokens_from(s, i) == Ok::<Seq<TokenView>, Seq<char>>(
            tokens_from(a, i)->Ok_0 + tokens_from(s, a.len() as int)->Ok_0,
        ),
    decreases a.len() - i,
{
    let rest = tokens_from(s, a.len() as int)->Ok_0;
    if i < a.len() {
        lemma_lexeme_before_white(a, s, i);
        match lexeme_at(a, i) {
            Lexeme::White => {
                lemma_tokens_before_white(a, s, i + 1);
            },
            Lexeme::Token(token, end) => {
                lemma_tokens_before_white(a, s, end);
                let own = tokens_from(a, end)->Ok_0;
                assert(seq![token] + (own + rest) =~= seq![token] + own + rest);
            },
            Lexeme::Failure(_) => {},
        }
    } else {
        assert(Seq::<TokenView>::empty() + rest =~= rest);
    }
}

// ---------------------------------------------------------------------------------------------
// A text at the end of another one
// ---------------------------------------------------------------------------------------------

/// Whether a text ends with another one, from `k` on.
spec fn ends_with(s: Seq<char>, k: int, b: Seq<char>) -> bool {
    &&& 0 <= k
    &&& s.len() == k + b.len()
    &&& forall|j: int| 0 <= j < b.len() ==> #[trigger] b[j] == s[k + j]
}

proof fn lemma_holds_at_end(s: Seq<char>, k: int, b: Seq<char>, j: int, c: char)
    requires
        ends_with(s, k, b),
        0 <= j,
    ensures
        holds(s, k + j, c) == holds(b, j, c),
{
    if j < b.len() {
        assert(b[j] == s[k + j]);
    }
}

proof fn lemma_digits_at_end(s: Seq<char>, k: int, b: Seq<char>, j: int, dots: bool)
    requires
        ends_with(s, k, b),
        0 <= j,
    ensures
        digits_end(s, k + j, dots) == k + digits_end(b, j, dots),
        j <= digits_end(b, j, dots),
        j <= b.len() ==> digits_end(b, j, dots) <= b.len(),
    decreases b.len() - j,
{
    if j < b.len() {
        assert(b[j] == s[k + j]);
        if is_digit(b[j]) || (dots && b[j] == '.') {
            lemma_digits_at_end(s, k, b, j + 1, dots);
        }
    }
}

proof fn lemma_number_at_end(s: Seq<char>, k: int, b: Seq<char>, j: int)
    requires
        ends_with(s, k, b),
        0 <= j < b.len(),
        is_digit(b[j]) || b[j] == '.',
    ensures
        number_end(s, k + j) == k + number_end(b, j),
        j < number_end(b, j) <= b.len(),
{
    lemma_digits_at_end(s, k, b, j, true);
    lemma_digits_at_end(s, k, b, j + 1, true);
    let mantissa = digits_end(b, j, true);
    assert(mantissa == digits_end(b, j + 1, true));
    lemma_holds_at_end(s, k, b, mantissa, 'e');
    lemma_holds_at_end(s, k, b, mantissa, 'E');
    lemma_holds_at_end(s, k, b, mantissa + 1, '+');
    lemma_holds_at_end(s, k, b, mantissa + 1, '-');
    lemma_digits_at_end(s, k, b, mantissa + 1, false);
    lemma_digits_at_end(s, k, b, mantissa + 2, false);
}

proof fn lemma_quoted_at_end(s: Seq<char>, k: int, b: Seq<char>, j: int)
    requires
        ends_with(s, k, b),
        0 <= j,
        quoted_end(b, j) is Some,
    ensures
        quoted_end(s, k + j) == Some(k + quoted_end(b, j)->Some_0),
        j < quoted_end(b, j)->Some_0 <= b.len(),
    decreases b.len() - j,
{
    assert(b[j] == s[k + j]);
    lemma_holds_at_end(s, k, b, j + 1, '\'');
    if b[j] != '\'' {
        lemma_quoted_at_end(s, k, b, j + 1);
    } else if holds(b, j + 1, '\'') {
        lemma_quoted_at_end(s, k, b, j + 2);
    }
}

proof fn lemma_word_at_end(s: Seq<char>, k: int, b: Seq<char>, j: int)
    requires
        ends_with(s, k, b),
        0 <= j <= b.len(),
    ensures
        word_end(s, k + j) == k + word_end(b, j),
        j <= word_end(b, j) <= b.len(),
    decreases b.len() - j,
{
    if j < b.len() {
        assert(b[j] == s[k + j]);
        if is_plain(b[j]) {
            lemma_word_at_end(s, k, b, j + 1);
        }
    }
}

proof fn lemma_gap_at_end(s: Seq<char>, k: int, b: Seq<char>, j: int)
    requires
        ends_with(s, k, b),
        0 <= j <= b.len(),
    ensures
        white_end(s, k + j) == k + white_end(b, j),
        j <= white_end(b, j) <= b.len(),
    decreases b.len() - j,
{
    if j < b.len() {
        assert(b[j] == s[k + j]);
        if is_white(b[j]) {
            lemma_gap_at_end(s, k, b, j + 1);
        }
    }
}

proof fn lemma_name_at_end(s: Seq<char>, k: int, b: Seq<char>, j: int)
    requires
        ends_with(s, k, b),
        0 <= j,
        escaped_name(b, j) is Some,
    ensures
        escaped_name(s, k + j) == Some(
            (escaped_name(b, j)->Some_0.0, k + escaped_name(b, j)->Some_0.1),
        ),
        j < escaped_name(b, j)->Some_0.1 <= b.len(),
    decreases b.len() - j,
{
    assert(b[j] == s[k + j]);
    if j + 1 < b.len() {
        assert(b[j + 1] == s[k + (j + 1)]);
    }
    if b[j] != '`' {
        lemma_name_at_end(s, k, b, j + 1);
    } else if j + 1 < b.len() && b[j + 1] == '`' {
        lemma_name_at_end(s, k, b, j + 2);
    }
}

/// A piece of a text that stands at the end of another one.
proof fn lemma_piece_at_end(s: Seq<char>, k: int, b: Seq<char>, from: int, to: int)
    requires
        ends_with(s, k, b),
        0 <= from <= to <= b.len(),
    ensures
        s.subrange(k + from, k + to) == b.subrange(from, to),
{
    assert forall|j: int| 0 <= j < to - from implies #[trigger] s.subrange(k + from, k + to)[j]
        == b.subrange(from, to)[j] by {
        assert(b[from + j] == s[k + (from + j)]);
    }
    assert(s.subrange(k + from, k + to) =~= b.subrange(from, to));
}

proof fn lemma_string_at_end(s: Seq<char>, k: int, b: Seq<char>, j: int, before: Seq<char>)
    requires
        ends_with(s, k, b),
        0 <= j < b.len(),
        !(string_at(b, j, before) is Failure),
    ensures
        string_at(b, j, before) matches Lexeme::Token(token, end) && string_at(s, k + j, before)
            == Lexeme::Token(token, k + end) && j < end <= b.len(),
{
    lemma_quoted_at_end(s, k, b, j + 1);
    lemma_piece_at_end(s, k, b, j, quoted_end(b, j + 1)->Some_0);
}

proof fn lemma_word_token_at_end(s: Seq<char>, k: int, b: Seq<char>, j: int)
    requires
        ends_with(s, k, b),
        0 <= j < b.len(),
        is_plain(b[j]),
        !(word_at(b, j) is Failure),
    ensures
        word_at(b, j) matches Lexeme::Token(token, end) && word_at(s, k + j) == Lexeme::Token(
            token,
            k + end,
        ) && j < end <= b.len(),
{
    lemma_word_at_end(s, k, b, j);
    lemma_word_at_end(s, k, b, j + 1);
    let end = word_end(b, j);
    assert(end == word_end(b, j + 1));
    lemma_piece_at_end(s, k, b, j, end);
    lemma_gap_at_end(s, k, b, end);
    let word = b.subrange(j, end);
    let lower = lowercase(word);
    let quote = white_end(b, end);
    lemma_holds_at_end(s, k, b, end, '\'');
    lemma_holds_at_end(s, k, b, quote, '\'');
    if keyword_of(lower) is None && !(lower == "null"@ || lower == "true"@ || lower == "false"@) {
        if lower == "x"@ && holds(b, end, '\'') {
            lemma_string_at_end(s, k, b, end, word);
        } else if is_type_word(lower) && holds(b, quote, '\'') {
            lemma_string_at_end(s, k, b, quote, word + " "@);
        }
    }
}

/// What a text holds does not depend on what stands before the text.
proof fn lemma_lexeme_at_end(s: Seq<char>, k: int, b: Seq<char>, j: int)
    requires
        ends_with(s, k, b),
        0 <= j < b.len(),
        !(lexeme_at(b, j) is Failure),
    ensures
        match lexeme_at(b, j) {
            Lexeme::White => lexeme_at(s, k + j) is White,
            Lexeme::Token(token, end) => lexeme_at(s, k + j) == Lexeme::Token(token, k + end) && j
                < end <= b.len(),
            Lexeme::Failure(_) => false,
        },
{
    let c = b[j];
    assert(c == s[k + j]);
    lemma_holds_at_end(s, k, b, j + 1, '=');
    lemma_holds_at_end(s, k, b, j + 1, '<');
    lemma_holds_at_end(s, k, b, j + 1, '>');
    lemma_holds_at_end(s, k, b, j + 2, '>');
    if j + 1 < b.len() {
        assert(b[j + 1] == s[k + (j + 1)]);
    }
    if is_white(c) {
    } else if c == '.' {
        if j + 1 < b.len() && is_digit(b[j + 1]) {
            lemma_number_at_end(s, k, b, j);
            lemma_piece_at_end(s, k, b, j, number_end(b, j));
        }
    } else if c == '\'' {
        lemma_string_at_end(s, k, b, j, Seq::empty());
    } else if c == '`' {
        lemma_name_at_end(s, k, b, j + 1);
    } else if is_digit(c) {
        lemma_number_at_end(s, k, b, j);
        lemma_piece_at_end(s, k, b, j, number_end(b, j));
    } else if is_plain(c) {
        lemma_word_token_at_end(s, k, b, j);
    }
}

/// The tokens of a text do not depend on what stands before the text.
proof fn lemma_tokens_at_end(s: Seq<char>, k: int, b: Seq<char>, j: int)
    requires
        ends_with(s, k, b),
        0 <= j <= b.len(),
        tokens_from(b, j) is Ok,
    ensures
        tokens_from(s, k + j) == tokens_from(b, j),
    decreases b.len() - j,
{
    if j < b.len() {
        lemma_lexeme_at_end(s, k, b, j);
        match lexeme_at(b, j) {
            Lexeme::White => {
                lemma_tokens_at_end(s, k, b, j + 1);
            },
            Lexeme::Token(_, end) => {
                lemma_tokens_at_end(s, k, b, end);
            },
            Lexeme::Failure(_) => {},
        }
    }
}

// ---------------------------------------------------------------------------------------------
// Laws
// ---------------------------------------------------------------------------------------------

/// White space from `i` up to `k` makes no tokens, and is skipped.
proof fn lemma_gap(s: Seq<char>, i: int, k: int)
    requires
        0 <= i <= k <= s.len(),
        forall|j: int| i <= j < k ==> is_white(#[trigger] s[j]),
    ensures
        tokens_from(s, i) == tokens_from(s, k),
        white_end(s, i) == white_end(s, k),
    decreases k - i,
{
    if i < k {
        assert(is_white(s[i]));
        lemma_gap(s, i + 1, k);
    }
}

/// Two texts with white space between them give the tokens of the first and then those of the
/// second.
///
/// The second must not begin with a string: a type name at the end of the first would be taken
/// together with it.
pub proof fn law_spaced_texts_give_their_tokens_in_turn(
    a: Seq<char>,
    gap: Seq<char>,
    b: Seq<char>,
)
    requires
        gap.len() > 0,
        forall|j: int| 0 <= j < gap.len() ==> is_white(#[trigger] gap[j]),
        tokens_from(a, 0) is Ok,
        tokens_from(b, 0) is Ok,
        !holds(b, white_end(b, 0), '\''),
    ensures
        tokens_from(a + gap + b, 0) == Ok::<Seq<TokenView>, Seq<char>>(
            tokens_from(a, 0)->Ok_0 + tokens_from(b, 0)->Ok_0,
        ),
{
    let s = a + gap + b;
    let n = a.len() as int;
    let k = n + gap.len();
    assert forall|j: int| n <= j < k implies is_white(#[trigger] s[j]) by {
        assert(s[j] == gap[j - n]);
    }
    assert(ends_with(s, k, b));
    lemma_gap(s, n, k);
    lemma_gap_at_end(s, k, b, 0);
    lemma_holds_at_end(s, k, b, white_end(b, 0), '\'');
    lemma_tokens_at_end(s, k, b, 0);
    lemma_tokens_before_white(a, s, 0);
}

/// White space before and after a text adds no tokens.
pub proof fn law_surrounding_white_space_makes_no_tokens(
    before: Seq<char>,
    a: Seq<char>,
    after: Seq<char>,
)
    requires
        forall|j: int| 0 <= j < before.len() ==> is_white(#[trigger] before[j]),
        forall|j: int| 0 <= j < after.len() ==> is_white(#[trigger] after[j]),
        tokens_from(a, 0) is Ok,
    ensures
        tokens_from(before + a + after, 0) == tokens_from(a, 0),
{
    let s = before + a;
    let k = before.len() as int;
    assert forall|j: int| 0 <= j < k implies is_white(#[trigger] s[j]) by {
        assert(s[j] == before[j]);
    }
    assert(ends_with(s, k, a));
    lemma_gap(s, 0, k);
    lemma_tokens_at_end(s, k, a, 0);
    let nothing = Seq::<char>::empty();
    if after.len() > 0 {
        law_spaced_texts_give_their_tokens_in_turn(s, after, nothing);
        assert(s + after + nothing =~= before + a + after);
        let tokens = tokens_from(a, 0)->Ok_0;
        assert(tokens + Seq::<TokenView>::empty() =~= tokens);
    } else {
        assert(before + a + after =~= s);
    }
}

} // verus!
