//! A parser for single comparisons.
//!
//! It takes the tokens that [`tokenize`](super::token::tokenize) splits a text into and makes a
//! [`Comparison`] of them: an operand, an operator and an operand. Junctions, parentheses and
//! `IS NULL` are errors.

use vstd::prelude::*;
use vstd::std_specs::cmp::PartialEqSpecImpl;

use super::token::{tokens_view, Keyword, Token, TokenView};
use crate::error::{DeltaResult, Error};
use crate::expressions::column_names::{names_view, ColumnName};
use crate::text::{quoted, quoted_text};

verus! {

/// An operand of a comparison.
#[derive(Debug)]
pub enum Operand {
    /// A column, by its path.
    Column(ColumnName),
    /// A literal, in its source text.
    Literal(String),
}

/// The operator of a comparison.
#[derive(Debug, Clone, Copy, PartialEq, Eq, Structural)]
pub enum CmpOp {
    /// `<`.
    Lt,
    /// `<=`.
    Le,
    /// `>`.
    Gt,
    /// `>=`.
    Ge,
    /// `=`.
    Eq,
    /// `<>`.
    Ne,
    /// `<=>`, which is true of two nulls.
    NullSafeEq,
}

/// A comparison.
#[derive(Debug)]
pub struct Comparison {
    /// The operator.
    pub op: CmpOp,
    /// The operand before it.
    pub left: Operand,
    /// The operand after it.
    pub right: Operand,
}

/// What an operand is.
pub enum OperandView {
    /// A column, by its path.
    Column(Seq<Seq<char>>),
    /// A literal, in its source text.
    Literal(Seq<char>),
}

/// What a comparison is.
pub struct ComparisonView {
    /// The operator.
    pub op: CmpOp,
    /// The operand before it.
    pub left: OperandView,
    /// The operand after it.
    pub right: OperandView,
}

impl View for Operand {
    type V = OperandView;

    open spec fn view(&self) -> OperandView {
        match self {
            Operand::Column(name) => OperandView::Column(name@),
            Operand::Literal(text) => OperandView::Literal(text@),
        }
    }
}

impl View for Comparison {
    type V = ComparisonView;

    open spec fn view(&self) -> ComparisonView {
        ComparisonView { op: self.op, left: self.left@, right: self.right@ }
    }
}

impl Operand {
    /// Whether two operands are the same.
    pub fn same(&self, other: &Operand) -> (r: bool)
        ensures
            r == (self@ == other@),
    {
        match (self, other) {
            (Operand::Column(a), Operand::Column(b)) => a.same(b),
            (Operand::Literal(a), Operand::Literal(b)) => *a == *b,
            _ => false,
        }
    }
}

impl Comparison {
    /// Whether two comparisons are the same.
    pub fn same(&self, other: &Comparison) -> (r: bool)
        ensures
            r == (self@ == other@),
    {
        self.op == other.op && self.left.same(&other.left) && self.right.same(&other.right)
    }
}

impl PartialEq for Operand {
    fn eq(&self, other: &Operand) -> (r: bool) {
        self.same(other)
    }
}

impl PartialEqSpecImpl for Operand {
    open spec fn obeys_eq_spec() -> bool {
        true
    }

    open spec fn eq_spec(&self, other: &Operand) -> bool {
        self@ == other@
    }
}

impl PartialEq for Comparison {
    fn eq(&self, other: &Comparison) -> (r: bool) {
        self.same(other)
    }
}

impl PartialEqSpecImpl for Comparison {
    open spec fn obeys_eq_spec() -> bool {
        true
    }

    open spec fn eq_spec(&self, other: &Comparison) -> bool {
        self@ == other@
    }
}

// ---------------------------------------------------------------------------------------------
// Messages
// ---------------------------------------------------------------------------------------------

/// The token at a place, if there is one.
pub open spec fn token_at(tokens: Seq<TokenView>, i: int) -> Option<TokenView> {
    if 0 <= i < tokens.len() {
        Some(tokens[i])
    } else {
        None
    }
}

/// A token, for messages.
pub open spec fn token_text(token: TokenView) -> Seq<char> {
    match token {
        TokenView::Ident(s) => "Ident("@ + quoted_text(s) + ")"@,
        TokenView::Number(s) => "Number("@ + quoted_text(s) + ")"@,
        TokenView::Literal(s) => "Literal("@ + quoted_text(s) + ")"@,
        TokenView::Dot => "Dot"@,
        TokenView::Lt => "Lt"@,
        TokenView::Le => "Le"@,
        TokenView::Gt => "Gt"@,
        TokenView::Ge => "Ge"@,
        TokenView::Eq => "Eq"@,
        TokenView::Ne => "Ne"@,
        TokenView::NullSafeEq => "NullSafeEq"@,
        TokenView::Plus => "Plus"@,
        TokenView::Minus => "Minus"@,
        TokenView::Keyword(Keyword::And) => "Keyword(And)"@,
        TokenView::Keyword(Keyword::Or) => "Keyword(Or)"@,
        TokenView::Keyword(Keyword::Not) => "Keyword(Not)"@,
        TokenView::Keyword(Keyword::Is) => "Keyword(Is)"@,
    }
}

/// The message for another token than expected, or none.
pub open spec fn expected_text(what: Seq<char>, found: Option<TokenView>) -> Seq<char> {
    "expected "@ + what + ", found "@ + match found {
        Some(token) => "Some("@ + token_text(token) + ")"@,
        None => "None"@,
    }
}

fn token_string(token: &Token) -> (r: String)
    ensures
        r@ == token_text(token@),
{
    let (name, text): (&str, &String) = match token {
        Token::Ident(s) => ("Ident(", s),
        Token::Number(s) => ("Number(", s),
        Token::Literal(s) => ("Literal(", s),
        Token::Dot => {
            return "Dot".to_owned();
        },
        Token::Lt => {
            return "Lt".to_owned();
        },
        Token::Le => {
            return "Le".to_owned();
        },
        Token::Gt => {
            return "Gt".to_owned();
        },
        Token::Ge => {
            return "Ge".to_owned();
        },
        Token::Eq => {
            return "Eq".to_owned();
        },
        Token::Ne => {
            return "Ne".to_owned();
        },
        Token::NullSafeEq => {
            return "NullSafeEq".to_owned();
        },
        Token::Plus => {
            return "Plus".to_owned();
        },
        Token::Minus => {
            return "Minus".to_owned();
        },
        Token::Keyword(Keyword::And) => {
            return "Keyword(And)".to_owned();
        },
        Token::Keyword(Keyword::Or) => {
            return "Keyword(Or)".to_owned();
        },
        Token::Keyword(Keyword::Not) => {
            return "Keyword(Not)".to_owned();
        },
        Token::Keyword(Keyword::Is) => {
            return "Keyword(Is)".to_owned();
        },
    };
    let mut r: String = name.to_owned();
    r.append(quoted(text.as_str()).as_str());
    r.append(")");
    r
}

/// The error for another token than expected, or none, at `i`.
fn expected(what: &str, tokens: &[Token], i: usize) -> (r: Error)
    ensures
        r matches Error::Generic(message) && message@ == expected_text(
            what@,
            token_at(tokens_view(tokens@), i as int),
        ),
{
    let mut message: String = "expected ".to_owned();
    message.append(what);
    message.append(", found ");
    if i < tokens.len() {
        let mut found: String = "Some(".to_owned();
        found.append(token_string(&tokens[i]).as_str());
        found.append(")");
        message.append(found.as_str());
    } else {
        message.append("None");
    }
    Error::Generic(message)
}

// ---------------------------------------------------------------------------------------------
// What the tokens mean
// ---------------------------------------------------------------------------------------------

/// The column whose path goes on at `i` after `path`, and the place after it: names with dots between
/// them.
pub open spec fn column_at(
    tokens: Seq<TokenView>,
    i: int,
    path: Seq<Seq<char>>,
) -> Result<(OperandView, int), Seq<char>>
    decreases tokens.len() - i,
{
    if token_at(tokens, i) == Some(TokenView::Dot) {
        match token_at(tokens, i + 1) {
            Some(TokenView::Ident(segment)) => column_at(tokens, i + 2, path.push(segment)),
            found => Err(expected_text("an identifier after '.'"@, found)),
        }
    } else {
        Ok((OperandView::Column(path), i))
    }
}

/// The operand at `i`, and the place after it: a literal, a number with or without a sign, or a
/// column.
pub open spec fn operand_at(tokens: Seq<TokenView>, i: int) -> Result<
    (OperandView, int),
    Seq<char>,
> {
    match token_at(tokens, i) {
        Some(TokenView::Plus) => match token_at(tokens, i + 1) {
            Some(TokenView::Number(raw)) => Ok((OperandView::Literal("+"@ + raw), i + 2)),
            found => Err(expected_text("a number after '+'"@, found)),
        },
        Some(TokenView::Minus) => match token_at(tokens, i + 1) {
            Some(TokenView::Number(raw)) => Ok((OperandView::Literal("-"@ + raw), i + 2)),
            found => Err(expected_text("a number after '-'"@, found)),
        },
        Some(TokenView::Number(raw)) => Ok((OperandView::Literal(raw), i + 1)),
        Some(TokenView::Literal(raw)) => Ok((OperandView::Literal(raw), i + 1)),
        Some(TokenView::Ident(first)) => column_at(tokens, i + 1, seq![first]),
        found => Err(expected_text("a column or literal"@, found)),
    }
}

/// The operator that a token is.
pub open spec fn operator_of(token: Option<TokenView>) -> Option<CmpOp> {
    match token {
        Some(TokenView::Lt) => Some(CmpOp::Lt),
        Some(TokenView::Le) => Some(CmpOp::Le),
        Some(TokenView::Gt) => Some(CmpOp::Gt),
        Some(TokenView::Ge) => Some(CmpOp::Ge),
        Some(TokenView::Eq) => Some(CmpOp::Eq),
        Some(TokenView::Ne) => Some(CmpOp::Ne),
        Some(TokenView::NullSafeEq) => Some(CmpOp::NullSafeEq),
        _ => None,
    }
}

/// The comparison that some tokens are, or why they are none: an operand, an operator, an operand,
/// and nothing after it.
pub open spec fn comparison_of(tokens: Seq<TokenView>) -> Result<ComparisonView, Seq<char>> {
    match operand_at(tokens, 0) {
        Err(message) => Err(message),
        Ok((left, i)) => match operator_of(token_at(tokens, i)) {
            None => Err(expected_text("a comparison operator"@, token_at(tokens, i))),
            Some(op) => match operand_at(tokens, i + 1) {
                Err(message) => Err(message),
                Ok((right, end)) => if end < tokens.len() {
                    Err("unexpected trailing input: only a single comparison is supported"@)
                } else {
                    Ok(ComparisonView { op, left, right })
                },
            },
        },
    }
}

// ---------------------------------------------------------------------------------------------
// Parsing
// ---------------------------------------------------------------------------------------------

/// Whether `r` is an operand and the place after it, or the error for none.
pub open spec fn is_operand(
    expected: Result<(OperandView, int), Seq<char>>,
    len: int,
    r: DeltaResult<(Operand, usize)>,
) -> bool {
    match expected {
        Ok((operand, end)) => r matches Ok((o, e)) && o@ == operand && e == end && e <= len,
        Err(message) => r matches Err(Error::Generic(text)) && text@ == message,
    }
}

fn parse_column_path(tokens: &[Token], from: usize, first: &String) -> (r: DeltaResult<
    (Operand, usize),
>)
    requires
        from <= tokens@.len(),
    ensures
        is_operand(
            column_at(tokens_view(tokens@), from as int, seq![first@]),
            tokens@.len() as int,
            r,
        ),
{
    let len: usize = tokens.len();
    let mut path: Vec<String> = vec![first.clone()];
    let mut i: usize = from;
    assert(names_view(path@) =~= seq![first@]);
    while i < len && matches!(tokens[i], Token::Dot)
        invariant
            i <= len == tokens@.len(),
            column_at(tokens_view(tokens@), from as int, seq![first@]) == column_at(
                tokens_view(tokens@),
                i as int,
                names_view(path@),
            ),
        decreases len - i,
    {
        let ghost before = names_view(path@);
        let mut segment: Option<String> = None;
        if i + 1 < len {
            if let Token::Ident(name) = &tokens[i + 1] {
                segment = Some(name.clone());
            }
        }
        match segment {
            Some(name) => {
                path.push(name);
                assert(names_view(path@) =~= before.push(name@));
                i += 2;
            },
            None => {
                return Err(expected("an identifier after '.'", tokens, i + 1));
            },
        }
    }
    Ok((Operand::Column(ColumnName::new(path)), i))
}

fn parse_operand(tokens: &[Token], i: usize) -> (r: DeltaResult<(Operand, usize)>)
    requires
        i <= tokens@.len(),
    ensures
        is_operand(operand_at(tokens_view(tokens@), i as int), tokens@.len() as int, r),
{
    let len: usize = tokens.len();
    if i >= len {
        return Err(expected("a column or literal", tokens, i));
    }
    match &tokens[i] {
        Token::Plus => {
            if i + 1 < len {
                if let Token::Number(raw) = &tokens[i + 1] {
                    let mut text: String = "+".to_owned();
                    text.append(raw.as_str());
                    return Ok((Operand::Literal(text), i + 2));
                }
            }
            Err(expected("a number after '+'", tokens, i + 1))
        },
        Token::Minus => {
            if i + 1 < len {
                if let Token::Number(raw) = &tokens[i + 1] {
                    let mut text: String = "-".to_owned();
                    text.append(raw.as_str());
                    return Ok((Operand::Literal(text), i + 2));
                }
            }
            Err(expected("a number after '-'", tokens, i + 1))
        },
        Token::Number(raw) => Ok((Operand::Literal(raw.clone()), i + 1)),
        Token::Literal(raw) => Ok((Operand::Literal(raw.clone()), i + 1)),
        Token::Ident(first) => parse_column_path(tokens, i + 1, first),
        _ => Err(expected("a column or literal", tokens, i)),
    }
}

fn parse_operator(tokens: &[Token], i: usize) -> (r: DeltaResult<CmpOp>)
    requires
        i <= tokens@.len(),
    ensures
        match operator_of(token_at(tokens_view(tokens@), i as int)) {
            Some(op) => r == Ok::<CmpOp, Error>(op) && i < tokens@.len(),
            None => r matches Err(Error::Generic(message)) && message@ == expected_text(
                "a comparison operator"@,
                token_at(tokens_view(tokens@), i as int),
            ),
        },
{
    if i < tokens.len() {
        match &tokens[i] {
            Token::Lt => {
                return Ok(CmpOp::Lt);
            },
            Token::Le => {
                return Ok(CmpOp::Le);
            },
            Token::Gt => {
                return Ok(CmpOp::Gt);
            },
            Token::Ge => {
                return Ok(CmpOp::Ge);
            },
            Token::Eq => {
                return Ok(CmpOp::Eq);
            },
            Token::Ne => {
                return Ok(CmpOp::Ne);
            },
            Token::NullSafeEq => {
                return Ok(CmpOp::NullSafeEq);
            },
            _ => {},
        }
    }
    Err(expected("a comparison operator", tokens, i))
}

/// The comparison that some tokens are: an operand, an operator, an operand, and nothing after it.
pub fn parse(tokens: Vec<Token>) -> (r: DeltaResult<Comparison>)
    ensures
        match comparison_of(tokens_view(tokens@)) {
            Ok(comparison) => r matches Ok(found) && found@ == comparison,
            Err(message) => r matches Err(Error::Generic(text)) && text@ == message,
        },
{
    let tokens: &[Token] = tokens.as_slice();
    let (left, i): (Operand, usize) = match parse_operand(tokens, 0) {
        Ok(found) => found,
        Err(error) => {
            return Err(error);
        },
    };
    let op: CmpOp = match parse_operator(tokens, i) {
        Ok(op) => op,
        Err(error) => {
            return Err(error);
        },
    };
    let (right, end): (Operand, usize) = match parse_operand(tokens, i + 1) {
        Ok(found) => found,
        Err(error) => {
            return Err(error);
        },
    };
    if end < tokens.len() {
        return Err(
            Error::Generic(
                "unexpected trailing input: only a single comparison is supported".to_owned(),
            ),
        );
    }
    Ok(Comparison { op, left, right })
}

// ---------------------------------------------------------------------------------------------
// Laws
// ---------------------------------------------------------------------------------------------

/// The tokens that an operand is written with.
pub open spec fn operand_tokens(operand: OperandView) -> Seq<TokenView> {
    match operand {
        OperandView::Literal(raw) => seq![TokenView::Literal(raw)],
        OperandView::Column(path) => path_tokens(path, path.len()),
    }
}

/// The tokens that the first `n` names of a path are written with.
pub open spec fn path_tokens(path: Seq<Seq<char>>, n: nat) -> Seq<TokenView>
    decreases n,
{
    if n == 0 || n > path.len() {
        Seq::empty()
    } else if n == 1 {
        seq![TokenView::Ident(path[0])]
    } else {
        path_tokens(path, (n - 1) as nat).push(TokenView::Dot).push(TokenView::Ident(path[n - 1]))
    }
}

/// The token that an operator is written with.
pub open spec fn operator_token(op: CmpOp) -> TokenView {
    match op {
        CmpOp::Lt => TokenView::Lt,
        CmpOp::Le => TokenView::Le,
        CmpOp::Gt => TokenView::Gt,
        CmpOp::Ge => TokenView::Ge,
        CmpOp::Eq => TokenView::Eq,
        CmpOp::Ne => TokenView::Ne,
        CmpOp::NullSafeEq => TokenView::NullSafeEq,
    }
}

/// From the place after the first `n` names of a path on, the rest of the path is read.
proof fn lemma_path_is_read(
    before: Seq<TokenView>,
    path: Seq<Seq<char>>,
    n: nat,
    after: Seq<TokenView>,
)
    requires
        1 <= n <= path.len(),
        after.len() > 0 ==> after[0] != TokenView::Dot,
    ensures
        path_tokens(path, n).len() == 2 * n - 1,
        column_at(
            before + path_tokens(path, path.len()) + after,
            (before.len() + path_tokens(path, n).len()) as int,
            path.take(n as int),
        ) == Ok::<(OperandView, int), Seq<char>>(
            (
                OperandView::Column(path),
                (before.len() + path_tokens(path, path.len()).len()) as int,
            ),
        ),
    decreases path.len() - n,
{
    lemma_path_tokens_prefix(path, n, path.len());
    let all = path_tokens(path, path.len());
    let tokens = before + all + after;
    let at = (before.len() + path_tokens(path, n).len()) as int;
    if n == path.len() {
        assert(path.take(n as int) =~= path);
        assert(at < tokens.len() ==> tokens[at] == after[0]);
    } else {
        lemma_path_is_read(before, path, n + 1, after);
        lemma_path_tokens_prefix(path, n + 1, path.len());
        assert(path.take(n as int).push(path[n as int]) =~= path.take(n as int + 1));
        let next = path_tokens(path, n + 1);
        assert(tokens[at] == all[at - before.len()]);
        assert(tokens[at + 1] == all[at + 1 - before.len()]);
        assert(all[at - before.len()] == next[at - before.len()]);
        assert(all[at + 1 - before.len()] == next[at + 1 - before.len()]);
    }
}

/// The tokens of the first names of a path are the first tokens of the path.
proof fn lemma_path_tokens_prefix(path: Seq<Seq<char>>, n: nat, m: nat)
    requires
        1 <= n <= m <= path.len(),
    ensures
        path_tokens(path, n).len() == 2 * n - 1,
        path_tokens(path, m).len() == 2 * m - 1,
        forall|i: int|
            0 <= i < path_tokens(path, n).len() ==> #[trigger] path_tokens(path, m)[i]
                == path_tokens(path, n)[i],
    decreases m,
{
    if n < m {
        lemma_path_tokens_prefix(path, n, (m - 1) as nat);
    } else if n > 1 {
        lemma_path_tokens_prefix(path, (n - 1) as nat, (n - 1) as nat);
    }
}

/// An operand is read back from the tokens that it is written with.
proof fn lemma_operand_is_read(
    before: Seq<TokenView>,
    operand: OperandView,
    after: Seq<TokenView>,
)
    requires
        operand matches OperandView::Column(path) ==> path.len() > 0,
        after.len() > 0 ==> after[0] != TokenView::Dot,
    ensures
        operand_at(before + operand_tokens(operand) + after, before.len() as int) == Ok::<
            (OperandView, int),
            Seq<char>,
        >((operand, (before.len() + operand_tokens(operand).len()) as int)),
{
    let tokens = before + operand_tokens(operand) + after;
    match operand {
        OperandView::Literal(raw) => {
            assert(tokens[before.len() as int] == TokenView::Literal(raw));
        },
        OperandView::Column(path) => {
            lemma_path_is_read(before, path, 1, after);
            lemma_path_tokens_prefix(path, 1, path.len());
            let all = path_tokens(path, path.len());
            assert(path_tokens(path, 1)[0] == TokenView::Ident(path[0]));
            assert(all[0] == TokenView::Ident(path[0]));
            assert(tokens[before.len() as int] == all[0]);
            assert(path.take(1) =~= seq![path[0]]);
        },
    }
}

/// A comparison is read back from the tokens that it is written with.
///
/// A column has at least one name.
pub proof fn law_comparison_is_read_back(comparison: ComparisonView)
    requires
        comparison.left matches OperandView::Column(path) ==> path.len() > 0,
        comparison.right matches OperandView::Column(path) ==> path.len() > 0,
    ensures
        comparison_of(
            operand_tokens(comparison.left) + seq![operator_token(comparison.op)]
                + operand_tokens(comparison.right),
        ) == Ok::<ComparisonView, Seq<char>>(comparison),
{
    let left = operand_tokens(comparison.left);
    let op = seq![operator_token(comparison.op)];
    let right = operand_tokens(comparison.right);
    let tokens = left + op + right;
    let none = Seq::<TokenView>::empty();
    lemma_operand_is_read(none, comparison.left, op + right);
    assert(none + left + (op + right) =~= tokens);
    assert(tokens[left.len() as int] == op[0]);
    lemma_operand_is_read(left + op, comparison.right, none);
    assert((left + op) + right + none =~= tokens);
}

/// A sign before a number is part of the literal.
pub proof fn law_sign_joins_number(raw: Seq<char>, op: CmpOp, right: OperandView)
    requires
        right matches OperandView::Column(path) ==> path.len() > 0,
    ensures
        comparison_of(
            seq![TokenView::Minus, TokenView::Number(raw), operator_token(op)] + operand_tokens(
                right,
            ),
        ) == Ok::<ComparisonView, Seq<char>>(
            ComparisonView { op, left: OperandView::Literal("-"@ + raw), right },
        ),
        comparison_of(
            seq![TokenView::Plus, TokenView::Number(raw), operator_token(op)] + operand_tokens(
                right,
            ),
        ) == Ok::<ComparisonView, Seq<char>>(
            ComparisonView { op, left: OperandView::Literal("+"@ + raw), right },
        ),
{
    let none = Seq::<TokenView>::empty();
    let minus = seq![TokenView::Minus, TokenView::Number(raw), operator_token(op)];
    let plus = seq![TokenView::Plus, TokenView::Number(raw), operator_token(op)];
    lemma_operand_is_read(minus, right, none);
    lemma_operand_is_read(plus, right, none);
    assert(minus + operand_tokens(right) + none =~= minus + operand_tokens(right));
    assert(plus + operand_tokens(right) + none =~= plus + operand_tokens(right));
}

} // verus!
