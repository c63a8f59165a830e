use delta_kernel::expressions::column_names::{parse_escaped_field_name, ColumnName};
use delta_kernel::expressions::sql::parser::{parse, CmpOp, Comparison, Operand};
use delta_kernel::expressions::sql::token::{tokenize, Keyword, Token};

fn ident(s: &str) -> Token {
    Token::Ident(s.to_string())
}

fn num(s: &str) -> Token {
    Token::Number(s.to_string())
}

fn raw(s: &str) -> Token {
    Token::Literal(s.to_string())
}

fn col(segments: &[&str]) -> Operand {
    Operand::Column(ColumnName::new(
        segments.iter().map(|s| s.to_string()).collect(),
    ))
}

fn lit(s: &str) -> Operand {
    Operand::Literal(s.to_string())
}

#[test]
fn tokenizes_each_operator() {
    for (op, expected) in [
        ("<", Token::Lt),
        ("<=", Token::Le),
        (">", Token::Gt),
        (">=", Token::Ge),
        ("=", Token::Eq),
        ("==", Token::Eq),
        ("!=", Token::Ne),
        ("<>", Token::Ne),
        ("<=>", Token::NullSafeEq),
        ("!>", Token::Le),
        ("!<", Token::Ge),
        ("+", Token::Plus),
        ("-", Token::Minus),
    ] {
        assert_eq!(
            tokenize(&format!("a {op} 1")).unwrap(),
            [ident("a"), expected.clone(), num("1")]
        );
        // Whitespace around the operator is optional.
        assert_eq!(
            tokenize(&format!("a{op}1")).unwrap(),
            [ident("a"), expected, num("1")]
        );
    }
}

#[test]
fn tokenizes_signed_number_as_sign_then_number() {
    for (sql, expected) in [
        ("-5", vec![Token::Minus, num("5")]),
        ("- 5", vec![Token::Minus, num("5")]),
        ("+5", vec![Token::Plus, num("5")]),
        ("-.5", vec![Token::Minus, num(".5")]),
        ("-2e+1", vec![Token::Minus, num("2e+1")]),
        ("1+1", vec![num("1"), Token::Plus, num("1")]),
    ] {
        assert_eq!(tokenize(sql).unwrap(), expected);
    }
}

#[test]
fn tokenizes_number_as_single_raw_token() {
    for (sql, expected) in [
        ("42", num("42")),
        (".5", num(".5")),
        ("1e3", num("1e3")),
        ("2e+1", num("2e+1")),
    ] {
        assert_eq!(tokenize(sql).unwrap(), [expected]);
    }
}

#[test]
fn tokenizes_literal_as_single_raw_token() {
    for (sql, expected) in [
        ("'foo'", raw("'foo'")),
        ("'O''Brien'", raw("'O''Brien'")),
        ("NULL", raw("NULL")),
        ("TRUE", raw("TRUE")),
        ("false", raw("false")),
        ("DATE '1970-01-02'", raw("DATE '1970-01-02'")),
        ("DATE'1970-01-02'", raw("DATE '1970-01-02'")),
        ("X'01ff'", raw("X'01ff'")),
    ] {
        assert_eq!(tokenize(sql).unwrap(), [expected]);
    }
}

#[test]
fn every_typed_keyword_tokenizes_to_one_literal() {
    for sql in [
        "DATE '2024-01-01'",
        "TIMESTAMP '2024-01-01T00:00:00Z'",
        "TIMESTAMP_LTZ '2024-01-01T00:00:00Z'",
        "TIMESTAMP_NTZ '2024-01-01 00:00:00'",
    ] {
        assert!(matches!(
            tokenize(sql).unwrap().as_slice(),
            [Token::Literal(_)]
        ));
    }
}

#[test]
fn tokenizes_keyword_vs_quoted_identifier() {
    for (sql, expected) in [
        ("AND", Token::Keyword(Keyword::And)),
        ("or", Token::Keyword(Keyword::Or)),
        ("Not", Token::Keyword(Keyword::Not)),
        ("IS", Token::Keyword(Keyword::Is)),
        ("`AND`", ident("AND")),
    ] {
        assert_eq!(tokenize(sql).unwrap(), [expected]);
    }
}

#[test]
fn tokenizes_dotted_column_path() {
    assert_eq!(
        tokenize("a.b.c").unwrap(),
        [ident("a"), Token::Dot, ident("b"), Token::Dot, ident("c")]
    );
}

#[test]
fn tokenizes_empty_or_whitespace_only_input_to_no_tokens() {
    for sql in ["", "   ", "\t\n "] {
        assert_eq!(tokenize(sql).unwrap(), []);
    }
}

#[test]
fn tokenizes_malformed_number_as_single_raw_token() {
    for (sql, expected) in [
        ("1e", num("1e")),
        ("1.2.3", num("1.2.3")),
        ("1E3", num("1E3")),
        ("5e-3", num("5e-3")),
    ] {
        assert_eq!(tokenize(sql).unwrap(), [expected]);
    }
}

#[test]
fn tokenizes_backtick_quoted_field() {
    for (sql, expected) in [
        ("`my col`", ident("my col")),
        ("`a.b`", ident("a.b")),
        ("`a``b`", ident("a`b")),
    ] {
        assert_eq!(tokenize(sql).unwrap(), [expected]);
    }
}

#[test]
fn tokenizes_backtick_field_in_comparison_and_path() {
    assert_eq!(
        tokenize("`my col` > 0").unwrap(),
        [ident("my col"), Token::Gt, num("0")]
    );
    assert_eq!(
        tokenize("a.`b c`").unwrap(),
        [ident("a"), Token::Dot, ident("b c")]
    );
    assert!(tokenize("`unterminated").is_err());
}

#[test]
fn tokenizes_bareword_as_identifier() {
    for (sql, expected) in [
        ("amount", ident("amount")),
        ("date", ident("date")),
        ("x", ident("x")),
    ] {
        assert_eq!(tokenize(sql).unwrap(), [expected]);
    }
}

#[test]
fn rejects_ungrammatical_input() {
    for sql in ["a ! b", "(a)", "'unterminated"] {
        assert!(tokenize(sql).is_err(), "expected {sql:?} to be rejected");
    }
}

#[test]
fn parses_each_operator() {
    for (tok, expected) in [
        (Token::Lt, CmpOp::Lt),
        (Token::Le, CmpOp::Le),
        (Token::Gt, CmpOp::Gt),
        (Token::Ge, CmpOp::Ge),
        (Token::Eq, CmpOp::Eq),
        (Token::Ne, CmpOp::Ne),
        (Token::NullSafeEq, CmpOp::NullSafeEq),
    ] {
        let got = parse(vec![ident("a"), tok, num("1")]).unwrap();
        assert_eq!(
            got,
            Comparison {
                op: expected,
                left: col(&["a"]),
                right: lit("1"),
            }
        );
    }
}

#[test]
fn parses_operand_shapes() {
    for (tokens, left, right) in [
        (
            vec![ident("a"), Token::Gt, ident("b")],
            col(&["a"]),
            col(&["b"]),
        ),
        (
            vec![num("0"), Token::Lt, ident("a")],
            lit("0"),
            col(&["a"]),
        ),
        (
            vec![ident("a"), Token::Dot, ident("b"), Token::Eq, num("1")],
            col(&["a", "b"]),
            lit("1"),
        ),
        (
            vec![
                ident("a"),
                Token::Dot,
                ident("b"),
                Token::Dot,
                ident("c"),
                Token::Eq,
                num("1"),
            ],
            col(&["a", "b", "c"]),
            lit("1"),
        ),
        (
            vec![ident("a"), Token::Gt, Token::Minus, num("234")],
            col(&["a"]),
            lit("-234"),
        ),
        (
            vec![Token::Plus, num("5"), Token::Lt, ident("a")],
            lit("+5"),
            col(&["a"]),
        ),
        (
            vec![ident("a"), Token::Gt, Token::Minus, num(".5")],
            col(&["a"]),
            lit("-.5"),
        ),
    ] {
        let got = parse(tokens).unwrap();
        assert_eq!(got.left, left);
        assert_eq!(got.right, right);
    }
}

#[test]
fn tokenize_then_parse_yields_expected_comparison() {
    for (sql, op, left, right) in [
        ("a > -.5", CmpOp::Gt, col(&["a"]), lit("-.5")),
        ("amount >= -234", CmpOp::Ge, col(&["amount"]), lit("-234")),
        ("ratio == .25", CmpOp::Eq, col(&["ratio"]), lit(".25")),
        ("a.b.c <= 100", CmpOp::Le, col(&["a", "b", "c"]), lit("100")),
        ("x != y", CmpOp::Ne, col(&["x"]), col(&["y"])),
        ("n <=> NULL", CmpOp::NullSafeEq, col(&["n"]), lit("NULL")),
        ("+5 < a", CmpOp::Lt, lit("+5"), col(&["a"])),
        (
            "status = 'active'",
            CmpOp::Eq,
            col(&["status"]),
            lit("'active'"),
        ),
    ] {
        let got = parse(tokenize(sql).unwrap()).unwrap();
        assert_eq!(got, Comparison { op, left, right });
    }
}

#[test]
fn tokenize_then_parse_rejects_non_single_comparison() {
    for sql in [
        "a > 0 AND b < 9",
        "a > 0 OR b > 0",
        "a IS NOT NULL",
        "(amount > 0)",
        "is_active",
    ] {
        assert!(tokenize(sql).and_then(parse).is_err());
    }
}

#[test]
fn rejects_non_single_comparison() {
    for tokens in [
        vec![ident("a"), Token::Gt, num("0"), ident("extra")],
        vec![ident("a"), ident("b")],
        vec![ident("a"), Token::Dot, Token::Gt, num("0")],
        vec![Token::Gt, num("0")],
        vec![],
        vec![ident("a"), Token::Gt, Token::Keyword(Keyword::And)],
        vec![
            ident("a"),
            Token::Gt,
            num("0"),
            Token::Keyword(Keyword::And),
            ident("b"),
            Token::Lt,
            num("9"),
        ],
        vec![Token::Minus, ident("a"), Token::Gt, num("0")],
        vec![ident("a"), Token::Eq, Token::Minus, raw("'foo'")],
        vec![ident("a"), Token::Gt, Token::Minus],
        vec![ident("a"), Token::Gt, Token::Minus, Token::Minus, num("5")],
    ] {
        assert!(parse(tokens).is_err());
    }
}

#[test]
fn errors_say_what_was_found() {
    for sql in ["a ! b", "(a)", "a > "] {
        let error = tokenize(sql).and_then(parse).unwrap_err();
        println!("{sql:?}: {}", error.to_string());
        assert!(!error.to_string().is_empty());
    }
}

#[test]
fn white_space_separates_nothing_else() {
    for sql in ["a>1", " a > 1 ", "\ta\n>\r1\u{a0}", "a\u{3000}>1"] {
        assert_eq!(tokenize(sql).unwrap(), [ident("a"), Token::Gt, num("1")]);
    }
}

#[test]
fn a_quoted_name_comes_back() {
    for name in ["a", "my col", "a.b", "a`b", "``", "AND", "é"] {
        let quoted = ColumnName::new(vec![name.to_string()]).to_string();
        let sql = format!("`{}`", name.replace('`', "``"));
        assert_eq!(tokenize(&sql).unwrap(), [ident(name)]);
        // A name that needs no quotes is written without them.
        if quoted.starts_with('`') {
            assert_eq!(quoted, sql);
        }
    }
    let chars: Vec<char> = "a``b` > 1".chars().collect();
    assert_eq!(
        parse_escaped_field_name(&chars, 0),
        Some(("a`b".to_string(), 5))
    );
    let chars: Vec<char> = "a``b".chars().collect();
    assert_eq!(parse_escaped_field_name(&chars, 0), None);
}

#[test]
fn column_names_are_written_with_quotes_where_needed() {
    for (path, expected) in [
        (vec!["a", "b"], "a.b"),
        (vec!["a.b"], "`a.b`"),
        (vec!["a", "b c"], "a.`b c`"),
        (vec!["a`b"], "`a``b`"),
        (vec!["_x1"], "_x1"),
        (vec!["1x"], "`1x`"),
        (vec![], ""),
    ] {
        let name = ColumnName::new(path.iter().map(|s| s.to_string()).collect());
        assert_eq!(name.to_string(), expected);
        assert_eq!(name.path(), path);
    }
}

#[test]
fn spaced_texts_give_their_tokens_in_turn() {
    let texts = [
        "a",
        "2e",
        "1.5e-3",
        "x",
        "`a b`",
        "'it''s'",
        "a <",
        "<=",
        "date '2020-01-01'",
        "NOT date",
        "",
        "  ",
    ];
    for a in texts {
        for b in texts.iter().filter(|b| !b.trim_start().starts_with('\'')) {
            let mut expected = tokenize(a).unwrap();
            expected.extend(tokenize(b).unwrap());
            assert_eq!(tokenize(&format!("{a} {b}")).unwrap(), expected);
            assert_eq!(tokenize(&format!("{a}\t\n{b}")).unwrap(), expected);
        }
        let own = tokenize(a).unwrap();
        assert_eq!(tokenize(&format!(" \u{a0}{a} \n")).unwrap(), own);
    }
    assert!(tokenize(" \t\n").unwrap().is_empty());
}

#[test]
fn a_type_name_takes_the_string_after_it() {
    assert_eq!(tokenize("date").unwrap(), [ident("date")]);
    assert_eq!(tokenize("'2020-01-01'").unwrap(), [raw("'2020-01-01'")]);
    assert_eq!(
        tokenize("date   '2020-01-01'").unwrap(),
        [raw("date '2020-01-01'")]
    );
}
