use pmos::expr::{expr_ok, parse, parse_template, tokenize, BinOp, Expr, OpTok, TemplatePart, Tok};

#[test]
fn depth_limit() {
    let deep = format!("{}1{}", "(".repeat(40), ")".repeat(40));
    assert!(parse(&deep).is_err());
}

#[test]
fn moderate_nesting_parses() {
    let nested = format!("{}1{}", "(".repeat(10), ")".repeat(10));
    assert!(matches!(parse(&nested), Ok(Expr::Num(n)) if n == "1"));
}

#[test]
fn precedence_binds_multiplication_tighter() {
    match parse("1 + 2 * 3").unwrap() {
        Expr::Bin(BinOp::Add, a, b) => {
            assert!(matches!(*a, Expr::Num(ref n) if n == "1"));
            assert!(matches!(*b, Expr::Bin(BinOp::Mul, _, _)));
        },
        e => panic!("{e:?}"),
    }
    match parse("(1 + 2) * 3").unwrap() {
        Expr::Bin(BinOp::Mul, a, _) => assert!(matches!(*a, Expr::Bin(BinOp::Add, _, _))),
        e => panic!("{e:?}"),
    }
}

#[test]
fn ternary_over_state() {
    match parse("running ? 'Pause' : 'Start'").unwrap() {
        Expr::Ternary(c, a, b) => {
            assert!(matches!(*c, Expr::Ident(ref n) if n == "running"));
            assert!(matches!(*a, Expr::Str(ref s) if s == "Pause"));
            assert!(matches!(*b, Expr::Str(ref s) if s == "Start"));
        },
        e => panic!("{e:?}"),
    }
}

#[test]
fn calls_take_dotted_names() {
    match parse("math.clamp(15, 0, 10)").unwrap() {
        Expr::Call(name, args) => {
            assert_eq!(name, "math.clamp");
            assert_eq!(args.len(), 3);
        },
        e => panic!("{e:?}"),
    }
}

#[test]
fn tokenizer_reads_numbers_strings_and_operators() {
    let toks = tokenize("a >= 2.5 && 'x'").unwrap();
    assert_eq!(toks.len(), 5);
    assert!(matches!(&toks[0], Tok::Ident(s) if s == "a"));
    assert!(matches!(&toks[1], Tok::Op(OpTok::GtEq)));
    assert!(matches!(&toks[2], Tok::Num(s) if s == "2.5"));
    assert!(matches!(&toks[3], Tok::Op(OpTok::AndAnd)));
    assert!(matches!(&toks[4], Tok::Str(s) if s == "x"));
    assert!(tokenize("'open").is_err());
    assert!(tokenize("a # b").is_err());
}

#[test]
fn syntax_errors_are_errors() {
    assert!(parse("1 +").is_err());
    assert!(parse("(2").is_err());
    assert!(parse("1 2").is_err());
    assert!(parse("").is_err());
}

#[test]
fn template_parts() {
    let t = parse_template("left: ${fmt.mmss(n)}!").unwrap();
    assert_eq!(t.len(), 3);
    assert!(matches!(&t[0], TemplatePart::Text(s) if s == "left: "));
    assert!(matches!(&t[1], TemplatePart::Expr(Expr::Call(n, _)) if n == "fmt.mmss"));
    assert!(matches!(&t[2], TemplatePart::Text(s) if s == "!"));
    assert!(parse_template("broken ${1 +}").is_err());
}

#[test]
fn expression_props_are_checked_only_when_they_look_like_expressions() {
    assert!(expr_ok("plain text").is_ok());
    assert!(expr_ok("${1 + 2}").is_ok());
    assert!(expr_ok("${1 +}").is_err());
    assert!(expr_ok("n = ${n}").is_ok());
    assert!(expr_ok("n = ${(}").is_err());
}

fn err_text<T: std::fmt::Debug>(r: Result<T, pmos::expr::ExprError>) -> String {
    r.unwrap_err().0
}

#[test]
fn syntax_errors_say_what_is_wrong() {
    assert_eq!(err_text(parse("1 +")), "unexpected token None");
    assert_eq!(err_text(parse("(2")), "expected `)`, found None");
    assert_eq!(err_text(parse("a ? b")), "expected `:`, found None");
    assert_eq!(err_text(parse("f(1 x)")), "expected `,`, found Some(Ident(\"x\"))");
    assert_eq!(err_text(parse("[1, 2")), "expected `,`, found None");
    assert_eq!(err_text(parse("x[1")), "expected `]`, found None");
    assert_eq!(err_text(parse(")")), "unexpected token Some(Op(\")\"))");
    assert_eq!(err_text(parse("1 'a' b")), "trailing tokens after expression: [Str(\"a\"), Ident(\"b\")]");
    let deep = format!("{}1{}", "(".repeat(40), ")".repeat(40));
    assert_eq!(err_text(parse(&deep)), "expression too deep");
    assert_eq!(err_text(parse("'open")), "unterminated string");
    assert_eq!(err_text(parse("1 'a\"b\n'")), "trailing tokens after expression: [Str(\"a\\\"b\\n\")]");
    assert_eq!(err_text(parse_template("x ${1")), "unterminated ${…} in template");
    assert_eq!(err_text(parse_template("x ${1 +} y")), "unexpected token None");
    assert_eq!(err_text(expr_ok("${(}")), "unexpected token None");
}
