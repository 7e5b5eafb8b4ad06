use aglet::codegen::bytecode::Bytecode;
use aglet::lexer::{Lexer, Span, Token};
use aglet::message::{Context, Message};
use aglet::parser::ast::{Expr, Expression, Program, Qualifier, Stmt};
use aglet::parser::parse;
use aglet::types::last_segment_of;

fn lex(src: &str) -> (Vec<(Token, Span)>, usize) {
    let ctx = Context { filename: "test.ag".to_string(), source: src.to_string() };
    let mut lexer = Lexer::new(&ctx);
    let mut log = Vec::new();
    let tokens = lexer.tokens(&mut log);
    (tokens, log.len())
}

fn program(src: &str) -> Program {
    parse(lex(src).0).expect("program parses")
}

fn only_expr(p: &Program) -> &Expression {
    assert_eq!(p.stmts.len(), 1);
    match &p.stmts[0].node {
        Stmt::ExprStmt(e) => e,
        other => panic!("not an expression statement: {other:?}"),
    }
}

#[test]
fn keywords_identifiers_and_operators() {
    let (toks, errs) = lex("funk funky(a: int) -> void { ret a <= 10_000; }");
    assert_eq!(errs, 0);
    let kinds: Vec<&Token> = toks.iter().map(|t| &t.0).collect();
    assert_eq!(kinds[0], &Token::KwdFunction);
    assert_eq!(kinds[1], &Token::Identifier("funky".to_string()));
    assert_eq!(kinds[2], &Token::LParen);
    assert_eq!(kinds[3], &Token::Identifier("a".to_string()));
    assert_eq!(kinds[4], &Token::Colon);
    assert_eq!(kinds[7], &Token::Arrow);
    assert_eq!(kinds[10], &Token::KwdReturn);
    assert_eq!(kinds[12], &Token::OperLessOrEqual);
    assert_eq!(kinds[13], &Token::Integer(10000));
    assert_eq!(toks[1].1, Span { lo: 5, hi: 10 });
    assert_eq!(toks.len(), 16);
}

#[test]
fn comments_and_whitespace_are_skipped() {
    let (toks, errs) = lex("a /* b * c */ + // d\n\t1");
    assert_eq!(errs, 0);
    let kinds: Vec<&Token> = toks.iter().map(|t| &t.0).collect();
    assert_eq!(kinds, vec![&Token::Identifier("a".to_string()), &Token::OperPlus, &Token::Integer(1)]);
    assert_eq!(toks[2].1, Span { lo: 22, hi: 23 });
}

#[test]
fn unknown_characters_are_reported_and_skipped() {
    let ctx = Context { filename: "t".to_string(), source: "a $ é b".to_string() };
    let mut lexer = Lexer::new(&ctx);
    let mut log = Vec::new();
    let toks = lexer.tokens(&mut log);
    assert_eq!(toks.len(), 2);
    assert_eq!(log.len(), 2);
    assert!(matches!(log[0].message, Message::UnexpectedCharacter));
    assert_eq!(log[0].span, Some(Span { lo: 2, hi: 3 }));
    assert_eq!(log[1].span, Some(Span { lo: 4, hi: 6 }));
    assert_eq!(toks[1].1, Span { lo: 7, hi: 8 });
}

#[test]
fn oversized_literal_is_held_at_the_largest_value() {
    let (toks, _) = lex("99999999999999999999");
    assert_eq!(toks[0].0, Token::Integer(i64::MAX));
}

#[test]
fn products_bind_tighter_than_sums() {
    let p = program("1 + 2 * 3;");
    let e = only_expr(&p);
    match &e.node {
        Expr::Add(a, b) => {
            assert!(matches!(a.node, Expr::Integer(1)));
            assert!(matches!(b.node, Expr::Mult(_, _)));
        }
        other => panic!("{other:?}"),
    }
    assert_eq!(e.span, Span { lo: 0, hi: 9 });
}

#[test]
fn sums_are_left_associative_and_assignment_right_associative() {
    let p = program("a - b - c;");
    match &only_expr(&p).node {
        Expr::Sub(l, r) => {
            assert!(matches!(l.node, Expr::Sub(_, _)));
            assert!(matches!(&r.node, Expr::Var(n) if n == "c"));
        }
        other => panic!("{other:?}"),
    }
    let q = program("a = b += c;");
    match &only_expr(&q).node {
        Expr::Assign(l, r) => {
            assert!(matches!(&l.node, Expr::Var(n) if n == "a"));
            assert!(matches!(r.node, Expr::AddAssign(_, _)));
        }
        other => panic!("{other:?}"),
    }
}

#[test]
fn composite_node_span_merges_children() {
    let p = program("x = (1 + 2) * foo(3, 4) < 5;");
    fn check(e: &Expression) {
        let kids: Vec<&Expression> = match &e.node {
            Expr::Add(a, b) | Expr::Sub(a, b) | Expr::Mult(a, b) | Expr::Div(a, b) | Expr::Mod(a, b)
            | Expr::LessThan(a, b) | Expr::LessOrEqual(a, b) | Expr::GreaterThan(a, b)
            | Expr::GreaterOrEqual(a, b) | Expr::Equal(a, b) | Expr::NotEqual(a, b)
            | Expr::Assign(a, b) | Expr::AddAssign(a, b) | Expr::SubAssign(a, b)
            | Expr::MulAssign(a, b) | Expr::DivAssign(a, b) | Expr::ModAssign(a, b) => vec![a, b],
            Expr::FuncCall(c, args) => {
                check(c);
                args.iter().for_each(check);
                return;
            }
            Expr::Neg(a) => {
                check(a);
                return;
            }
            _ => return,
        };
        let lo = kids.iter().map(|k| k.span.lo).min().unwrap();
        let hi = kids.iter().map(|k| k.span.hi).max().unwrap();
        assert_eq!(e.span, Span { lo, hi });
        kids.into_iter().for_each(check);
    }
    check(only_expr(&p));
    assert_eq!(only_expr(&p).span, Span { lo: 0, hi: 27 });
}

#[test]
fn parsing_is_deterministic() {
    let src = "funk f(a: int) -> int { if a { ret -a; } else { ret a * 2; } } print(f(3));";
    let a = program(src);
    let b = program(src);
    assert_eq!(format!("{a:?}"), format!("{b:?}"));
}

#[test]
fn statements_of_every_kind() {
    let p = program(
        "funk f() -> void { } set a = 1; let b: int = 2; while b { break; continue; } if a { } else { ret; }",
    );
    assert_eq!(p.stmts.len(), 5);
    match &p.stmts[0].node {
        Stmt::FuncDecl(n, ps, r, body) => {
            assert_eq!(n.value, "f");
            assert!(ps.is_empty());
            assert_eq!(r.value, "void");
            assert!(body.stmts.is_empty());
        }
        other => panic!("{other:?}"),
    }
    assert!(matches!(&p.stmts[1].node, Stmt::VarDecl(q, _, None, _) if q[0] == Qualifier::Immutable));
    assert!(matches!(&p.stmts[2].node, Stmt::VarDecl(q, _, Some(t), _) if q[0] == Qualifier::Mutable && t.value == "int"));
    assert!(matches!(&p.stmts[3].node, Stmt::WhileStmt(_, body) if body.stmts.len() == 2));
    assert!(matches!(&p.stmts[4].node, Stmt::IfStmt(_, t, f) if t.stmts.is_empty() && f.stmts.len() == 1));
    assert_eq!(p.stmts[0].span, Span { lo: 0, hi: 20 });
}

#[test]
fn calls_apply_to_any_atom() {
    let p = program("5(1, 2)();");
    match &only_expr(&p).node {
        Expr::FuncCall(callee, args) => {
            assert!(args.is_empty());
            assert!(matches!(&callee.node, Expr::FuncCall(_, inner) if inner.len() == 2));
        }
        other => panic!("{other:?}"),
    }
}

#[test]
fn parse_error_names_the_offending_token() {
    let err = parse(lex("set x = ;").0).unwrap_err();
    assert_eq!(err.message, "Unexpected token");
    let (tok, span) = err.token.expect("a token");
    assert_eq!(tok, Token::Semicolon);
    assert_eq!(span, Span { lo: 8, hi: 9 });
    let eof = parse(lex("funk f() -> int {").0).unwrap_err();
    assert!(eof.token.is_none());
    assert_eq!(eof.message, "Unexpected end of file");
    let neg = parse(lex("1 * -2;").0).unwrap_err();
    assert_eq!(neg.token.unwrap().0, Token::OperMinus);
}

#[test]
fn bytecode_text() {
    assert_eq!(Bytecode::LDA("#1".to_string()).text(), "lda #1");
    assert_eq!(Bytecode::JSR("print".to_string()).text(), "jsr print");
    let all = Bytecode::output_text(vec![Bytecode::LDA("$10".to_string()), Bytecode::STA("$20".to_string())]);
    assert_eq!(all, "lda $10sta $20");
    assert!(Bytecode::output_binary(vec![Bytecode::STA("$1".to_string())]).is_none());
}

#[test]
fn code_for_main_body() {
    let p = program("funk main() -> void { }");
    assert_eq!(p.codegen().map(|c| c.len()), Some(0));
    let q = program("funk main() -> void { print(1); }");
    assert!(q.codegen().is_none());
}

#[test]
fn last_segment_of_a_path() {
    assert_eq!(last_segment_of("core::option::Option"), "Option");
    assert_eq!(last_segment_of("u8"), "u8");
    assert_eq!(last_segment_of("a::"), "");
}

