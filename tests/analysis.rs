use aglet::flags::Options;
use aglet::lexer::{Lexer, Span};
use aglet::message::{Context, Diagnostic, Message, Severity};
use aglet::parser::parse;
use aglet::semantics::Analyzer;

fn options(warn_suppress: bool) -> Options {
    Options {
        ast: false,
        warn_suppress,
        binary: false,
        language_server: false,
        input: "test.ag".to_string(),
        output: "-".to_string(),
    }
}

fn analyze_with(src: &str, warn_suppress: bool) -> Analyzer {
    let ctx = Context { filename: "test.ag".to_string(), source: src.to_string() };
    let mut lexer = Lexer::new(&ctx);
    let mut log = Vec::new();
    let tokens = lexer.tokens(&mut log);
    assert!(log.is_empty(), "lexer errors in {src:?}: {log:?}");
    let program = parse(tokens).expect("program parses");
    Analyzer::run(&program, &ctx, &options(warn_suppress))
}

fn analyze(src: &str) -> Analyzer {
    analyze_with(src, false)
}

fn errors(a: &Analyzer) -> Vec<&Diagnostic> {
    a.diagnostics().iter().filter(|d| d.severity == Severity::Error).collect()
}

fn count(a: &Analyzer, pred: impl Fn(&Message) -> bool) -> usize {
    a.diagnostics().iter().filter(|d| pred(&d.message)).count()
}

#[test]
fn shadowing_across_scopes_is_allowed() {
    let src = "set x: int = 1; funk f() -> int { let x: int = 2; ret x; }";
    let a = analyze(src);
    assert!(errors(&a).is_empty(), "{:?}", a.diagnostics());
    assert_eq!(count(&a, |m| matches!(m, Message::VariableRedeclared(_))), 0);
    // The inner `x` is the one used: it draws no unused warning, only the one on its
    // needless `let`, which points at the inner declaration.
    assert_eq!(count(&a, |m| matches!(m, Message::UnusedVariable(_))), 0);
    let inner = src.find("let x").unwrap() + 4;
    let needless: Vec<_> = a
        .diagnostics()
        .iter()
        .filter(|d| matches!(&d.message, Message::NeedlessMutability(n) if n == "x"))
        .collect();
    assert_eq!(needless.len(), 1);
    assert_eq!(needless[0].span.unwrap().lo, inner);
    assert!(!a.had_error());
}

#[test]
fn redeclaration_in_same_block_is_one_error() {
    let a = analyze("set x: int = 1; set x: int = 1;");
    let errs = errors(&a);
    assert_eq!(errs.len(), 1);
    assert!(matches!(&errs[0].message, Message::VariableRedeclared(n) if n == "x"));
    // The error points at the first declaration; a hint points at the second.
    assert_eq!(errs[0].span, Some(Span { lo: 4, hi: 5 }));
    let again: Vec<_> = a
        .diagnostics()
        .iter()
        .filter(|d| matches!(&d.message, Message::DeclaredAgain(n) if n == "x"))
        .collect();
    assert_eq!(again.len(), 1);
    assert_eq!(again[0].span, Some(Span { lo: 20, hi: 21 }));
    assert_eq!(again[0].severity, Severity::Hint);
}

#[test]
fn assigning_an_immutable_binding_is_one_error() {
    let a = analyze("set x: int = 1; x = 2;");
    let errs = errors(&a);
    assert_eq!(errs.len(), 1);
    assert!(matches!(&errs[0].message, Message::ImmutableAssign(n) if n == "x"));
    assert_eq!(count(&a, |m| matches!(m, Message::DeclaredImmutable(_))), 1);
    let b = analyze("let x: int = 1; x = 2;");
    assert!(errors(&b).is_empty());
}

#[test]
fn both_branches_returning_guarantee_a_return() {
    let a = analyze("funk f() -> int { if true { ret 1; } else { ret 2; } }");
    assert_eq!(count(&a, |m| matches!(m, Message::MightNotReturn(..))), 0);
    assert!(errors(&a).is_empty());
    let b = analyze("funk f() -> int { if true { ret 1; } }");
    assert_eq!(count(&b, |m| matches!(m, Message::MightNotReturn(..))), 1);
    assert_eq!(errors(&b).len(), 1);
}

#[test]
fn wrong_argument_count_is_one_error() {
    let a = analyze("print(1, 2);");
    let errs = errors(&a);
    assert_eq!(errs.len(), 1);
    assert!(matches!(&errs[0].message, Message::ArgumentCount(n, 1, 2) if n == "print"));
    assert_eq!(count(&a, |m| matches!(m, Message::FunctionSignature(..))), 1);
    assert!(errors(&analyze("print(1);")).is_empty());
}

#[test]
fn integer_literal_bounds() {
    assert!(errors(&analyze("32767;")).is_empty());
    let big = analyze("32768;");
    assert_eq!(errors(&big).len(), 1);
    assert!(matches!(errors(&big)[0].message, Message::IntegerTooLarge));
    assert!(errors(&analyze("-32768;")).is_empty());
    let small = analyze("-32769;");
    assert_eq!(errors(&small).len(), 1);
    assert!(matches!(errors(&small)[0].message, Message::IntegerTooSmall));
}

#[test]
fn division_by_literal_zero() {
    for src in ["1 / 0;", "1 % 0;"] {
        let a = analyze(src);
        let errs = errors(&a);
        assert_eq!(errs.len(), 1, "{src}");
        assert!(matches!(errs[0].message, Message::DivisionByZero));
        assert_eq!(errs[0].span, Some(Span { lo: 4, hi: 5 }));
    }
    let a = analyze("let x: int = 0; 1 / x;");
    assert_eq!(count(&a, |m| matches!(m, Message::DivisionByZero)), 0);
}

#[test]
fn main_rules_are_separate_errors() {
    let params = analyze("funk main(a: int, b: int) -> void { }");
    assert_eq!(errors(&params).len(), 1);
    assert!(matches!(errors(&params)[0].message, Message::MainHasParameters));
    assert_eq!(errors(&params)[0].span, Some(Span { lo: 10, hi: 24 }));
    let ret = analyze("funk main() -> int { ret 1; }");
    assert_eq!(errors(&ret).len(), 1);
    assert!(matches!(errors(&ret)[0].message, Message::MainReturnsValue));
    assert_eq!(errors(&ret)[0].span, Some(Span { lo: 15, hi: 18 }));
    let both = analyze("funk main(a: int) -> int { ret a; }");
    assert_eq!(count(&both, |m| matches!(m, Message::MainHasParameters)), 1);
    assert_eq!(count(&both, |m| matches!(m, Message::MainReturnsValue)), 1);
    assert_eq!(errors(&both).len(), 2);
    let nested = analyze("funk f() -> void { funk main() -> void { } }");
    assert_eq!(count(&nested, |m| matches!(m, Message::NestedFunction)), 1);
    assert_eq!(count(&nested, |m| matches!(m, Message::MainNotGlobal)), 1);
    assert_eq!(count(&nested, |m| matches!(m, Message::MainHasParameters | Message::MainReturnsValue)), 0);
    assert!(errors(&analyze("funk main() -> void { print(1); }")).is_empty());
}

#[test]
fn return_uses_the_declared_signature_under_shadowing() {
    let a = analyze("funk f(f: int) -> int { ret f; }");
    assert!(errors(&a).is_empty(), "{:?}", a.diagnostics());
}

#[test]
fn unused_and_needless_mutability_warnings() {
    let a = analyze("funk f(a: int, _b: int) -> void { let c: int = 1; }");
    assert!(errors(&a).is_empty());
    assert_eq!(count(&a, |m| matches!(m, Message::UnusedVariable(n) if n == "a")), 1);
    assert_eq!(count(&a, |m| matches!(m, Message::UnusedVariable(n) if n == "_b")), 0);
    assert_eq!(count(&a, |m| matches!(m, Message::UnusedVariable(n) if n == "c")), 1);
    assert_eq!(count(&a, |m| matches!(m, Message::NeedlessMutability(n) if n == "c")), 1);
    let quiet = analyze_with("funk f(a: int) -> void { let c: int = 1; }", true);
    assert!(quiet.diagnostics().is_empty());
}

#[test]
fn type_errors_are_reported() {
    let a = analyze("print(1) + 1;");
    assert_eq!(count(&a, |m| matches!(m, Message::ArithmeticTypes(..))), 1);
    let b = analyze("set v = print(1);");
    assert_eq!(count(&b, |m| matches!(m, Message::InvalidDeducedType(..))), 1);
    assert_eq!(count(&b, |m| matches!(m, Message::FunctionSignature(..))), 1);
    let c = analyze("set v: bool = 1;");
    assert_eq!(count(&c, |m| matches!(m, Message::UnknownDataType(n) if n == "bool")), 1);
    let d = analyze("funk f() -> float { }");
    assert_eq!(count(&d, |m| matches!(m, Message::UnknownReturnType(n) if n == "float")), 1);
}

#[test]
fn names_and_calls_are_resolved() {
    let a = analyze("y;");
    assert_eq!(count(&a, |m| matches!(m, Message::UndeclaredVariable(n) if n == "y")), 1);
    let b = analyze("g(1);");
    assert_eq!(count(&b, |m| matches!(m, Message::UndeclaredFunction(n) if n == "g")), 1);
    let c = analyze("set v: int = 1; v(2);");
    assert_eq!(count(&c, |m| matches!(m, Message::NotAFunction(n) if n == "v")), 1);
    let d = analyze("5(1, 2);");
    assert_eq!(count(&d, |m| matches!(m, Message::CompositeCallee)), 1);
    let e = analyze("1 = 2;");
    assert_eq!(count(&e, |m| matches!(m, Message::IndirectAssign)), 1);
    let f = analyze("funk g() -> void { } funk g() -> void { }");
    assert_eq!(count(&f, |m| matches!(m, Message::FunctionRedeclared(n) if n == "g")), 1);
}

#[test]
fn return_and_loop_rules() {
    assert_eq!(count(&analyze("ret 1;"), |m| matches!(m, Message::ReturnOutsideFunction)), 1);
    assert_eq!(count(&analyze("funk f() -> int { ret; }"), |m| matches!(m, Message::ReturnMissingValue)), 1);
    assert_eq!(count(&analyze("funk f() -> void { ret 1; }"), |m| matches!(m, Message::ReturnHasValue)), 1);
    assert_eq!(count(&analyze("funk f() -> int { ret print(1); }"), |m| matches!(m, Message::NoValue)), 1);
    assert_eq!(count(&analyze("break;"), |m| matches!(m, Message::BreakOutsideLoop)), 1);
    assert_eq!(count(&analyze("continue;"), |m| matches!(m, Message::ContinueOutsideLoop)), 1);
    assert!(errors(&analyze("let i: int = 0; while i < 3 { i += 1; break; }")).is_empty());
    assert_eq!(count(&analyze("if print(1) { }"), |m| matches!(m, Message::NoValue)), 1);
}

#[test]
fn assignment_type_mismatch() {
    let a = analyze("let x: int = 1; x = print(1);");
    assert_eq!(count(&a, |m| matches!(m, Message::AssignTypes(..))), 1);
    assert_eq!(count(&a, |m| matches!(m, Message::DeclaredAsType(..))), 1);
}

#[test]
fn declared_type_must_match_value() {
    let a = analyze("set v: int = print(1);");
    assert_eq!(count(&a, |m| matches!(m, Message::IncompatibleDeclaration(n, _, d) if n == "v" && d == "int")), 1);
    assert_eq!(count(&a, |m| matches!(m, Message::FunctionSignature(n, _) if n == "print")), 1);
    assert_eq!(errors(&a).len(), 1);
}

#[test]
fn negating_a_non_integer() {
    let a = analyze("-print(1);");
    assert_eq!(count(&a, |m| matches!(m, Message::NegateType(_))), 1);
    assert!(errors(&analyze("let y: int = 1; y = -y;")).is_empty());
}
