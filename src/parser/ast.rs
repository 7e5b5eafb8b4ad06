use crate::lexer::Span;
use vstd::prelude::*;

verus! {

/// A sequence of statements: the top level, a function body or a branch body.
#[derive(Debug)]
pub struct Program {
    pub stmts: Vec<Statement>,
}

#[derive(Debug)]
pub struct Statement {
    pub span: Span,
    pub node: Stmt,
}

#[derive(Debug)]
pub enum Stmt {
    ExprStmt(Box<Expression>),
    /// Name, parameters, return type and body.
    FuncDecl(Ident, Vec<Param>, Ident, Program),
    ReturnStmt(Option<Expression>),
    /// Condition, then-branch, else-branch (empty when omitted).
    IfStmt(Box<Expression>, Program, Program),
    /// Qualifiers, name, declared type, initializer.
    VarDecl(Vec<Qualifier>, Ident, Option<Ident>, Box<Expression>),
    WhileStmt(Box<Expression>, Program),
    BreakStmt,
    ContinueStmt,
}

#[derive(Debug)]
pub struct Expression {
    pub span: Span,
    pub node: Expr,
}

#[derive(Debug)]
pub enum Expr {
    Neg(Box<Expression>),
    Add(Box<Expression>, Box<Expression>),
    Sub(Box<Expression>, Box<Expression>),
    Mult(Box<Expression>, Box<Expression>),
    Div(Box<Expression>, Box<Expression>),
    Mod(Box<Expression>, Box<Expression>),
    LessThan(Box<Expression>, Box<Expression>),
    LessOrEqual(Box<Expression>, Box<Expression>),
    GreaterThan(Box<Expression>, Box<Expression>),
    GreaterOrEqual(Box<Expression>, Box<Expression>),
    Equal(Box<Expression>, Box<Expression>),
    NotEqual(Box<Expression>, Box<Expression>),
    Assign(Box<Expression>, Box<Expression>),
    AddAssign(Box<Expression>, Box<Expression>),
    SubAssign(Box<Expression>, Box<Expression>),
    MulAssign(Box<Expression>, Box<Expression>),
    DivAssign(Box<Expression>, Box<Expression>),
    ModAssign(Box<Expression>, Box<Expression>),
    Var(String),
    Integer(i64),
    FuncCall(Box<Expression>, Vec<Expression>),
}

#[derive(Debug)]
pub struct Param {
    pub span: Span,
    pub name: Ident,
    pub datatype: Ident,
}

#[derive(Debug)]
pub struct Ident {
    pub span: Span,
    pub value: String,
}

#[derive(Debug, Clone, Copy, PartialEq, Eq, Structural)]
pub enum Qualifier {
    Mutable,
    Immutable,
}

/// The operators with two operands.
#[derive(Clone, Copy, Debug, PartialEq, Eq, Structural)]
pub enum BinOp {
    Add,
    Sub,
    Mult,
    Div,
    Mod,
    LessThan,
    LessOrEqual,
    GreaterThan,
    GreaterOrEqual,
    Equal,
    NotEqual,
    Assign,
    AddAssign,
    SubAssign,
    MulAssign,
    DivAssign,
    ModAssign,
}

/// The mathematical value of an expression tree.
pub struct ExprV {
    pub span: Span,
    pub node: ExprN,
}

pub enum ExprN {
    Neg(Box<ExprV>),
    Bin(BinOp, Box<ExprV>, Box<ExprV>),
    Var(Seq<char>),
    Integer(i64),
    FuncCall(Box<ExprV>, Seq<ExprV>),
}

pub struct IdentV {
    pub span: Span,
    pub value: Seq<char>,
}

pub struct ParamV {
    pub span: Span,
    pub name: IdentV,
    pub datatype: IdentV,
}

/// The mathematical value of a statement.
pub struct StmtV {
    pub span: Span,
    pub node: StmtN,
}

pub enum StmtN {
    ExprStmt(ExprV),
    FuncDecl(IdentV, Seq<ParamV>, IdentV, Seq<StmtV>),
    ReturnStmt(Option<ExprV>),
    IfStmt(ExprV, Seq<StmtV>, Seq<StmtV>),
    VarDecl(Seq<Qualifier>, IdentV, Option<IdentV>, ExprV),
    WhileStmt(ExprV, Seq<StmtV>),
    BreakStmt,
    ContinueStmt,
}

pub open spec fn ident_v(i: Ident) -> IdentV {
    IdentV { span: i.span, value: i.value@ }
}

pub open spec fn param_v(p: Param) -> ParamV {
    ParamV { span: p.span, name: ident_v(p.name), datatype: ident_v(p.datatype) }
}

/// The value of an expression tree.
pub open spec fn expr_v(e: Expression) -> ExprV
    decreases e,
{
    let s = e.span;
    match e.node {
        Expr::Neg(a) => ExprV { span: s, node: ExprN::Neg(Box::new(expr_v(*a))) },
        Expr::Add(a, b) => ExprV { span: s, node: ExprN::Bin(BinOp::Add, Box::new(expr_v(*a)), Box::new(expr_v(*b))) },
        Expr::Sub(a, b) => ExprV { span: s, node: ExprN::Bin(BinOp::Sub, Box::new(expr_v(*a)), Box::new(expr_v(*b))) },
        Expr::Mult(a, b) => ExprV { span: s, node: ExprN::Bin(BinOp::Mult, Box::new(expr_v(*a)), Box::new(expr_v(*b))) },
        Expr::Div(a, b) => ExprV { span: s, node: ExprN::Bin(BinOp::Div, Box::new(expr_v(*a)), Box::new(expr_v(*b))) },
        Expr::Mod(a, b) => ExprV { span: s, node: ExprN::Bin(BinOp::Mod, Box::new(expr_v(*a)), Box::new(expr_v(*b))) },
        Expr::LessThan(a, b) => ExprV { span: s, node: ExprN::Bin(BinOp::LessThan, Box::new(expr_v(*a)), Box::new(expr_v(*b))) },
        Expr::LessOrEqual(a, b) => ExprV { span: s, node: ExprN::Bin(BinOp::LessOrEqual, Box::new(expr_v(*a)), Box::new(expr_v(*b))) },
        Expr::GreaterThan(a, b) => ExprV { span: s, node: ExprN::Bin(BinOp::GreaterThan, Box::new(expr_v(*a)), Box::new(expr_v(*b))) },
        Expr::GreaterOrEqual(a, b) => ExprV { span: s, node: ExprN::Bin(BinOp::GreaterOrEqual, Box::new(expr_v(*a)), Box::new(expr_v(*b))) },
        Expr::Equal(a, b) => ExprV { span: s, node: ExprN::Bin(BinOp::Equal, Box::new(expr_v(*a)), Box::new(expr_v(*b))) },
        Expr::NotEqual(a, b) => ExprV { span: s, node: ExprN::Bin(BinOp::NotEqual, Box::new(expr_v(*a)), Box::new(expr_v(*b))) },
        Expr::Assign(a, b) => ExprV { span: s, node: ExprN::Bin(BinOp::Assign, Box::new(expr_v(*a)), Box::new(expr_v(*b))) },
        Expr::AddAssign(a, b) => ExprV { span: s, node: ExprN::Bin(BinOp::AddAssign, Box::new(expr_v(*a)), Box::new(expr_v(*b))) },
        Expr::SubAssign(a, b) => ExprV { span: s, node: ExprN::Bin(BinOp::SubAssign, Box::new(expr_v(*a)), Box::new(expr_v(*b))) },
        Expr::MulAssign(a, b) => ExprV { span: s, node: ExprN::Bin(BinOp::MulAssign, Box::new(expr_v(*a)), Box::new(expr_v(*b))) },
        Expr::DivAssign(a, b) => ExprV { span: s, node: ExprN::Bin(BinOp::DivAssign, Box::new(expr_v(*a)), Box::new(expr_v(*b))) },
        Expr::ModAssign(a, b) => ExprV { span: s, node: ExprN::Bin(BinOp::ModAssign, Box::new(expr_v(*a)), Box::new(expr_v(*b))) },
        Expr::Var(name) => ExprV { span: s, node: ExprN::Var(name@) },
        Expr::Integer(v) => ExprV { span: s, node: ExprN::Integer(v) },
        Expr::FuncCall(c, args) => ExprV { span: s, node: ExprN::FuncCall(Box::new(expr_v(*c)), exprs_v(args@)) },
    }
}

pub open spec fn exprs_v(s: Seq<Expression>) -> Seq<ExprV>
    decreases s,
{
    if s.len() == 0 {
        Seq::empty()
    } else {
        seq![expr_v(s[0])] + exprs_v(s.drop_first())
    }
}

/// The value of a statement.
pub open spec fn stmt_v(st: Statement) -> StmtV
    decreases st,
{
    let s = st.span;
    match st.node {
        Stmt::ExprStmt(e) => StmtV { span: s, node: StmtN::ExprStmt(expr_v(*e)) },
        Stmt::FuncDecl(n, ps, r, b) => StmtV {
            span: s,
            node: StmtN::FuncDecl(ident_v(n), ps@.map_values(|p: Param| param_v(p)), ident_v(r), stmts_v(b.stmts@)),
        },
        Stmt::ReturnStmt(e) => StmtV {
            span: s,
            node: StmtN::ReturnStmt(
                match e {
                    Some(x) => Some(expr_v(x)),
                    None => None,
                },
            ),
        },
        Stmt::IfStmt(c, t, f) => StmtV {
            span: s,
            node: StmtN::IfStmt(expr_v(*c), stmts_v(t.stmts@), stmts_v(f.stmts@)),
        },
        Stmt::VarDecl(q, n, t, e) => StmtV {
            span: s,
            node: StmtN::VarDecl(
                q@,
                ident_v(n),
                match t {
                    Some(d) => Some(ident_v(d)),
                    None => None,
                },
                expr_v(*e),
            ),
        },
        Stmt::WhileStmt(c, b) => StmtV { span: s, node: StmtN::WhileStmt(expr_v(*c), stmts_v(b.stmts@)) },
        Stmt::BreakStmt => StmtV { span: s, node: StmtN::BreakStmt },
        Stmt::ContinueStmt => StmtV { span: s, node: StmtN::ContinueStmt },
    }
}

pub open spec fn stmts_v(s: Seq<Statement>) -> Seq<StmtV>
    decreases s,
{
    if s.len() == 0 {
        Seq::empty()
    } else {
        seq![stmt_v(s[0])] + stmts_v(s.drop_first())
    }
}

} // verus!
