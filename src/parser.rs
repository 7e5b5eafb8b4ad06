pub mod ast;

use crate::lexer::{merge, Span, Token};
use ast::{
    expr_v, exprs_v, ident_v, param_v, stmt_v, stmts_v, BinOp, Expr, ExprN, ExprV, Expression, Ident,
    IdentV, Param, ParamV, Program, Qualifier, Statement, Stmt, StmtN, StmtV,
};
use vstd::prelude::*;

verus! {

/// The operator that a token stands for at each precedence level.
pub open spec fn assign_op(t: Token) -> Option<BinOp> {
    match t {
        Token::OperAssign => Some(BinOp::Assign),
        Token::OperPlusAssign => Some(BinOp::AddAssign),
        Token::OperMinusAssign => Some(BinOp::SubAssign),
        Token::OperMultAssign => Some(BinOp::MulAssign),
        Token::OperDivAssign => Some(BinOp::DivAssign),
        Token::OperModAssign => Some(BinOp::ModAssign),
        _ => None,
    }
}

pub open spec fn compare_op(t: Token) -> Option<BinOp> {
    match t {
        Token::OperLessThan => Some(BinOp::LessThan),
        Token::OperLessOrEqual => Some(BinOp::LessOrEqual),
        Token::OperGreaterThan => Some(BinOp::GreaterThan),
        Token::OperGreaterOrEqual => Some(BinOp::GreaterOrEqual),
        Token::OperEqual => Some(BinOp::Equal),
        Token::OperNotEqual => Some(BinOp::NotEqual),
        _ => None,
    }
}

pub open spec fn term_op(t: Token) -> Option<BinOp> {
    match t {
        Token::OperPlus => Some(BinOp::Add),
        Token::OperMinus => Some(BinOp::Sub),
        _ => None,
    }
}

pub open spec fn factor_op(t: Token) -> Option<BinOp> {
    match t {
        Token::OperMult => Some(BinOp::Mult),
        Token::OperDiv => Some(BinOp::Div),
        Token::OperMod => Some(BinOp::Mod),
        _ => None,
    }
}

/// The operator of the given level that the token at `p` stands for.
pub open spec fn op_at(toks: Seq<(Token, Span)>, p: int, level: int) -> Option<BinOp> {
    if 0 <= p < toks.len() {
        if level == 0 {
            assign_op(toks[p].0)
        } else if level == 1 {
            compare_op(toks[p].0)
        } else if level == 2 {
            term_op(toks[p].0)
        } else {
            factor_op(toks[p].0)
        }
    } else {
        None
    }
}

pub open spec fn mk_bin(op: BinOp, a: ExprV, b: ExprV) -> ExprV {
    ExprV { span: merge(a.span, b.span), node: ExprN::Bin(op, Box::new(a), Box::new(b)) }
}

pub open spec fn mk_call(callee: ExprV, args: Seq<ExprV>, close: Span) -> ExprV {
    ExprV { span: merge(callee.span, close), node: ExprN::FuncCall(Box::new(callee), args) }
}

/// The span of the token at `p`.
pub open spec fn span_at(toks: Seq<(Token, Span)>, p: int) -> Span {
    if 0 <= p < toks.len() {
        toks[p].1
    } else {
        Span { lo: 0, hi: 0 }
    }
}

/// Whether the token at `p` is the punctuation `t`.
pub open spec fn at(toks: Seq<(Token, Span)>, p: int, t: Token) -> bool {
    0 <= p < toks.len() && toks[p].0 == t
}

/// Parses `assign := compare (assign-op assign)?`, right-associative. Results are the
/// tree and the position after it, or the position of the offending token (the length
/// of `toks` at end of input).
pub open spec fn s_assign(toks: Seq<(Token, Span)>, pos: int) -> Result<(ExprV, int), int>
    decreases toks.len() - pos, 9int,
{
    if pos < 0 || pos > toks.len() {
        Err(pos)
    } else {
        match s_binary(toks, pos, 1) {
            Err(q) => Err(q),
            Ok((lhs, p1)) => match op_at(toks, p1, 0) {
                Some(op) => if p1 >= pos {
                    match s_assign(toks, p1 + 1) {
                        Err(q) => Err(q),
                        Ok((rhs, p2)) => Ok((mk_bin(op, lhs, rhs), p2)),
                    }
                } else {
                    Err(p1)
                },
                None => Ok((lhs, p1)),
            },
        }
    }
}

/// Parses a left-associative level: comparisons (1), sums (2) and products (3).
pub open spec fn s_binary(toks: Seq<(Token, Span)>, pos: int, level: int) -> Result<(ExprV, int), int>
    decreases toks.len() - pos, 2 + 2 * (4 - level),
{
    if pos < 0 || pos > toks.len() || level < 1 || level > 3 {
        Err(pos)
    } else {
        match s_operand(toks, pos, level) {
            Err(q) => Err(q),
            Ok((lhs, p1)) => if pos <= p1 <= toks.len() {
                s_binary_rest(toks, lhs, p1, level)
            } else {
                Err(p1)
            },
        }
    }
}

/// Parses the operands and operators of a left-associative level after its first operand.
pub open spec fn s_binary_rest(toks: Seq<(Token, Span)>, lhs: ExprV, p: int, level: int) -> Result<
    (ExprV, int),
    int,
>
    decreases toks.len() - p, 1 + 2 * (4 - level),
{
    if p < 0 || p > toks.len() || level < 1 || level > 3 {
        Err(p)
    } else {
        match op_at(toks, p, level) {
            None => Ok((lhs, p)),
            Some(op) => {
                let next = if level == 3 {
                    s_atom(toks, p + 1)
                } else {
                    s_binary(toks, p + 1, level + 1)
                };
                match next {
                    Err(q) => Err(q),
                    Ok((rhs, p2)) => if p < p2 <= toks.len() {
                        s_binary_rest(toks, mk_bin(op, lhs, rhs), p2, level)
                    } else {
                        Err(p2)
                    },
                }
            },
        }
    }
}

/// The first operand of a level: the next level up, or for products an atom with an
/// optional unary minus.
pub open spec fn s_operand(toks: Seq<(Token, Span)>, pos: int, level: int) -> Result<(ExprV, int), int>
    decreases toks.len() - pos, 1 + 2 * (4 - level),
{
    if pos < 0 || pos > toks.len() || level < 1 || level > 3 {
        Err(pos)
    } else if level < 3 {
        s_binary(toks, pos, level + 1)
    } else if at(toks, pos, Token::OperMinus) {
        match s_atom(toks, pos + 1) {
            Err(q) => Err(q),
            Ok((a, p1)) => Ok((ExprV { span: merge(toks[pos].1, a.span), node: ExprN::Neg(Box::new(a)) }, p1)),
        }
    } else {
        s_atom(toks, pos)
    }
}

/// Parses an identifier, a literal or a parenthesized expression, then any calls.
pub open spec fn s_atom(toks: Seq<(Token, Span)>, pos: int) -> Result<(ExprV, int), int>
    decreases toks.len() - pos, 1int,
{
    if pos < 0 || pos >= toks.len() {
        Err(pos)
    } else {
        let sp = toks[pos].1;
        match toks[pos].0 {
            Token::Identifier(s) => s_postfix(toks, ExprV { span: sp, node: ExprN::Var(s@) }, pos + 1),
            Token::Integer(v) => s_postfix(toks, ExprV { span: sp, node: ExprN::Integer(v) }, pos + 1),
            Token::True => s_postfix(toks, ExprV { span: sp, node: ExprN::Integer(1) }, pos + 1),
            Token::False => s_postfix(toks, ExprV { span: sp, node: ExprN::Integer(0) }, pos + 1),
            Token::LParen => match s_assign(toks, pos + 1) {
                Err(q) => Err(q),
                Ok((e, p1)) => if p1 > pos && at(toks, p1, Token::RParen) {
                    s_postfix(toks, e, p1 + 1)
                } else {
                    Err(p1)
                },
            },
            _ => Err(pos),
        }
    }
}

/// Parses the calls `(args)` that follow an atom.
pub open spec fn s_postfix(toks: Seq<(Token, Span)>, base: ExprV, p: int) -> Result<(ExprV, int), int>
    decreases toks.len() - p, 0int,
{
    if p < 0 || p > toks.len() {
        Err(p)
    } else if at(toks, p, Token::LParen) {
        if at(toks, p + 1, Token::RParen) {
            s_postfix(toks, mk_call(base, Seq::empty(), toks[p + 1].1), p + 2)
        } else {
            match s_args(toks, p + 1, Seq::empty()) {
                Err(q) => Err(q),
                Ok((args, p2)) => if p2 > p && at(toks, p2, Token::RParen) {
                    s_postfix(toks, mk_call(base, args, toks[p2].1), p2 + 1)
                } else {
                    Err(p2)
                },
            }
        }
    } else {
        Ok((base, p))
    }
}

/// Parses a comma-separated list of one or more arguments, appending them to `acc`.
pub open spec fn s_args(toks: Seq<(Token, Span)>, p: int, acc: Seq<ExprV>) -> Result<(Seq<ExprV>, int), int>
    decreases toks.len() - p, 10int,
{
    if p < 0 || p > toks.len() {
        Err(p)
    } else {
        match s_assign(toks, p) {
            Err(q) => Err(q),
            Ok((e, p1)) => if p1 > p && at(toks, p1, Token::Comma) {
                s_args(toks, p1 + 1, acc.push(e))
            } else {
                Ok((acc.push(e), p1))
            },
        }
    }
}

/// Whether a statement can start with the token.
pub open spec fn starts_statement(t: Token) -> bool {
    match t {
        Token::KwdFunction | Token::KwdReturn | Token::KwdIf | Token::KwdWhile | Token::KwdBreak
        | Token::KwdContinue | Token::KwdConstant | Token::KwdMutable | Token::Identifier(_)
        | Token::Integer(_) | Token::True | Token::False | Token::LParen | Token::OperMinus => true,
        _ => false,
    }
}

/// The identifier at `p`.
pub open spec fn ident_at(toks: Seq<(Token, Span)>, p: int) -> Option<IdentV> {
    if 0 <= p < toks.len() {
        match toks[p].0 {
            Token::Identifier(s) => Some(IdentV { span: toks[p].1, value: s@ }),
            _ => None,
        }
    } else {
        None
    }
}

/// Parses `name : type` at `p`.
pub open spec fn s_param(toks: Seq<(Token, Span)>, p: int) -> Option<ParamV> {
    match (ident_at(toks, p), ident_at(toks, p + 2)) {
        (Some(n), Some(t)) => if at(toks, p + 1, Token::Colon) {
            Some(ParamV { span: merge(n.span, t.span), name: n, datatype: t })
        } else {
            None
        },
        _ => None,
    }
}

/// The position of the first token of `name : type` at `p` that does not fit.
pub open spec fn param_error(toks: Seq<(Token, Span)>, p: int) -> int {
    if ident_at(toks, p) is None {
        p
    } else if !at(toks, p + 1, Token::Colon) {
        p + 1
    } else {
        p + 2
    }
}

/// Parses a comma-separated list of one or more parameters, appending them to `acc`.
pub open spec fn s_params(toks: Seq<(Token, Span)>, p: int, acc: Seq<ParamV>) -> Result<(Seq<ParamV>, int), int>
    decreases toks.len() - p,
{
    if p < 0 || p > toks.len() {
        Err(p)
    } else {
        match s_param(toks, p) {
            None => Err(param_error(toks, p)),
            Some(x) => if at(toks, p + 3, Token::Comma) {
                s_params(toks, p + 4, acc.push(x))
            } else {
                Ok((acc.push(x), p + 3))
            },
        }
    }
}

/// Parses statements for as long as one can start, appending them to `acc`.
pub open spec fn s_stmts(toks: Seq<(Token, Span)>, pos: int, acc: Seq<StmtV>) -> Result<(Seq<StmtV>, int), int>
    decreases toks.len() - pos, 21int,
{
    if pos < 0 || pos > toks.len() {
        Err(pos)
    } else if pos < toks.len() && starts_statement(toks[pos].0) {
        match s_stmt(toks, pos) {
            Err(q) => Err(q),
            Ok((st, p1)) => if pos < p1 <= toks.len() {
                s_stmts(toks, p1, acc.push(st))
            } else {
                Err(p1)
            },
        }
    } else {
        Ok((acc, pos))
    }
}

/// Parses `{ statements }` at `pos`.
pub open spec fn s_braced(toks: Seq<(Token, Span)>, pos: int) -> Result<(Seq<StmtV>, int), int>
    decreases toks.len() - pos, 22int,
{
    if !at(toks, pos, Token::LBrace) {
        Err(pos)
    } else {
        match s_stmts(toks, pos + 1, Seq::empty()) {
            Err(q) => Err(q),
            Ok((body, p1)) => if at(toks, p1, Token::RBrace) {
                Ok((body, p1 + 1))
            } else {
                Err(p1)
            },
        }
    }
}

/// A statement that ends with a `;` at `p`.
pub open spec fn ended(toks: Seq<(Token, Span)>, start: Span, node: StmtN, p: int) -> Result<(StmtV, int), int> {
    if at(toks, p, Token::Semicolon) {
        Ok((StmtV { span: merge(start, toks[p].1), node }, p + 1))
    } else {
        Err(p)
    }
}

/// Parses `funk name ( params? ) -> type { statements }` at `pos`.
pub open spec fn s_func(toks: Seq<(Token, Span)>, pos: int) -> Result<(StmtV, int), int>
    decreases toks.len() - pos, 19int,
{
    if pos < 0 || pos >= toks.len() {
        Err(pos)
    } else if ident_at(toks, pos + 1) is None {
        Err(pos + 1)
    } else if !at(toks, pos + 2, Token::LParen) {
        Err(pos + 2)
    } else {
        let params = if at(toks, pos + 3, Token::RParen) {
            Ok((Seq::empty(), pos + 3))
        } else {
            s_params(toks, pos + 3, Seq::empty())
        };
        match params {
            Err(q) => Err(q),
            Ok((ps, p1)) => if !at(toks, p1, Token::RParen) {
                Err(p1)
            } else if !at(toks, p1 + 1, Token::Arrow) {
                Err(p1 + 1)
            } else if ident_at(toks, p1 + 2) is None {
                Err(p1 + 2)
            } else if p1 <= pos {
                Err(p1)
            } else {
                match s_braced(toks, p1 + 3) {
                    Err(q) => Err(q),
                    Ok((body, p2)) => Ok((
                        StmtV {
                            span: merge(toks[pos].1, span_at(toks, p2 - 1)),
                            node: StmtN::FuncDecl(
                                ident_at(toks, pos + 1)->Some_0,
                                ps,
                                ident_at(toks, p1 + 2)->Some_0,
                                body,
                            ),
                        },
                        p2,
                    )),
                }
            },
        }
    }
}

/// Parses `set|let name (: type)? = value ;` at `pos`.
pub open spec fn s_decl(toks: Seq<(Token, Span)>, pos: int, q: Qualifier) -> Result<(StmtV, int), int>
    decreases toks.len() - pos, 19int,
{
    if pos < 0 || pos >= toks.len() {
        Err(pos)
    } else if ident_at(toks, pos + 1) is None {
        Err(pos + 1)
    } else {
        let name = ident_at(toks, pos + 1)->Some_0;
        if at(toks, pos + 2, Token::OperAssign) {
            match s_assign(toks, pos + 3) {
                Err(e) => Err(e),
                Ok((v, p1)) => ended(toks, toks[pos].1, StmtN::VarDecl(seq![q], name, None, v), p1),
            }
        } else if !at(toks, pos + 2, Token::Colon) {
            Err(pos + 2)
        } else if ident_at(toks, pos + 3) is None {
            Err(pos + 3)
        } else if !at(toks, pos + 4, Token::OperAssign) {
            Err(pos + 4)
        } else {
            match s_assign(toks, pos + 5) {
                Err(e) => Err(e),
                Ok((v, p1)) => ended(
                    toks,
                    toks[pos].1,
                    StmtN::VarDecl(seq![q], name, Some(ident_at(toks, pos + 3)->Some_0), v),
                    p1,
                ),
            }
        }
    }
}

/// Parses one statement at `pos`.
pub open spec fn s_stmt(toks: Seq<(Token, Span)>, pos: int) -> Result<(StmtV, int), int>
    decreases toks.len() - pos, 20int,
{
    if pos < 0 || pos >= toks.len() {
        Err(pos)
    } else {
        let kw = toks[pos].1;
        match toks[pos].0 {
            Token::KwdFunction => s_func(toks, pos),
            Token::KwdConstant => s_decl(toks, pos, Qualifier::Immutable),
            Token::KwdMutable => s_decl(toks, pos, Qualifier::Mutable),
            Token::KwdReturn => if at(toks, pos + 1, Token::Semicolon) {
                ended(toks, kw, StmtN::ReturnStmt(None), pos + 1)
            } else {
                match s_assign(toks, pos + 1) {
                    Err(q) => Err(q),
                    Ok((e, p1)) => ended(toks, kw, StmtN::ReturnStmt(Some(e)), p1),
                }
            },
            Token::KwdBreak => ended(toks, kw, StmtN::BreakStmt, pos + 1),
            Token::KwdContinue => ended(toks, kw, StmtN::ContinueStmt, pos + 1),
            Token::KwdWhile => match s_assign(toks, pos + 1) {
                Err(q) => Err(q),
                Ok((c, p1)) => if p1 <= pos || p1 > toks.len() {
                    Err(p1)
                } else {
                    match s_braced(toks, p1) {
                        Err(q) => Err(q),
                        Ok((body, p2)) => Ok((
                            StmtV { span: merge(kw, span_at(toks, p2 - 1)), node: StmtN::WhileStmt(c, body) },
                            p2,
                        )),
                    }
                },
            },
            Token::KwdIf => match s_assign(toks, pos + 1) {
                Err(q) => Err(q),
                Ok((c, p1)) => if p1 <= pos || p1 > toks.len() {
                    Err(p1)
                } else {
                    match s_braced(toks, p1) {
                        Err(q) => Err(q),
                        Ok((t, p2)) => if p2 <= pos {
                            Err(p2)
                        } else if at(toks, p2, Token::KwdElse) {
                            match s_braced(toks, p2 + 1) {
                                Err(q) => Err(q),
                                Ok((f, p3)) => Ok((
                                    StmtV { span: merge(kw, span_at(toks, p3 - 1)), node: StmtN::IfStmt(c, t, f) },
                                    p3,
                                )),
                            }
                        } else {
                            Ok((
                                StmtV {
                                    span: merge(kw, span_at(toks, p2 - 1)),
                                    node: StmtN::IfStmt(c, t, Seq::empty()),
                                },
                                p2,
                            ))
                        },
                    }
                },
            },
            _ => match s_assign(toks, pos) {
                Err(q) => Err(q),
                Ok((e, p1)) => ended(toks, e.span, StmtN::ExprStmt(e), p1),
            },
        }
    }
}

/// Parses a whole token sequence into its statements, or gives the position of the
/// first token that fits no production (the length of `toks` at a premature end).
pub open spec fn s_program(toks: Seq<(Token, Span)>) -> Result<Seq<StmtV>, int> {
    match s_stmts(toks, 0, Seq::empty()) {
        Err(q) => Err(q),
        Ok((ss, p)) => if p == toks.len() {
            Ok(ss)
        } else {
            Err(p)
        },
    }
}

/// Every operator node in the tree spans exactly the merge of its two operands' spans.
pub open spec fn merged(e: ExprV) -> bool
    decreases e,
{
    match e.node {
        ExprN::Bin(_, a, b) => e.span == merge(a.span, b.span) && merged(*a) && merged(*b),
        ExprN::Neg(a) => merged(*a),
        ExprN::FuncCall(c, args) => merged(*c) && all_merged(args),
        _ => true,
    }
}

pub open spec fn all_merged(s: Seq<ExprV>) -> bool
    decreases s,
{
    if s.len() == 0 {
        true
    } else {
        merged(s[0]) && all_merged(s.drop_first())
    }
}

/// `merged` holds of every expression in a statement.
pub open spec fn stmt_merged(st: StmtV) -> bool
    decreases st,
{
    match st.node {
        StmtN::ExprStmt(e) => merged(e),
        StmtN::FuncDecl(_, _, _, body) => stmts_merged(body),
        StmtN::ReturnStmt(e) => match e {
            Some(x) => merged(x),
            None => true,
        },
        StmtN::IfStmt(c, t, f) => merged(c) && stmts_merged(t) && stmts_merged(f),
        StmtN::VarDecl(_, _, _, e) => merged(e),
        StmtN::WhileStmt(c, body) => merged(c) && stmts_merged(body),
        _ => true,
    }
}

pub open spec fn stmts_merged(s: Seq<StmtV>) -> bool
    decreases s,
{
    if s.len() == 0 {
        true
    } else {
        stmt_merged(s[0]) && stmts_merged(s.drop_first())
    }
}

pub proof fn lemma_all_merged_push(s: Seq<ExprV>, x: ExprV)
    ensures
        all_merged(s.push(x)) == (all_merged(s) && merged(x)),
    decreases s.len(),
{
    let t = s.push(x);
    assert(t[0] == (if s.len() == 0 { x } else { s[0] }));
    if s.len() == 0 {
        assert(t.drop_first() =~= Seq::<ExprV>::empty());
        assert(all_merged(t.drop_first()));
    } else {
        assert(t.drop_first() =~= s.drop_first().push(x));
        lemma_all_merged_push(s.drop_first(), x);
    }
}

pub proof fn lemma_stmts_merged_push(s: Seq<StmtV>, x: StmtV)
    ensures
        stmts_merged(s.push(x)) == (stmts_merged(s) && stmt_merged(x)),
    decreases s.len(),
{
    let t = s.push(x);
    assert(t[0] == (if s.len() == 0 { x } else { s[0] }));
    if s.len() == 0 {
        assert(t.drop_first() =~= Seq::<StmtV>::empty());
        assert(stmts_merged(t.drop_first()));
    } else {
        assert(t.drop_first() =~= s.drop_first().push(x));
        lemma_stmts_merged_push(s.drop_first(), x);
    }
}

/// How an expression parse relates to the grammar.
pub open spec fn expr_res(r: Result<(Expression, usize), usize>, s: Result<(ExprV, int), int>) -> bool {
    match (r, s) {
        (Ok((e, p)), Ok((ev, q))) => expr_v(e) == ev && p == q,
        (Err(p), Err(q)) => p == q,
        _ => false,
    }
}

/// Positions move forward and stay within the input.
pub open spec fn advances<T>(r: Result<(T, usize), usize>, pos: int, len: int) -> bool {
    match r {
        Ok((_, p)) => pos < p <= len,
        Err(q) => q <= len,
    }
}

pub proof fn lemma_exprs_v_push(s: Seq<Expression>, x: Expression)
    ensures
        exprs_v(s.push(x)) == exprs_v(s).push(expr_v(x)),
    decreases s.len(),
{
    let t = s.push(x);
    assert(t[0] == (if s.len() == 0 { x } else { s[0] }));
    if s.len() == 0 {
        assert(t.drop_first() =~= Seq::<Expression>::empty());
        assert(exprs_v(t.drop_first()) == Seq::<ExprV>::empty());
        assert(exprs_v(s) == Seq::<ExprV>::empty());
        assert(exprs_v(t) =~= exprs_v(s).push(expr_v(x)));
    } else {
        assert(t.drop_first() =~= s.drop_first().push(x));
        lemma_exprs_v_push(s.drop_first(), x);
        assert(exprs_v(t) =~= exprs_v(s).push(expr_v(x)));
    }
}

pub proof fn lemma_stmts_v_push(s: Seq<Statement>, x: Statement)
    ensures
        stmts_v(s.push(x)) == stmts_v(s).push(stmt_v(x)),
    decreases s.len(),
{
    let t = s.push(x);
    assert(t[0] == (if s.len() == 0 { x } else { s[0] }));
    if s.len() == 0 {
        assert(t.drop_first() =~= Seq::<Statement>::empty());
        assert(stmts_v(t.drop_first()) == Seq::<StmtV>::empty());
        assert(stmts_v(s) == Seq::<StmtV>::empty());
        assert(stmts_v(t) =~= stmts_v(s).push(stmt_v(x)));
    } else {
        assert(t.drop_first() =~= s.drop_first().push(x));
        lemma_stmts_v_push(s.drop_first(), x);
        assert(stmts_v(t) =~= stmts_v(s).push(stmt_v(x)));
    }
}

fn is_at(toks: &Vec<(Token, Span)>, p: usize, t: &Token) -> (r: bool)
    requires
        t is LParen || t is RParen || t is LBrace || t is RBrace || t is Colon || t is Comma
            || t is Arrow || t is Semicolon || t is OperMinus || t is OperAssign || t is KwdElse,
    ensures
        r == at(toks@, p as int, *t),
{
    if p >= toks.len() {
        return false;
    }
    let k = &toks[p].0;
    match (k, t) {
        (Token::LParen, Token::LParen) | (Token::RParen, Token::RParen) | (Token::LBrace, Token::LBrace)
        | (Token::RBrace, Token::RBrace) | (Token::Colon, Token::Colon) | (Token::Comma, Token::Comma)
        | (Token::Arrow, Token::Arrow) | (Token::Semicolon, Token::Semicolon) | (
            Token::OperMinus,
            Token::OperMinus,
        ) | (Token::OperAssign, Token::OperAssign) | (Token::KwdElse, Token::KwdElse) => true,
        _ => {
            proof {
                if at(toks@, p as int, *t) {
                    assert(*k == *t);
                }
            }
            false
        },
    }
}

fn make_binary(op: BinOp, a: Expression, b: Expression) -> (r: Expression)
    ensures
        expr_v(r) == mk_bin(op, expr_v(a), expr_v(b)),
{
    let span = crate::lexer::join(a.span, b.span);
    let (a, b) = (Box::new(a), Box::new(b));
    let node = match op {
        BinOp::Add => Expr::Add(a, b),
        BinOp::Sub => Expr::Sub(a, b),
        BinOp::Mult => Expr::Mult(a, b),
        BinOp::Div => Expr::Div(a, b),
        BinOp::Mod => Expr::Mod(a, b),
        BinOp::LessThan => Expr::LessThan(a, b),
        BinOp::LessOrEqual => Expr::LessOrEqual(a, b),
        BinOp::GreaterThan => Expr::GreaterThan(a, b),
        BinOp::GreaterOrEqual => Expr::GreaterOrEqual(a, b),
        BinOp::Equal => Expr::Equal(a, b),
        BinOp::NotEqual => Expr::NotEqual(a, b),
        BinOp::Assign => Expr::Assign(a, b),
        BinOp::AddAssign => Expr::AddAssign(a, b),
        BinOp::SubAssign => Expr::SubAssign(a, b),
        BinOp::MulAssign => Expr::MulAssign(a, b),
        BinOp::DivAssign => Expr::DivAssign(a, b),
        BinOp::ModAssign => Expr::ModAssign(a, b),
    };
    Expression { span, node }
}

fn op_token(toks: &Vec<(Token, Span)>, p: usize, level: u8) -> (r: Option<BinOp>)
    requires
        level <= 3,
    ensures
        r == op_at(toks@, p as int, level as int),
{
    if p >= toks.len() {
        return None;
    }
    let t = &toks[p].0;
    if level == 0 {
        match t {
            Token::OperAssign => Some(BinOp::Assign),
            Token::OperPlusAssign => Some(BinOp::AddAssign),
            Token::OperMinusAssign => Some(BinOp::SubAssign),
            Token::OperMultAssign => Some(BinOp::MulAssign),
            Token::OperDivAssign => Some(BinOp::DivAssign),
            Token::OperModAssign => Some(BinOp::ModAssign),
            _ => None,
        }
    } else if level == 1 {
        match t {
            Token::OperLessThan => Some(BinOp::LessThan),
            Token::OperLessOrEqual => Some(BinOp::LessOrEqual),
            Token::OperGreaterThan => Some(BinOp::GreaterThan),
            Token::OperGreaterOrEqual => Some(BinOp::GreaterOrEqual),
            Token::OperEqual => Some(BinOp::Equal),
            Token::OperNotEqual => Some(BinOp::NotEqual),
            _ => None,
        }
    } else if level == 2 {
        match t {
            Token::OperPlus => Some(BinOp::Add),
            Token::OperMinus => Some(BinOp::Sub),
            _ => None,
        }
    } else {
        match t {
            Token::OperMult => Some(BinOp::Mult),
            Token::OperDiv => Some(BinOp::Div),
            Token::OperMod => Some(BinOp::Mod),
            _ => None,
        }
    }
}

fn parse_assign(toks: &Vec<(Token, Span)>, pos: usize) -> (r: Result<(Expression, usize), usize>)
    requires
        pos <= toks.len(),
    ensures
        r matches Ok((e, _)) ==> merged(expr_v(e)),
        expr_res(r, s_assign(toks@, pos as int)),
        advances(r, pos as int, toks.len() as int),
    decreases toks.len() - pos, 9int,
{
    match parse_binary(toks, pos, 1) {
        Err(q) => Err(q),
        Ok((lhs, p1)) => match op_token(toks, p1, 0) {
            Some(op) => match parse_assign(toks, p1 + 1) {
                Err(q) => Err(q),
                Ok((rhs, p2)) => Ok((make_binary(op, lhs, rhs), p2)),
            },
            None => Ok((lhs, p1)),
        },
    }
}

fn parse_binary(toks: &Vec<(Token, Span)>, pos: usize, level: u8) -> (r: Result<(Expression, usize), usize>)
    requires
        pos <= toks.len(),
        1 <= level <= 3,
    ensures
        r matches Ok((e, _)) ==> merged(expr_v(e)),
        expr_res(r, s_binary(toks@, pos as int, level as int)),
        advances(r, pos as int, toks.len() as int),
    decreases toks.len() - pos, 2 + 2 * (4 - level),
{
    match parse_operand(toks, pos, level) {
        Err(q) => Err(q),
        Ok((lhs, p1)) => parse_binary_rest(toks, lhs, p1, level),
    }
}

fn parse_binary_rest(toks: &Vec<(Token, Span)>, lhs: Expression, p: usize, level: u8) -> (r: Result<
    (Expression, usize),
    usize,
>)
    requires
        merged(expr_v(lhs)),
        p <= toks.len(),
        1 <= level <= 3,
    ensures
        r matches Ok((e, _)) ==> merged(expr_v(e)),
        expr_res(r, s_binary_rest(toks@, expr_v(lhs), p as int, level as int)),
        match r {
            Ok((_, q)) => p <= q <= toks.len(),
            Err(q) => q <= toks.len(),
        },
    decreases toks.len() - p, 1 + 2 * (4 - level),
{
    match op_token(toks, p, level) {
        None => Ok((lhs, p)),
        Some(op) => {
            let next = if level == 3 {
                parse_atom(toks, p + 1)
            } else {
                parse_binary(toks, p + 1, level + 1)
            };
            match next {
                Err(q) => Err(q),
                Ok((rhs, p2)) => parse_binary_rest(toks, make_binary(op, lhs, rhs), p2, level),
            }
        },
    }
}

fn parse_operand(toks: &Vec<(Token, Span)>, pos: usize, level: u8) -> (r: Result<(Expression, usize), usize>)
    requires
        pos <= toks.len(),
        1 <= level <= 3,
    ensures
        r matches Ok((e, _)) ==> merged(expr_v(e)),
        expr_res(r, s_operand(toks@, pos as int, level as int)),
        advances(r, pos as int, toks.len() as int),
    decreases toks.len() - pos, 1 + 2 * (4 - level),
{
    if level < 3 {
        parse_binary(toks, pos, level + 1)
    } else if is_at(toks, pos, &Token::OperMinus) {
        match parse_atom(toks, pos + 1) {
            Err(q) => Err(q),
            Ok((a, p1)) => {
                let span = crate::lexer::join(toks[pos].1, a.span);
                Ok((Expression { span, node: Expr::Neg(Box::new(a)) }, p1))
            },
        }
    } else {
        parse_atom(toks, pos)
    }
}

fn parse_atom(toks: &Vec<(Token, Span)>, pos: usize) -> (r: Result<(Expression, usize), usize>)
    requires
        pos <= toks.len(),
    ensures
        r matches Ok((e, _)) ==> merged(expr_v(e)),
        expr_res(r, s_atom(toks@, pos as int)),
        advances(r, pos as int, toks.len() as int),
    decreases toks.len() - pos, 1int,
{
    if pos >= toks.len() {
        return Err(pos);
    }
    let sp = toks[pos].1;
    match &toks[pos].0 {
        Token::Identifier(s) => parse_postfix(toks, Expression { span: sp, node: Expr::Var(s.clone()) }, pos + 1),
        Token::Integer(v) => parse_postfix(toks, Expression { span: sp, node: Expr::Integer(*v) }, pos + 1),
        Token::True => parse_postfix(toks, Expression { span: sp, node: Expr::Integer(1) }, pos + 1),
        Token::False => parse_postfix(toks, Expression { span: sp, node: Expr::Integer(0) }, pos + 1),
        Token::LParen => match parse_assign(toks, pos + 1) {
            Err(q) => Err(q),
            Ok((e, p1)) => if is_at(toks, p1, &Token::RParen) {
                parse_postfix(toks, e, p1 + 1)
            } else {
                Err(p1)
            },
        },
        _ => Err(pos),
    }
}

fn parse_postfix(toks: &Vec<(Token, Span)>, base: Expression, p: usize) -> (r: Result<(Expression, usize), usize>)
    requires
        merged(expr_v(base)),
        p <= toks.len(),
    ensures
        r matches Ok((e, _)) ==> merged(expr_v(e)),
        expr_res(r, s_postfix(toks@, expr_v(base), p as int)),
        match r {
            Ok((_, q)) => p <= q <= toks.len(),
            Err(q) => q <= toks.len(),
        },
    decreases toks.len() - p, 0int,
{
    if !is_at(toks, p, &Token::LParen) {
        return Ok((base, p));
    }
    if is_at(toks, p + 1, &Token::RParen) {
        let span = crate::lexer::join(base.span, toks[p + 1].1);
        let call = Expression { span, node: Expr::FuncCall(Box::new(base), Vec::new()) };
        assert(exprs_v(Seq::<Expression>::empty()) =~= Seq::<ExprV>::empty());
        assert(all_merged(Seq::<ExprV>::empty()));
        return parse_postfix(toks, call, p + 2);
    }
    assert(exprs_v(Seq::<Expression>::empty()) =~= Seq::<ExprV>::empty());
    assert(all_merged(Seq::<ExprV>::empty()));
    match parse_args(toks, p + 1, Vec::new()) {
        Err(q) => Err(q),
        Ok((args, p2)) => if is_at(toks, p2, &Token::RParen) {
            let span = crate::lexer::join(base.span, toks[p2].1);
            let call = Expression { span, node: Expr::FuncCall(Box::new(base), args) };
            parse_postfix(toks, call, p2 + 1)
        } else {
            Err(p2)
        },
    }
}

fn parse_args(toks: &Vec<(Token, Span)>, p: usize, acc: Vec<Expression>) -> (r: Result<(Vec<Expression>, usize), usize>)
    requires
        all_merged(exprs_v(acc@)),
        p <= toks.len(),
    ensures
        r matches Ok((v, _)) ==> all_merged(exprs_v(v@)),
        match (r, s_args(toks@, p as int, exprs_v(acc@))) {
            (Ok((v, q)), Ok((sv, sq))) => exprs_v(v@) == sv && q == sq,
            (Err(q), Err(sq)) => q == sq,
            _ => false,
        },
        advances(r, p as int, toks.len() as int),
    decreases toks.len() - p, 10int,
{
    match parse_assign(toks, p) {
        Err(q) => Err(q),
        Ok((e, p1)) => {
            let mut acc = acc;
            proof {
                lemma_exprs_v_push(acc@, e);
                lemma_all_merged_push(exprs_v(acc@), expr_v(e));
            }
            acc.push(e);
            if is_at(toks, p1, &Token::Comma) {
                parse_args(toks, p1 + 1, acc)
            } else {
                Ok((acc, p1))
            }
        },
    }
}

/// How a statement parse relates to the grammar.
pub open spec fn stmt_res(r: Result<(Statement, usize), usize>, s: Result<(StmtV, int), int>) -> bool {
    match (r, s) {
        (Ok((e, p)), Ok((ev, q))) => stmt_v(e) == ev && p == q,
        (Err(p), Err(q)) => p == q,
        _ => false,
    }
}

pub open spec fn stmts_res(r: Result<(Vec<Statement>, usize), usize>, s: Result<(Seq<StmtV>, int), int>) -> bool {
    match (r, s) {
        (Ok((e, p)), Ok((ev, q))) => stmts_v(e@) == ev && p == q,
        (Err(p), Err(q)) => p == q,
        _ => false,
    }
}

pub open spec fn params_v(ps: Seq<Param>) -> Seq<ParamV> {
    ps.map_values(|p: Param| param_v(p))
}

fn ident_token(toks: &Vec<(Token, Span)>, p: usize) -> (r: Option<Ident>)
    ensures
        match (r, ident_at(toks@, p as int)) {
            (Some(i), Some(v)) => ident_v(i) == v,
            (None, None) => true,
            _ => false,
        },
{
    if p >= toks.len() {
        return None;
    }
    match &toks[p].0 {
        Token::Identifier(s) => Some(Ident { span: toks[p].1, value: s.clone() }),
        _ => None,
    }
}

fn parse_param(toks: &Vec<(Token, Span)>, p: usize) -> (r: Option<Param>)
    ensures
        match (r, s_param(toks@, p as int)) {
            (Some(x), Some(v)) => param_v(x) == v,
            (None, None) => true,
            _ => false,
        },
{
    if p > toks.len() || toks.len() - p <= 2 {
        return None;
    }
    let name = ident_token(toks, p);
    let datatype = ident_token(toks, p + 2);
    match (name, datatype) {
        (Some(n), Some(t)) => if is_at(toks, p + 1, &Token::Colon) {
            let span = crate::lexer::join(n.span, t.span);
            Some(Param { span, name: n, datatype: t })
        } else {
            None
        },
        _ => None,
    }
}

fn parse_params(toks: &Vec<(Token, Span)>, p: usize, acc: Vec<Param>) -> (r: Result<(Vec<Param>, usize), usize>)
    requires
        p <= toks.len(),
    ensures
        match (r, s_params(toks@, p as int, params_v(acc@))) {
            (Ok((v, q)), Ok((sv, sq))) => params_v(v@) == sv && q == sq,
            (Err(q), Err(sq)) => q == sq,
            _ => false,
        },
        advances(r, p as int, toks.len() as int),
    decreases toks.len() - p,
{
    match parse_param(toks, p) {
        None => {
            if ident_token(toks, p).is_none() {
                Err(p)
            } else if !is_at(toks, p + 1, &Token::Colon) {
                Err(p + 1)
            } else {
                Err(p + 2)
            }
        },
        Some(x) => {
            let mut acc = acc;
            let ghost xv = param_v(x);
            let ghost before = acc@;
            acc.push(x);
            assert(params_v(acc@) =~= params_v(before).push(xv));
            if is_at(toks, p + 3, &Token::Comma) {
                parse_params(toks, p + 4, acc)
            } else {
                Ok((acc, p + 3))
            }
        },
    }
}

fn parse_stmts(toks: &Vec<(Token, Span)>, pos: usize, acc: Vec<Statement>) -> (r: Result<(Vec<Statement>, usize), usize>)
    requires
        stmts_merged(stmts_v(acc@)),
        pos <= toks.len(),
    ensures
        r matches Ok((v, _)) ==> stmts_merged(stmts_v(v@)),
        stmts_res(r, s_stmts(toks@, pos as int, stmts_v(acc@))),
        match r {
            Ok((_, q)) => pos <= q <= toks.len(),
            Err(q) => q <= toks.len(),
        },
    decreases toks.len() - pos, 21int,
{
    if pos < toks.len() && starts_statement_exec(&toks[pos].0) {
        match parse_stmt(toks, pos) {
            Err(q) => Err(q),
            Ok((st, p1)) => {
                let mut acc = acc;
                proof {
                    lemma_stmts_v_push(acc@, st);
                    lemma_stmts_merged_push(stmts_v(acc@), stmt_v(st));
                }
                acc.push(st);
                parse_stmts(toks, p1, acc)
            },
        }
    } else {
        Ok((acc, pos))
    }
}

fn starts_statement_exec(t: &Token) -> (r: bool)
    ensures
        r == starts_statement(*t),
{
    match t {
        Token::KwdFunction | Token::KwdReturn | Token::KwdIf | Token::KwdWhile | Token::KwdBreak
        | Token::KwdContinue | Token::KwdConstant | Token::KwdMutable | Token::Identifier(_)
        | Token::Integer(_) | Token::True | Token::False | Token::LParen | Token::OperMinus => true,
        _ => false,
    }
}

fn parse_braced(toks: &Vec<(Token, Span)>, pos: usize) -> (r: Result<(Vec<Statement>, usize), usize>)
    requires
        pos <= toks.len(),
    ensures
        r matches Ok((v, _)) ==> stmts_merged(stmts_v(v@)),
        stmts_res(r, s_braced(toks@, pos as int)),
        advances(r, pos as int, toks.len() as int),
    decreases toks.len() - pos, 22int,
{
    if !is_at(toks, pos, &Token::LBrace) {
        return Err(pos);
    }
    assert(stmts_v(Seq::<Statement>::empty()) =~= Seq::<StmtV>::empty());
    match parse_stmts(toks, pos + 1, Vec::new()) {
        Err(q) => Err(q),
        Ok((body, p1)) => if is_at(toks, p1, &Token::RBrace) {
            Ok((body, p1 + 1))
        } else {
            Err(p1)
        },
    }
}

/// A statement closed by the `;` expected at `p`.
fn ended_exec(toks: &Vec<(Token, Span)>, start: Span, node: Stmt, p: usize) -> (r: Result<(Statement, usize), usize>)
    requires
        p <= toks.len(),
    ensures
        r matches Ok((st, _)) ==> stmt_merged(stmt_v(st)) == stmt_merged(stmt_v(Statement { span: start, node })),
        stmt_res(r, ended(toks@, start, stmt_v(Statement { span: start, node }).node, p as int)),
        match r {
            Ok((_, q)) => p < q <= toks.len(),
            Err(q) => q <= toks.len(),
        },
{
    if is_at(toks, p, &Token::Semicolon) {
        let span = crate::lexer::join(start, toks[p].1);
        Ok((Statement { span, node }, p + 1))
    } else {
        Err(p)
    }
}

fn parse_func(toks: &Vec<(Token, Span)>, pos: usize) -> (r: Result<(Statement, usize), usize>)
    requires
        pos < toks.len(),
    ensures
        r matches Ok((st, _)) ==> stmt_merged(stmt_v(st)),
        stmt_res(r, s_func(toks@, pos as int)),
        advances(r, pos as int, toks.len() as int),
    decreases toks.len() - pos, 19int,
{
    let name = match ident_token(toks, pos + 1) {
        None => return Err(pos + 1),
        Some(n) => n,
    };
    if !is_at(toks, pos + 2, &Token::LParen) {
        return Err(pos + 2);
    }
    let params = if is_at(toks, pos + 3, &Token::RParen) {
        assert(params_v(Seq::<Param>::empty()) =~= Seq::<ParamV>::empty());
        Ok((Vec::new(), pos + 3))
    } else {
        assert(params_v(Seq::<Param>::empty()) =~= Seq::<ParamV>::empty());
        parse_params(toks, pos + 3, Vec::new())
    };
    let (ps, p1) = match params {
        Err(q) => return Err(q),
        Ok(x) => x,
    };
    if !is_at(toks, p1, &Token::RParen) {
        return Err(p1);
    }
    if !is_at(toks, p1 + 1, &Token::Arrow) {
        return Err(p1 + 1);
    }
    let ret = match ident_token(toks, p1 + 2) {
        None => return Err(p1 + 2),
        Some(t) => t,
    };
    match parse_braced(toks, p1 + 3) {
        Err(q) => Err(q),
        Ok((body, p2)) => {
            let span = crate::lexer::join(toks[pos].1, toks[p2 - 1].1);
            let st = Statement { span, node: Stmt::FuncDecl(name, ps, ret, Program { stmts: body }) };
            Ok((st, p2))
        },
    }
}

fn parse_decl(toks: &Vec<(Token, Span)>, pos: usize, q: Qualifier) -> (r: Result<(Statement, usize), usize>)
    requires
        pos < toks.len(),
    ensures
        r matches Ok((st, _)) ==> stmt_merged(stmt_v(st)),
        stmt_res(r, s_decl(toks@, pos as int, q)),
        advances(r, pos as int, toks.len() as int),
    decreases toks.len() - pos, 19int,
{
    let kw = toks[pos].1;
    let name = match ident_token(toks, pos + 1) {
        None => return Err(pos + 1),
        Some(n) => n,
    };
    let qualifiers = vec![q];
    assert(qualifiers@ =~= seq![q]);
    if is_at(toks, pos + 2, &Token::OperAssign) {
        match parse_assign(toks, pos + 3) {
            Err(e) => Err(e),
            Ok((v, p1)) => ended_exec(toks, kw, Stmt::VarDecl(qualifiers, name, None, Box::new(v)), p1),
        }
    } else if !is_at(toks, pos + 2, &Token::Colon) {
        Err(pos + 2)
    } else {
        let datatype = match ident_token(toks, pos + 3) {
            None => return Err(pos + 3),
            Some(d) => d,
        };
        if !is_at(toks, pos + 4, &Token::OperAssign) {
            return Err(pos + 4);
        }
        match parse_assign(toks, pos + 5) {
            Err(e) => Err(e),
            Ok((v, p1)) => ended_exec(
                toks,
                kw,
                Stmt::VarDecl(qualifiers, name, Some(datatype), Box::new(v)),
                p1,
            ),
        }
    }
}

fn parse_stmt(toks: &Vec<(Token, Span)>, pos: usize) -> (r: Result<(Statement, usize), usize>)
    requires
        pos < toks.len(),
    ensures
        r matches Ok((st, _)) ==> stmt_merged(stmt_v(st)),
        stmt_res(r, s_stmt(toks@, pos as int)),
        advances(r, pos as int, toks.len() as int),
    decreases toks.len() - pos, 20int,
{
    let kw = toks[pos].1;
    match &toks[pos].0 {
        Token::KwdFunction => parse_func(toks, pos),
        Token::KwdConstant => parse_decl(toks, pos, Qualifier::Immutable),
        Token::KwdMutable => parse_decl(toks, pos, Qualifier::Mutable),
        Token::KwdReturn => if is_at(toks, pos + 1, &Token::Semicolon) {
            ended_exec(toks, kw, Stmt::ReturnStmt(None), pos + 1)
        } else {
            match parse_assign(toks, pos + 1) {
                Err(q) => Err(q),
                Ok((e, p1)) => ended_exec(toks, kw, Stmt::ReturnStmt(Some(e)), p1),
            }
        },
        Token::KwdBreak => ended_exec(toks, kw, Stmt::BreakStmt, pos + 1),
        Token::KwdContinue => ended_exec(toks, kw, Stmt::ContinueStmt, pos + 1),
        Token::KwdWhile => match parse_assign(toks, pos + 1) {
            Err(q) => Err(q),
            Ok((c, p1)) => match parse_braced(toks, p1) {
                Err(q) => Err(q),
                Ok((body, p2)) => {
                    let span = crate::lexer::join(kw, toks[p2 - 1].1);
                    Ok((Statement { span, node: Stmt::WhileStmt(Box::new(c), Program { stmts: body }) }, p2))
                },
            },
        },
        Token::KwdIf => match parse_assign(toks, pos + 1) {
            Err(q) => Err(q),
            Ok((c, p1)) => match parse_braced(toks, p1) {
                Err(q) => Err(q),
                Ok((t, p2)) => if is_at(toks, p2, &Token::KwdElse) {
                    match parse_braced(toks, p2 + 1) {
                        Err(q) => Err(q),
                        Ok((f, p3)) => {
                            let span = crate::lexer::join(kw, toks[p3 - 1].1);
                            let node = Stmt::IfStmt(Box::new(c), Program { stmts: t }, Program { stmts: f });
                            Ok((Statement { span, node }, p3))
                        },
                    }
                } else {
                    let span = crate::lexer::join(kw, toks[p2 - 1].1);
                    let node = Stmt::IfStmt(Box::new(c), Program { stmts: t }, Program { stmts: Vec::new() });
                    assert(stmts_v(Seq::<Statement>::empty()) =~= Seq::<StmtV>::empty());
                    Ok((Statement { span, node }, p2))
                },
            },
        },
        _ => match parse_assign(toks, pos) {
            Err(q) => Err(q),
            Ok((e, p1)) => {
                let start = e.span;
                ended_exec(toks, start, Stmt::ExprStmt(Box::new(e)), p1)
            },
        },
    }
}

/// The first token that fits no production, or `None` at a premature end of input.
#[derive(Debug)]
pub struct ParseError {
    pub token: Option<(Token, Span)>,
    pub message: &'static str,
}

/// Parses a token sequence into a program. On failure the error holds the first token
/// that fits no production, or no token when the input ends too early.
pub fn parse(tokens: Vec<(Token, Span)>) -> (r: Result<Program, ParseError>)
    ensures
        r matches Ok(p) ==> stmts_merged(stmts_v(p.stmts@)),
        match (r, s_program(tokens@)) {
            (Ok(p), Ok(ss)) => stmts_v(p.stmts@) == ss,
            (Err(e), Err(q)) => if q < tokens@.len() {
                e.token == Some(tokens@[q]) && e.message@ == "Unexpected token"@
            } else {
                e.token is None && e.message@ == "Unexpected end of file"@
            },
            _ => false,
        },
{
    assert(stmts_v(Seq::<Statement>::empty()) =~= Seq::<StmtV>::empty());
    let q = match parse_stmts(&tokens, 0, Vec::new()) {
        Ok((stmts, p)) => if p == tokens.len() {
            return Ok(Program { stmts });
        } else {
            p
        },
        Err(q) => q,
    };
    if q < tokens.len() {
        let mut tokens = tokens;
        let t = tokens.remove(q);
        Err(ParseError { token: Some(t), message: "Unexpected token" })
    } else {
        Err(ParseError { token: None, message: "Unexpected end of file" })
    }
}

/// Parsing depends on the tokens alone: two programs that `parse` returned for equal
/// token sequences are the same tree.
pub proof fn lemma_parse_deterministic(
    a: Seq<(Token, Span)>,
    b: Seq<(Token, Span)>,
    pa: Program,
    pb: Program,
)
    requires
        a == b,
        s_program(a) == Ok::<Seq<StmtV>, int>(stmts_v(pa.stmts@)),
        s_program(b) == Ok::<Seq<StmtV>, int>(stmts_v(pb.stmts@)),
    ensures
        stmts_v(pa.stmts@) == stmts_v(pb.stmts@),
{
}

} // verus!
