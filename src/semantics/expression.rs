use crate::lexer::Span;
use crate::message::{Message, MessageView};
use crate::parser::ast::{Expr, Expression};
use crate::semantics::{
    count_use, err, int_string, same_frame, int_t, lookup, note, void_string, void_t, wf, Analyzer,
    AnalyzerView, DataType, TypeView,
};
use vstd::prelude::*;

verus! {

/// An arithmetic or comparison operator is an error unless both operands are `int`.
pub open spec fn arith_check(v: AnalyzerView, span: Span, t1: TypeView, t2: TypeView) -> AnalyzerView {
    if t1 != int_t() || t2 != int_t() {
        err(v, MessageView::ArithmeticTypes(t1, t2), span)
    } else {
        v
    }
}

/// Dividing by the literal `0` is an error.
pub open spec fn zero_check(v: AnalyzerView, divisor: Expression) -> AnalyzerView {
    match divisor.node {
        Expr::Integer(x) => if x == 0 {
            err(v, MessageView::DivisionByZero, divisor.span)
        } else {
            v
        },
        _ => v,
    }
}

/// The effect of assigning a value of type `tr` to `target`, whose type is `tl`.
pub open spec fn assign_effect(
    v: AnalyzerView,
    span: Span,
    target: Expression,
    value_span: Span,
    tr: TypeView,
    tl: TypeView,
) -> (AnalyzerView, TypeView) {
    let v1 = if tr != tl {
        err(v, MessageView::AssignTypes(tr, tl), value_span)
    } else {
        v
    };
    match target.node {
        Expr::Var(id) => match lookup(v1, id@) {
            None => (err(v1, MessageView::UndeclaredVariable(id@), span), tl),
            Some(sig) => {
                let v2 = if tr != tl {
                    note(v1, MessageView::DeclaredAsType(id@, tl), Some(sig.span))
                } else {
                    v1
                };
                let v3 = if !sig.mutable {
                    note(
                        err(v2, MessageView::ImmutableAssign(id@), span),
                        MessageView::DeclaredImmutable(id@),
                        Some(sig.span),
                    )
                } else {
                    v2
                };
                (crate::semantics::count_change(v3, id@), tl)
            },
        },
        _ => (err(v1, MessageView::IndirectAssign, target.span), tl),
    }
}

/// The effect of calling the function `id` with `n` arguments, once they are analyzed.
pub open spec fn call_effect(v: AnalyzerView, span: Span, callee_span: Span, id: Seq<char>, n: nat) -> (
    AnalyzerView,
    TypeView,
) {
    match lookup(v, id) {
        None => (err(v, MessageView::UndeclaredFunction(id), callee_span), void_t()),
        Some(sig) => match sig.ty {
            TypeView::Func(ret, ps) => {
                let v1 = if ps.len() != n {
                    note(
                        err(v, MessageView::ArgumentCount(id, ps.len(), n), span),
                        MessageView::FunctionSignature(id, sig.ty),
                        Some(span),
                    )
                } else {
                    v
                };
                (count_use(v1, id), TypeView::Var(ret))
            },
            TypeView::Var(_) => (
                count_use(
                    note(
                        err(v, MessageView::NotAFunction(id), span),
                        MessageView::DeclaredAsType(id, sig.ty),
                        Some(sig.span),
                    ),
                    id,
                ),
                void_t(),
            ),
        },
    }
}

/// The state after analyzing each expression of `s` in order.
pub open spec fn sem_args(v: AnalyzerView, s: Seq<Expression>) -> AnalyzerView
    decreases s,
{
    if s.len() == 0 {
        v
    } else {
        sem_args(sem_expr(v, s[0]).0, s.drop_first())
    }
}

/// The state after analyzing `e`, and the type of `e`.
pub open spec fn sem_expr(v: AnalyzerView, e: Expression) -> (AnalyzerView, TypeView)
    decreases e,
{
    match e.node {
        Expr::Integer(x) => (
            if x > 32767 {
                err(v, MessageView::IntegerTooLarge, e.span)
            } else {
                v
            },
            int_t(),
        ),
        Expr::Neg(a) => match a.node {
            Expr::Integer(x) => (
                if x > 32768 {
                    err(v, MessageView::IntegerTooSmall, e.span)
                } else {
                    v
                },
                int_t(),
            ),
            _ => {
                let (v1, t) = sem_expr(v, *a);
                (
                    if t != int_t() {
                        err(v1, MessageView::NegateType(t), e.span)
                    } else {
                        v1
                    },
                    int_t(),
                )
            },
        },
        Expr::Add(a, b) | Expr::Sub(a, b) | Expr::Mult(a, b) | Expr::LessThan(a, b)
        | Expr::LessOrEqual(a, b) | Expr::GreaterThan(a, b) | Expr::GreaterOrEqual(a, b)
        | Expr::Equal(a, b) | Expr::NotEqual(a, b) => {
            let (v1, t1) = sem_expr(v, *a);
            let (v2, t2) = sem_expr(v1, *b);
            (arith_check(v2, e.span, t1, t2), int_t())
        },
        Expr::Div(a, b) | Expr::Mod(a, b) => {
            let (v1, t1) = sem_expr(v, *a);
            let (v2, t2) = sem_expr(v1, *b);
            (zero_check(arith_check(v2, e.span, t1, t2), *b), int_t())
        },
        Expr::Assign(l, r) | Expr::AddAssign(l, r) | Expr::SubAssign(l, r) | Expr::MulAssign(l, r)
        | Expr::DivAssign(l, r) | Expr::ModAssign(l, r) => {
            let (v1, tr) = sem_expr(v, *r);
            let (v2, tl) = sem_expr(v1, *l);
            assign_effect(v2, e.span, *l, r.span, tr, tl)
        },
        Expr::Var(name) => match lookup(v, name@) {
            None => (err(v, MessageView::UndeclaredVariable(name@), e.span), int_t()),
            Some(sig) => (count_use(v, name@), sig.ty),
        },
        Expr::FuncCall(c, args) => match c.node {
            Expr::Var(id) => call_effect(sem_args(v, args@), e.span, c.span, id@, args@.len()),
            _ => (err(v, MessageView::CompositeCallee, c.span), void_t()),
        },
    }
}

/// The operands of an assignment, target first.
pub open spec fn assign_parts(node: Expr) -> Option<(Expression, Expression)> {
    match node {
        Expr::Assign(l, r) | Expr::AddAssign(l, r) | Expr::SubAssign(l, r) | Expr::MulAssign(l, r)
        | Expr::DivAssign(l, r) | Expr::ModAssign(l, r) => Some((*l, *r)),
        _ => None,
    }
}

impl Expression {
    fn check_binary_arithmetic(&self, analyzer: &mut Analyzer, type1: DataType, type2: DataType)
        ensures
            final(analyzer)@ == arith_check(old(analyzer)@, self.span, type1@, type2@),
    {
        if !type1.is_int() || !type2.is_int() {
            analyzer.report_error(Message::ArithmeticTypes(type1, type2), self.span);
        }
    }

    /// Types the expression, reporting what is wrong with it.
    pub fn analyze(&self, analyzer: &mut Analyzer) -> (r: DataType)
        requires
            wf(old(analyzer)@),
        ensures
            wf(final(analyzer)@),
            same_frame(old(analyzer)@, final(analyzer)@),
            (final(analyzer)@, r@) == sem_expr(old(analyzer)@, *self),
        decreases self, 1nat,
    {
        match &self.node {
            Expr::Integer(value) => {
                if *value > 32767 {
                    analyzer.report_error(Message::IntegerTooLarge, self.span);
                }
                DataType::VarSig(int_string())
            },
            Expr::Neg(expr) => match &expr.node {
                Expr::Integer(value) => {
                    if *value > 32768 {
                        analyzer.report_error(Message::IntegerTooSmall, self.span);
                    }
                    DataType::VarSig(int_string())
                },
                _ => {
                    let tp = expr.analyze(analyzer);
                    if !tp.is_int() {
                        analyzer.report_error(Message::NegateType(tp), self.span);
                    }
                    DataType::VarSig(int_string())
                },
            },
            Expr::Add(a, b) | Expr::Sub(a, b) | Expr::Mult(a, b) | Expr::LessThan(a, b)
            | Expr::LessOrEqual(a, b) | Expr::GreaterThan(a, b) | Expr::GreaterOrEqual(a, b)
            | Expr::Equal(a, b) | Expr::NotEqual(a, b) => {
                let type1 = a.analyze(analyzer);
                let type2 = b.analyze(analyzer);
                self.check_binary_arithmetic(analyzer, type1, type2);
                DataType::VarSig(int_string())
            },
            Expr::Div(a, b) | Expr::Mod(a, b) => {
                let type1 = a.analyze(analyzer);
                let type2 = b.analyze(analyzer);
                self.check_binary_arithmetic(analyzer, type1, type2);
                match &b.node {
                    Expr::Integer(value) => {
                        if *value == 0 {
                            analyzer.report_error(Message::DivisionByZero, b.span);
                        }
                    },
                    _ => {},
                }
                DataType::VarSig(int_string())
            },
            Expr::Assign(l, r) | Expr::AddAssign(l, r) | Expr::SubAssign(l, r) | Expr::MulAssign(l, r)
            | Expr::DivAssign(l, r) | Expr::ModAssign(l, r) => {
                self.analyze_assign(analyzer, l, r)
            },
            Expr::Var(name) => match analyzer.get_variable(name, true) {
                None => {
                    analyzer.report_error(Message::UndeclaredVariable(name.clone()), self.span);
                    DataType::VarSig(int_string())
                },
                Some(var) => {
                    let return_type = var.data_type.duplicate();
                    analyzer.use_variable(name);
                    return_type
                },
            },
            Expr::FuncCall(callee, args) => match &callee.node {
                Expr::Var(id) => {
                    let ghost v0 = analyzer@;
                    proof {
                        assert(args@.subrange(0, args@.len() as int) =~= args@);
                    }
                    let mut i: usize = 0;
                    while i < args.len()
                        invariant
                            i <= args.len(),
                            self.node == Expr::FuncCall(*callee, *args),
                            wf(analyzer@),
                            same_frame(v0, analyzer@),
                            sem_args(v0, args@) == sem_args(
                                analyzer@,
                                args@.subrange(i as int, args@.len() as int),
                            ),
                        decreases args.len() - i,
                    {
                        proof {
                            assert(args@.subrange(i as int, args@.len() as int).drop_first()
                                =~= args@.subrange(i + 1, args@.len() as int));
                            assert(decreases_to!(*args => args[i as int]));
                            assert(decreases_to!(*self => self.node));
                            assert(self.node->FuncCall_1 == *args);
                            assert(decreases_to!(self.node => self.node->FuncCall_1));
                            assert(decreases_to!(*self => args[i as int]));
                        }
                        args[i].analyze(analyzer);
                        i = i + 1;
                    }
                    proof {
                        assert(args@.subrange(i as int, args@.len() as int) =~= Seq::empty());
                    }
                    let return_type = match analyzer.get_variable(id, true) {
                        None => {
                            analyzer.report_error(Message::UndeclaredFunction(id.clone()), callee.span);
                            DataType::VarSig(void_string())
                        },
                        Some(func) => match &func.data_type {
                            DataType::FuncSig(ret, param_types) => {
                                let ct = param_types.len();
                                let rt = ret.clone();
                                let signature = func.data_type.duplicate();
                                if args.len() != ct {
                                    analyzer.report_error(
                                        Message::ArgumentCount(id.clone(), ct, args.len()),
                                        self.span,
                                    );
                                    analyzer.report_hint(
                                        Message::FunctionSignature(id.clone(), signature),
                                        Some(self.span),
                                    );
                                }
                                DataType::VarSig(rt)
                            },
                            DataType::VarSig(_) => {
                                let declared = func.span;
                                let signature = func.data_type.duplicate();
                                analyzer.report_error(Message::NotAFunction(id.clone()), self.span);
                                analyzer.report_hint(
                                    Message::DeclaredAsType(id.clone(), signature),
                                    Some(declared),
                                );
                                DataType::VarSig(void_string())
                            },
                        },
                    };
                    analyzer.use_variable(id);
                    return_type
                },
                _ => {
                    analyzer.report_error(Message::CompositeCallee, callee.span);
                    DataType::VarSig(void_string())
                },
            },
        }
    }
}

} // verus!
