use crate::lexer::Span;
use crate::message::{Message, MessageView, Severity};
use crate::parser::ast::{Expr, Expression, Ident, Param, Qualifier, Statement, Stmt};
use crate::semantics::expression::sem_expr;
use crate::semantics::{
    bind, close_scope, emit, err, fresh, in_current, innermost, is_data_type, is_return_type, is_text,
    lookup, main_name, note, open_scope, same_frame, void_name, void_t, wf, Analyzer, AnalyzerView,
    SigView, TypeView, bindings_view, return_of, names_view, DataType, Scope,
};
use vstd::prelude::*;

verus! {

/// A hint with the callee's signature, when `e` calls a function by name.
pub open spec fn hint_sig(v: AnalyzerView, e: Expression) -> AnalyzerView {
    match e.node {
        Expr::FuncCall(c, _) => match c.node {
            Expr::Var(id) => match lookup(v, id@) {
                Some(sig) => if sig.ty is Func {
                    note(v, MessageView::FunctionSignature(id@, sig.ty), Some(e.span))
                } else {
                    v
                },
                None => v,
            },
            _ => v,
        },
        _ => v,
    }
}

/// An expression of type `void` where a value is needed is an error.
pub open spec fn value_check(v: AnalyzerView, e: Expression, t: TypeView) -> AnalyzerView {
    if t == void_t() {
        hint_sig(err(v, MessageView::NoValue, e.span), e)
    } else {
        v
    }
}

/// The declared type names of the parameters.
pub open spec fn param_types(params: Seq<Param>) -> Seq<Seq<char>> {
    params.map_values(|p: Param| p.datatype.value@)
}

/// Binds each parameter, in order, as an immutable variable of its declared type.
pub open spec fn bind_params(v: AnalyzerView, params: Seq<Param>) -> AnalyzerView
    decreases params.len(),
{
    if params.len() == 0 {
        v
    } else {
        bind_params(
            bind(
                v,
                params[0].name.value@,
                fresh(TypeView::Var(params[0].datatype.value@), false, params[0].span),
            ),
            params.drop_first(),
        )
    }
}

/// Whether a name opts out of the unused-variable warning.
pub open spec fn marked_unused(name: Seq<char>) -> bool {
    name.len() > 0 && name[0] == '_'
}

/// Warnings for the bindings of a scope that is left: never used, or needlessly mutable.
pub open spec fn scope_warnings(v: AnalyzerView, bs: Seq<(Seq<char>, SigView)>) -> AnalyzerView
    decreases bs.len(),
{
    if bs.len() == 0 {
        v
    } else {
        let (name, sig) = bs[0];
        let v1 = if sig.used == 0 && !marked_unused(name) {
            emit(v, Severity::Warning, MessageView::UnusedVariable(name), Some(sig.span))
        } else {
            v
        };
        let v2 = if sig.mutable && sig.changed == 0 {
            emit(v1, Severity::Warning, MessageView::NeedlessMutability(name), Some(sig.span))
        } else {
            v1
        };
        scope_warnings(v2, bs.drop_first())
    }
}

/// The span of a non-empty parameter list.
pub open spec fn params_span(params: Seq<Param>) -> Span {
    Span { lo: params[0].span.lo, hi: params.last().span.hi }
}

/// The checks on a declaration of `main`, each with its own error: no parameters,
/// a `void` return, at the outermost scope.
pub open spec fn main_checks(v: AnalyzerView, name: Ident, params: Seq<Param>, ret: Ident) -> AnalyzerView {
    if name.value@ == main_name() {
        let a = if params.len() > 0 {
            err(v, MessageView::MainHasParameters, params_span(params))
        } else {
            v
        };
        let b = if ret.value@ != void_name() {
            err(a, MessageView::MainReturnsValue, ret.span)
        } else {
            a
        };
        if b.starts.len() > 1 {
            err(b, MessageView::MainNotGlobal, name.span)
        } else {
            b
        }
    } else {
        v
    }
}

/// The state after the header of a function declaration is checked and its name bound.
pub open spec fn declare_function(
    v: AnalyzerView,
    span: Span,
    name: Ident,
    params: Seq<Param>,
    ret: Ident,
) -> AnalyzerView {
    let v1 = if v.funcs.len() > 0 {
        err(v, MessageView::NestedFunction, span)
    } else {
        v
    };
    let v2 = match in_current(v1, name.value@) {
        Some(i) if v1.bindings[i].1.ty is Func => err(
            v1,
            MessageView::FunctionRedeclared(name.value@),
            name.span,
        ),
        _ => bind(
            v1,
            name.value@,
            fresh(TypeView::Func(ret.value@, param_types(params)), false, name.span),
        ),
    };
    let v3 = if !is_return_type(ret.value@) {
        err(v2, MessageView::UnknownReturnType(ret.value@), ret.span)
    } else {
        v2
    };
    main_checks(v3, name, params, ret)
}

/// The state in which a function body is analyzed.
pub open spec fn enter_function(v: AnalyzerView, name: Ident, params: Seq<Param>, ret: Ident) -> AnalyzerView {
    bind_params(
        AnalyzerView {
            funcs: v.funcs.push((TypeView::Func(ret.value@, param_types(params)), name.value@)),
            loops: 0,
            ..open_scope(v)
        },
        params,
    )
}

/// Leaves a function body: restores the context of `outer` and warns about the
/// bindings of the scope that is left.
pub open spec fn leave_function(v: AnalyzerView, outer: AnalyzerView) -> AnalyzerView {
    let v1 = AnalyzerView { funcs: v.funcs.drop_last(), loops: outer.loops, ..v };
    let v2 = close_scope(v1);
    if v2.suppress {
        v2
    } else {
        scope_warnings(v2, innermost(v1))
    }
}

/// Whether a declaration's qualifiers make the variable mutable.
pub open spec fn is_mutable(q: Seq<Qualifier>) -> bool {
    q.len() > 0 && q[0] == Qualifier::Mutable
}

/// The state after analyzing `st`, and whether `st` is guaranteed to return.
pub open spec fn sem_stmt(v: AnalyzerView, st: Statement) -> (AnalyzerView, bool)
    decreases st,
{
    match st.node {
        Stmt::ExprStmt(e) => (sem_expr(v, *e).0, false),
        Stmt::FuncDecl(name, params, ret, body) => {
            let v4 = declare_function(v, st.span, name, params@, ret);
            let (v7, guaranteed) = sem_prog(enter_function(v4, name, params@, ret), body.stmts@);
            let v8 = leave_function(v7, v4);
            (
                if ret.value@ != void_name() && !guaranteed {
                    err(v8, MessageView::MightNotReturn(name.value@, ret.value@), st.span)
                } else {
                    v8
                },
                false,
            )
        },
        Stmt::ReturnStmt(e) => if v.funcs.len() == 0 {
            (err(v, MessageView::ReturnOutsideFunction, st.span), true)
        } else {
            let (ft, fname) = v.funcs.last();
            let rt = return_of(ft);
            match e {
                None => (
                    if rt != void_name() {
                        note(
                            err(v, MessageView::ReturnMissingValue, st.span),
                            MessageView::RequiresReturnValue(fname, rt),
                            None,
                        )
                    } else {
                        v
                    },
                    true,
                ),
                Some(x) => if rt == void_name() {
                    (
                        note(
                            err(v, MessageView::ReturnHasValue, st.span),
                            MessageView::ReturnsNothing(fname),
                            None,
                        ),
                        true,
                    )
                } else {
                    let (v1, t) = sem_expr(v, x);
                    (value_check(v1, x, t), true)
                },
            }
        },
        Stmt::IfStmt(c, then_branch, else_branch) => {
            let (v1, t) = sem_expr(v, *c);
            let (v3, r1) = sem_prog(value_check(v1, *c, t), then_branch.stmts@);
            let (v4, r2) = sem_prog(v3, else_branch.stmts@);
            (v4, r1 && r2)
        },
        Stmt::WhileStmt(c, body) => {
            let (v1, t) = sem_expr(v, *c);
            let v2 = value_check(v1, *c, t);
            let v3 = AnalyzerView {
                loops: if v2.loops < u64::MAX {
                    v2.loops + 1
                } else {
                    v2.loops
                },
                ..v2
            };
            let (v4, _) = sem_prog(v3, body.stmts@);
            (AnalyzerView { loops: v2.loops, ..v4 }, false)
        },
        Stmt::BreakStmt => (
            if v.loops == 0 {
                err(v, MessageView::BreakOutsideLoop, st.span)
            } else {
                v
            },
            false,
        ),
        Stmt::ContinueStmt => (
            if v.loops == 0 {
                err(v, MessageView::ContinueOutsideLoop, st.span)
            } else {
                v
            },
            false,
        ),
        Stmt::VarDecl(q, name, ty, init) => {
            let (v1, t) = sem_expr(v, *init);
            match in_current(v1, name.value@) {
                Some(i) => (
                    note(
                        err(v1, MessageView::VariableRedeclared(name.value@), v1.bindings[i].1.span),
                        MessageView::DeclaredAgain(name.value@),
                        Some(name.span),
                    ),
                    false,
                ),
                None => match ty {
                    None => {
                        let v2 = if !(t is Var && is_data_type(t->Var_0)) {
                            hint_sig(
                                err(v1, MessageView::InvalidDeducedType(name.value@, t), init.span),
                                *init,
                            )
                        } else {
                            v1
                        };
                        (bind(v2, name.value@, fresh(t, is_mutable(q@), name.span)), false)
                    },
                    Some(d) => {
                        let v2 = if !is_data_type(d.value@) {
                            err(v1, MessageView::UnknownDataType(d.value@), d.span)
                        } else if t != TypeView::Var(d.value@) {
                            hint_sig(
                                err(
                                    v1,
                                    MessageView::IncompatibleDeclaration(name.value@, t, d.value@),
                                    init.span,
                                ),
                                *init,
                            )
                        } else {
                            v1
                        };
                        (
                            bind(v2, name.value@, fresh(TypeView::Var(d.value@), is_mutable(q@), name.span)),
                            false,
                        )
                    },
                },
            }
        },
    }
}

/// The state after analyzing a statement sequence, and whether any statement of it
/// is guaranteed to return.
pub open spec fn sem_prog(v: AnalyzerView, s: Seq<Statement>) -> (AnalyzerView, bool)
    decreases s,
{
    if s.len() == 0 {
        (v, false)
    } else {
        let (v1, r1) = sem_stmt(v, s[0]);
        let (v2, r2) = sem_prog(v1, s.drop_first());
        (v2, r1 || r2)
    }
}

fn starts_with_underscore(name: &String) -> (r: bool)
    ensures
        r == marked_unused(name@),
{
    let t = name.as_str();
    t.unicode_len() > 0 && t.get_char(0) == '_'
}

/// The declared type names of the parameters, in order.
fn param_type_names(params: &Vec<Param>) -> (r: Vec<String>)
    ensures
        names_view(r@) == param_types(params@),
{
    let mut r: Vec<String> = Vec::new();
    let mut i: usize = 0;
    while i < params.len()
        invariant
            i <= params.len(),
            r@.len() == i,
            names_view(r@) =~= param_types(params@).subrange(0, i as int),
        decreases params.len() - i,
    {
        let t = params[i].datatype.value.clone();
        let ghost before = r@;
        r.push(t);
        assert forall|k: int| 0 <= k < i + 1 implies names_view(r@)[k]
            == param_types(params@)[k] by {
            if k < i {
                assert(r@[k] == before[k]);
                assert(names_view(before)[k] == param_types(params@)[k]);
            }
        }
        assert(names_view(r@) =~= param_types(params@).subrange(0, i + 1));
        i = i + 1;
    }
    assert(param_types(params@).subrange(0, params@.len() as int) =~= param_types(params@));
    r
}

/// Binds each parameter as an immutable variable of its declared type.
fn bind_parameters(analyzer: &mut Analyzer, params: &Vec<Param>)
    requires
        wf(old(analyzer)@),
    ensures
        wf(final(analyzer)@),
        same_frame(old(analyzer)@, final(analyzer)@),
        final(analyzer)@ == bind_params(old(analyzer)@, params@),
{
    let ghost v0 = analyzer@;
    proof {
        assert(params@.subrange(0, params@.len() as int) =~= params@);
    }
    let mut i: usize = 0;
    while i < params.len()
        invariant
            i <= params.len(),
            wf(analyzer@),
            same_frame(v0, analyzer@),
            bind_params(v0, params@) == bind_params(
                analyzer@,
                params@.subrange(i as int, params@.len() as int),
            ),
        decreases params.len() - i,
    {
        proof {
            assert(params@.subrange(i as int, params@.len() as int).drop_first()
                =~= params@.subrange(i + 1, params@.len() as int));
        }
        let p = &params[i];
        analyzer.set_variable(&p.name.value, &p.datatype.value, false, p.span);
        i = i + 1;
    }
    proof {
        assert(params@.subrange(i as int, params@.len() as int) =~= Seq::<Param>::empty());
    }
}

/// Warns about the bindings of a scope that was left, unless warnings are suppressed.
fn warn_scope(analyzer: &mut Analyzer, scope: &Scope)
    requires
        wf(old(analyzer)@),
    ensures
        wf(final(analyzer)@),
        same_frame(old(analyzer)@, final(analyzer)@),
        final(analyzer)@ == (if old(analyzer)@.suppress {
            old(analyzer)@
        } else {
            scope_warnings(old(analyzer)@, bindings_view(scope.variables@))
        }),
{
    if !analyzer.suppresses_warnings() {
        let ghost v0 = analyzer@;
        let ghost bs = bindings_view(scope.variables@);
        let mut k: usize = 0;
        proof {
            assert(bs.subrange(0, bs.len() as int) =~= bs);
        }
        while k < scope.variables.len()
            invariant
                k <= scope.variables.len(),
                bindings_view(scope.variables@) == bs,
                wf(analyzer@),
                same_frame(v0, analyzer@),
                scope_warnings(v0, bs) == scope_warnings(analyzer@, bs.subrange(k as int, bs.len() as int)),
            decreases scope.variables.len() - k,
        {
            proof {
                assert(bs.subrange(k as int, bs.len() as int).drop_first()
                    =~= bs.subrange(k + 1, bs.len() as int));
            }
            let b = &scope.variables[k];
            let underscore = starts_with_underscore(&b.name);
            if b.sig.used == 0 && !underscore {
                analyzer.report_warning(Message::UnusedVariable(b.name.clone()), b.sig.span);
            }
            if b.sig.mutable && b.sig.changed == 0 {
                analyzer.report_warning(Message::NeedlessMutability(b.name.clone()), b.sig.span);
            }
            k = k + 1;
        }
        proof {
            assert(bs.subrange(k as int, bs.len() as int) =~= Seq::<(Seq<char>, SigView)>::empty());
        }
    }
}

impl Statement {
    /// Points at the callee's signature when `expr` calls a function by name.
    fn hint_function_signature(&self, expr: &Expression, analyzer: &mut Analyzer)
        requires
            wf(old(analyzer)@),
        ensures
            wf(final(analyzer)@),
            final(analyzer)@ == hint_sig(old(analyzer)@, *expr),
    {
        match &expr.node {
            Expr::FuncCall(name, _) => match &name.node {
                Expr::Var(id) => {
                    let signature = match analyzer.get_variable(id, true) {
                        Some(func) => if func.data_type.is_func() {
                            Some(func.data_type.duplicate())
                        } else {
                            None
                        },
                        None => None,
                    };
                    match signature {
                        Some(sig) => analyzer.report_hint(
                            Message::FunctionSignature(id.clone(), sig),
                            Some(expr.span),
                        ),
                        None => {},
                    }
                },
                _ => {},
            },
            _ => {},
        }
    }

    /// Reports an expression that yields no value where one is needed.
    fn check_value(&self, expr: &Expression, expr_type: &DataType, analyzer: &mut Analyzer)
        requires
            wf(old(analyzer)@),
        ensures
            wf(final(analyzer)@),
            final(analyzer)@ == value_check(old(analyzer)@, *expr, expr_type@),
    {
        if expr_type.is_void() {
            analyzer.report_error(Message::NoValue, expr.span);
            self.hint_function_signature(expr, analyzer);
        }
    }

    /// Checks the header of the function declaration `self` and binds its name.
    fn declare_header(&self, analyzer: &mut Analyzer, name: &Ident, params: &Vec<Param>, return_type: &Ident)
        requires
            wf(old(analyzer)@),
        ensures
            wf(final(analyzer)@),
            same_frame(old(analyzer)@, final(analyzer)@),
            final(analyzer)@ == declare_function(old(analyzer)@, self.span, *name, params@, *return_type),
    {
        if analyzer.function_depth() > 0 {
            analyzer.report_error(Message::NestedFunction, self.span);
        }
        let redeclared = match analyzer.get_variable(&name.value, false) {
            Some(sig) => sig.data_type.is_func(),
            None => false,
        };
        if redeclared {
            analyzer.report_error(Message::FunctionRedeclared(name.value.clone()), name.span);
        } else {
            let types = param_type_names(params);
            analyzer.set_function(&name.value, types, &return_type.value, name.span);
        }
        if !analyzer.valid_return_type(&return_type.value) {
            analyzer.report_error(
                Message::UnknownReturnType(return_type.value.clone()),
                return_type.span,
            );
        }
        let is_void = is_text(&return_type.value, "void");
        proof {
            reveal_strlit("void");
            reveal_strlit("main");
            assert("void"@ =~= void_name());
            assert("main"@ =~= main_name());
        }
        if is_text(&name.value, "main") {
            if params.len() > 0 {
                let span = Span { lo: params[0].span.lo, hi: params[params.len() - 1].span.hi };
                analyzer.report_error(Message::MainHasParameters, span);
            }
            if !is_void {
                analyzer.report_error(Message::MainReturnsValue, return_type.span);
            }
            if analyzer.scope_depth() > 1 {
                analyzer.report_error(Message::MainNotGlobal, name.span);
            }
        }
    }

    /// Analyzes the declaration `self` of a function and its body.
    fn analyze_function(
        &self,
        analyzer: &mut Analyzer,
        name: &Ident,
        params: &Vec<Param>,
        return_type: &Ident,
        body: &crate::parser::ast::Program,
    ) -> (r: bool)
        requires
            wf(old(analyzer)@),
            self.node == Stmt::FuncDecl(*name, *params, *return_type, *body),
        ensures
            wf(final(analyzer)@),
            same_frame(old(analyzer)@, final(analyzer)@),
            (final(analyzer)@, r) == sem_stmt(old(analyzer)@, *self),
        decreases self, 1nat,
    {
        self.declare_header(analyzer, name, params, return_type);
        let ghost v4 = analyzer@;
        let saved_loops = analyzer.loop_depth();
        analyzer.push_scope();
        let signature = DataType::FuncSig(return_type.value.clone(), param_type_names(params));
        analyzer.push_function(&name.value, signature);
        analyzer.set_loop_depth(0);
        bind_parameters(analyzer, params);
        assert(analyzer@ == enter_function(v4, *name, params@, *return_type));
        proof {
            assert(decreases_to!(*self => self.node));
            assert(self.node->FuncDecl_3 == *body);
            assert(decreases_to!(self.node => self.node->FuncDecl_3));
        }
        let guaranteed = body.analyze(analyzer);
        analyzer.pop_function();
        analyzer.set_loop_depth(saved_loops);
        let ghost v1 = analyzer@;
        let scope = analyzer.pop_scope();
        warn_scope(analyzer, &scope);
        assert(v1.starts.drop_last() =~= v4.starts);
        assert(v1.funcs =~= v4.funcs);
        let is_void = is_text(&return_type.value, "void");
        proof {
            reveal_strlit("void");
            assert("void"@ =~= void_name());
        }
        if !is_void && !guaranteed {
            analyzer.report_error(
                Message::MightNotReturn(name.value.clone(), return_type.value.clone()),
                self.span,
            );
        }
        false
    }

    /// Analyzes the statement; the result tells whether it is guaranteed to return.
    pub fn analyze(&self, analyzer: &mut Analyzer) -> (r: bool)
        requires
            wf(old(analyzer)@),
        ensures
            wf(final(analyzer)@),
            same_frame(old(analyzer)@, final(analyzer)@),
            (final(analyzer)@, r) == sem_stmt(old(analyzer)@, *self),
        decreases self, 2nat,
    {
        match &self.node {
            Stmt::ExprStmt(expr) => {
                expr.analyze(analyzer);
                false
            },
            Stmt::FuncDecl(name, params, return_type, body) => {
                self.analyze_function(analyzer, name, params, return_type, body)
            },
            Stmt::ReturnStmt(expr) => {
                match analyzer.get_current_function() {
                    None => {
                        analyzer.report_error(Message::ReturnOutsideFunction, self.span);
                    },
                    Some((signature, function)) => {
                        let fname = function.clone();
                        let rt = signature.return_name().clone();
                        let is_void = is_text(&rt, "void");
                        proof {
                            reveal_strlit("void");
                            assert("void"@ =~= void_name());
                        }
                        match expr {
                            None => {
                                if !is_void {
                                    analyzer.report_error(Message::ReturnMissingValue, self.span);
                                    analyzer.report_hint(Message::RequiresReturnValue(fname, rt), None);
                                }
                            },
                            Some(x) => {
                                if is_void {
                                    analyzer.report_error(Message::ReturnHasValue, self.span);
                                    analyzer.report_hint(Message::ReturnsNothing(fname), None);
                                } else {
                                    let t = x.analyze(analyzer);
                                    self.check_value(x, &t, analyzer);
                                }
                            },
                        }
                    },
                }
                true
            },
            Stmt::IfStmt(condition, then_branch, else_branch) => {
                let t = condition.analyze(analyzer);
                self.check_value(condition, &t, analyzer);
                let r1 = then_branch.analyze(analyzer);
                let r2 = else_branch.analyze(analyzer);
                r1 && r2
            },
            Stmt::WhileStmt(condition, body) => {
                let t = condition.analyze(analyzer);
                self.check_value(condition, &t, analyzer);
                let saved = analyzer.loop_depth();
                if saved < u64::MAX {
                    analyzer.set_loop_depth(saved + 1);
                }
                body.analyze(analyzer);
                analyzer.set_loop_depth(saved);
                false
            },
            Stmt::BreakStmt => {
                if analyzer.loop_depth() == 0 {
                    analyzer.report_error(Message::BreakOutsideLoop, self.span);
                }
                false
            },
            Stmt::ContinueStmt => {
                if analyzer.loop_depth() == 0 {
                    analyzer.report_error(Message::ContinueOutsideLoop, self.span);
                }
                false
            },
            Stmt::VarDecl(qualifiers, name, datatype, value) => {
                let deduced = value.analyze(analyzer);
                let previous = match analyzer.get_variable(&name.value, false) {
                    Some(var) => Some(var.span),
                    None => None,
                };
                match previous {
                    Some(declared) => {
                        analyzer.report_error(Message::VariableRedeclared(name.value.clone()), declared);
                        analyzer.report_hint(Message::DeclaredAgain(name.value.clone()), Some(name.span));
                        return false;
                    },
                    None => {},
                }
                let mutable = qualifiers.len() > 0 && qualifiers[0] == Qualifier::Mutable;
                match datatype {
                    None => {
                        let valid = match &deduced {
                            DataType::VarSig(t) => analyzer.valid_data_type(t),
                            _ => false,
                        };
                        if !valid {
                            analyzer.report_error(
                                Message::InvalidDeducedType(name.value.clone(), deduced.duplicate()),
                                value.span,
                            );
                            self.hint_function_signature(value, analyzer);
                        }
                        analyzer.set_entity(&name.value, &deduced, mutable, name.span);
                    },
                    Some(data_type) => {
                        if !analyzer.valid_data_type(&data_type.value) {
                            analyzer.report_error(
                                Message::UnknownDataType(data_type.value.clone()),
                                data_type.span,
                            );
                        } else if !deduced.is_var_named(&data_type.value) {
                            analyzer.report_error(
                                Message::IncompatibleDeclaration(
                                    name.value.clone(),
                                    deduced,
                                    data_type.value.clone(),
                                ),
                                value.span,
                            );
                            self.hint_function_signature(value, analyzer);
                        }
                        analyzer.set_variable(&name.value, &data_type.value, mutable, name.span);
                    },
                }
                false
            },
        }
    }
}

} // verus!
