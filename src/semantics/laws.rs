use crate::lexer::Span;
use crate::message::{MessageView, Severity};
use crate::message::DiagView;
use crate::parser::ast::{Expression, Ident, Statement};
use crate::semantics::expression::{assign_effect, sem_expr};
use crate::semantics::statement::{is_mutable, sem_prog, sem_stmt, value_check};
use crate::semantics::{
    count_change, fresh, in_current, inc, lemma_rfind, lemma_rfind_names, lookup, resolve, wf, AnalyzerView, SigView,
    TypeView,
};
use vstd::prelude::*;

verus! {

/// A name resolves to its binding in the innermost scope that binds it: no later
/// binding, which would belong to the same or an inner scope, has that name. A binding
/// in the current scope is the one it resolves to.
pub proof fn lemma_resolve_innermost(v: AnalyzerView, name: Seq<char>)
    requires
        wf(v),
    ensures
        match resolve(v, name) {
            Some(i) => 0 <= i < v.bindings.len() && v.bindings[i].0 == name && forall|j: int|
                i < j < v.bindings.len() ==> v.bindings[j].0 != name,
            None => forall|j: int| 0 <= j < v.bindings.len() ==> v.bindings[j].0 != name,
        },
        in_current(v, name) is Some ==> resolve(v, name) == in_current(v, name),
{
    let n = v.bindings.len() as int;
    lemma_rfind(v.bindings, name, 0, n);
    lemma_rfind(v.bindings, name, v.starts.last(), n);
    if let Some(i) = in_current(v, name) {
        if let Some(j) = resolve(v, name) {
            assert(j >= i);
            assert(j <= i);
        }
    }
}

/// The type a declaration gives its variable: the one written, else the initializer's.
pub open spec fn declared_type(ty: Option<Ident>, t: TypeView) -> TypeView {
    match ty {
        Some(d) => TypeView::Var(d.value@),
        None => t,
    }
}

/// A declaration of a name that the current scope does not bind adds a binding to the
/// current scope, even where an outer scope binds the name; the name then resolves to
/// the new binding, and no redeclaration is reported.
pub proof fn lemma_declaration_shadows(v: AnalyzerView, st: Statement)
    requires
        st.node is VarDecl,
        in_current(sem_expr(v, *st.node->VarDecl_3).0, st.node->VarDecl_1.value@) is None,
    ensures
        ({
            let name = st.node->VarDecl_1;
            let (v1, t) = sem_expr(v, *st.node->VarDecl_3);
            let b = fresh(declared_type(st.node->VarDecl_2, t), is_mutable(st.node->VarDecl_0@), name.span);
            let (w, r) = sem_stmt(v, st);
            &&& !r
            &&& w.bindings == v1.bindings.push((name.value@, b))
            &&& w.starts == v1.starts
            &&& lookup(w, name.value@) == Some(b)
            &&& w.log.len() >= v1.log.len()
            &&& forall|k: int|
                v1.log.len() <= k < w.log.len() ==> !(#[trigger] w.log[k].message is VariableRedeclared)
        }),
{
    let name = st.node->VarDecl_1;
    let (w, r) = sem_stmt(v, st);
    assert(w.bindings.last().0 == name.value@);
}

/// A declaration of a name that the current scope already binds is exactly one error,
/// which points at the earlier declaration, followed by a hint at the new one; the
/// bindings stay as they were.
pub proof fn lemma_redeclaration_reported(v: AnalyzerView, st: Statement, i: int)
    requires
        st.node is VarDecl,
        in_current(sem_expr(v, *st.node->VarDecl_3).0, st.node->VarDecl_1.value@) == Some(i),
    ensures
        ({
            let name = st.node->VarDecl_1;
            let v1 = sem_expr(v, *st.node->VarDecl_3).0;
            let (w, r) = sem_stmt(v, st);
            &&& !r
            &&& w.bindings == v1.bindings
            &&& w.log == v1.log + seq![
                DiagView {
                    severity: Severity::Error,
                    message: MessageView::VariableRedeclared(name.value@),
                    span: Some(v1.bindings[i].1.span),
                },
                DiagView {
                    severity: Severity::Hint,
                    message: MessageView::DeclaredAgain(name.value@),
                    span: Some(name.span),
                },
            ]
        }),
{
    let v1 = sem_expr(v, *st.node->VarDecl_3).0;
    let (w, r) = sem_stmt(v, st);
    assert(w.log =~= v1.log + seq![w.log[w.log.len() - 2], w.log[w.log.len() - 1]]);
}

/// Assigning a value of the variable's own type reports an error, with a hint at the
/// declaration, exactly when the variable is immutable; the mutation is counted on the
/// binding the name resolves to.
pub proof fn lemma_assignment_mutability(
    v: AnalyzerView,
    span: Span,
    target: Expression,
    value_span: Span,
    t: TypeView,
)
    requires
        target.node is Var,
        lookup(v, target.node->Var_0@) is Some,
    ensures
        ({
            let id = target.node->Var_0@;
            let b = lookup(v, id)->Some_0;
            let (w, ty) = assign_effect(v, span, target, value_span, t, t);
            &&& ty == t
            &&& w.log == v.log + if b.mutable {
                Seq::<DiagView>::empty()
            } else {
                seq![
                    DiagView {
                        severity: Severity::Error,
                        message: MessageView::ImmutableAssign(id),
                        span: Some(span),
                    },
                    DiagView {
                        severity: Severity::Hint,
                        message: MessageView::DeclaredImmutable(id),
                        span: Some(b.span),
                    },
                ]
            }
            &&& w.bindings == count_change(v, id).bindings
            &&& lookup(w, id) == Some(SigView { changed: inc(b.changed), ..b })
        }),
{
    let id = target.node->Var_0@;
    let b = lookup(v, id)->Some_0;
    let (w, ty) = assign_effect(v, span, target, value_span, t, t);
    let i = resolve(v, id)->Some_0;
    lemma_rfind(v.bindings, id, 0, v.bindings.len() as int);
    assert(forall|k: int| 0 <= k < v.bindings.len() ==> w.bindings[k].0 == v.bindings[k].0);
    lemma_rfind_names(w.bindings, v.bindings, id, 0, v.bindings.len() as int);
    if b.mutable {
        assert(w.log =~= v.log + Seq::<DiagView>::empty());
    } else {
        assert(w.log =~= v.log + seq![w.log[w.log.len() - 2], w.log[w.log.len() - 1]]);
    }
}

/// An `if` statement analyzes both branches, the else branch even when the then branch
/// does not return, and guarantees a return exactly when both branches do.
pub proof fn lemma_if_both_branches(v: AnalyzerView, st: Statement)
    requires
        st.node is IfStmt,
    ensures
        ({
            let c = *st.node->IfStmt_0;
            let (v1, t) = sem_expr(v, c);
            let (v3, r1) = sem_prog(value_check(v1, c, t), st.node->IfStmt_1.stmts@);
            let (v4, r2) = sem_prog(v3, st.node->IfStmt_2.stmts@);
            sem_stmt(v, st) == (v4, r1 && r2)
        }),
{
}

/// The state in which the statement at index `i` of `s` is analyzed.
pub open spec fn state_before(v: AnalyzerView, s: Seq<Statement>, i: int) -> AnalyzerView
    decreases i,
{
    if i <= 0 || s.len() == 0 {
        v
    } else {
        state_before(sem_stmt(v, s[0]).0, s.drop_first(), i - 1)
    }
}

/// A statement sequence guarantees a return exactly when one of its statements does,
/// each analyzed in turn; an empty sequence never does.
pub proof fn lemma_program_any(v: AnalyzerView, s: Seq<Statement>)
    ensures
        sem_prog(v, s).1 == exists|i: int| 0 <= i < s.len() && (#[trigger] sem_stmt(state_before(v, s, i), s[i])).1,
    decreases s.len(),
{
    if s.len() > 0 {
        let v1 = sem_stmt(v, s[0]).0;
        let t = s.drop_first();
        lemma_program_any(v1, t);
        if sem_prog(v, s).1 {
            if sem_stmt(v, s[0]).1 {
                assert(state_before(v, s, 0) == v);
                assert(sem_stmt(state_before(v, s, 0), s[0]).1);
            } else {
                let j = choose|j: int| 0 <= j < t.len() && (#[trigger] sem_stmt(state_before(v1, t, j), t[j])).1;
                assert(state_before(v, s, j + 1) == state_before(v1, t, j));
                assert(s[j + 1] == t[j]);
                assert(sem_stmt(state_before(v, s, j + 1), s[j + 1]).1);
            }
        } else {
            assert forall|i: int| 0 <= i < s.len() implies !(#[trigger] sem_stmt(state_before(v, s, i), s[i])).1 by {
                if i > 0 {
                    assert(state_before(v, s, i) == state_before(v1, t, i - 1));
                    assert(s[i] == t[i - 1]);
                    assert(!sem_stmt(state_before(v1, t, i - 1), t[i - 1]).1);
                }
            }
        }
    }
}

} // verus!
