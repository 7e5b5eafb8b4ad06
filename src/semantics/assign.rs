use crate::message::Message;
use crate::parser::ast::{Expr, Expression};
use crate::semantics::expression::{assign_effect, assign_parts, sem_expr};
use crate::semantics::{same_frame, wf, Analyzer, DataType};
use vstd::prelude::*;

verus! {

impl Expression {
    /// Analyzes the assignment `self` of `expr` to `variable`: both sides must have the
    /// same type, and the target must be a mutable variable in scope.
    pub fn analyze_assign(&self, analyzer: &mut Analyzer, variable: &Expression, expr: &Expression) -> (r:
        DataType)
        requires
            wf(old(analyzer)@),
            assign_parts(self.node) == Some((*variable, *expr)),
        ensures
            wf(final(analyzer)@),
            same_frame(old(analyzer)@, final(analyzer)@),
            (final(analyzer)@, r@) == ({
                let (v1, tr) = sem_expr(old(analyzer)@, *expr);
                let (v2, tl) = sem_expr(v1, *variable);
                assign_effect(v2, self.span, *variable, expr.span, tr, tl)
            }),
        decreases self, 0nat,
    {
        let expr_type = expr.analyze(analyzer);
        let var_type = variable.analyze(analyzer);
        let mismatch = !expr_type.same(&var_type);
        if mismatch {
            analyzer.report_error(
                Message::AssignTypes(expr_type, var_type.duplicate()),
                expr.span,
            );
        }
        match &variable.node {
            Expr::Var(id) => match analyzer.get_variable(id, true) {
                None => {
                    analyzer.report_error(Message::UndeclaredVariable(id.clone()), self.span);
                },
                Some(var) => {
                    let declared = var.span;
                    let mutable = var.mutable;
                    if mismatch {
                        analyzer.report_hint(
                            Message::DeclaredAsType(id.clone(), var_type.duplicate()),
                            Some(declared),
                        );
                    }
                    if !mutable {
                        analyzer.report_error(Message::ImmutableAssign(id.clone()), self.span);
                        analyzer.report_hint(Message::DeclaredImmutable(id.clone()), Some(declared));
                    }
                    analyzer.change_variable(id);
                },
            },
            _ => {
                analyzer.report_error(Message::IndirectAssign, variable.span);
            },
        }
        var_type
    }
}

} // verus!
