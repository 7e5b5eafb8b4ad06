use crate::codegen::bytecode::Bytecode;
use crate::codegen::expression::expr_code;
use crate::parser::ast::{Statement, Stmt};
use crate::semantics::{is_text, main_name};
use vstd::prelude::*;

verus! {

/// The instructions for a statement: the body of `main`, or an expression statement;
/// `None` where the target has no code for it yet.
pub open spec fn stmt_code(st: Statement) -> Option<Seq<Bytecode>>
    decreases st,
{
    match st.node {
        Stmt::FuncDecl(name, _, _, body) => if name.value@ == main_name() {
            prog_code(body.stmts@)
        } else {
            None
        },
        Stmt::ExprStmt(e) => expr_code(*e),
        _ => None,
    }
}

/// The instructions for each statement in order, or `None` if one has none.
pub open spec fn prog_code(s: Seq<Statement>) -> Option<Seq<Bytecode>>
    decreases s,
{
    if s.len() == 0 {
        Some(Seq::empty())
    } else {
        match (stmt_code(s[0]), prog_code(s.drop_first())) {
            (Some(a), Some(b)) => Some(a + b),
            _ => None,
        }
    }
}

impl Statement {
    pub fn codegen(&self) -> (r: Option<Vec<Bytecode>>)
        ensures
            match (r, stmt_code(*self)) {
                (Some(v), Some(s)) => v@ == s,
                (None, None) => true,
                _ => false,
            },
        decreases self,
    {
        match &self.node {
            Stmt::FuncDecl(name, _params, _return_type, program) => {
                proof {
                    reveal_strlit("main");
                    assert("main"@ =~= main_name());
                }
                if is_text(&name.value, "main") {
                    proof {
                        assert(decreases_to!(*self => self.node));
                        assert(decreases_to!(self.node => self.node->FuncDecl_3));
                    }
                    program.codegen()
                } else {
                    None
                }
            },
            Stmt::ExprStmt(expr) => expr.codegen(),
            _ => None,
        }
    }
}

} // verus!
