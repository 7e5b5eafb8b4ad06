use crate::codegen::bytecode::Bytecode;
use crate::parser::ast::{Expr, Expression};
use vstd::prelude::*;

verus! {

/// The instructions for an expression, or `None` where the target has no code for it
/// yet. Only a call whose callee is not a name (which analysis rejects) has code: none.
pub open spec fn expr_code(e: Expression) -> Option<Seq<Bytecode>> {
    match e.node {
        Expr::FuncCall(c, _) => match c.node {
            Expr::Var(_) => None,
            _ => Some(Seq::empty()),
        },
        _ => None,
    }
}

impl Expression {
    pub fn codegen(&self) -> (r: Option<Vec<Bytecode>>)
        ensures
            match (r, expr_code(*self)) {
                (Some(v), Some(s)) => v@ == s,
                (None, None) => true,
                _ => false,
            },
    {
        match &self.node {
            Expr::FuncCall(function, _) => match &function.node {
                Expr::Var(_) => None,
                _ => {
                    let v: Vec<Bytecode> = Vec::new();
                    assert(v@ =~= Seq::<Bytecode>::empty());
                    Some(v)
                },
            },
            _ => None,
        }
    }
}

} // verus!
