use crate::codegen::bytecode::Bytecode;
use crate::codegen::statement::prog_code;
use crate::parser::ast::Program;
use vstd::prelude::*;

verus! {

impl Program {
    pub fn codegen(&self) -> (r: Option<Vec<Bytecode>>)
        ensures
            match (r, prog_code(self.stmts@)) {
                (Some(v), Some(s)) => v@ == s,
                (None, None) => true,
                _ => false,
            },
        decreases self,
    {
        let ghost n = self.stmts@.len() as int;
        let mut out: Vec<Bytecode> = Vec::new();
        let mut i: usize = 0;
        proof {
            assert(self.stmts@.subrange(0, n) =~= self.stmts@);
            assert(out@ + Seq::<Bytecode>::empty() =~= out@);
        }
        while i < self.stmts.len()
            invariant
                i <= self.stmts.len(),
                n == self.stmts@.len(),
                match prog_code(self.stmts@) {
                    Some(s) => prog_code(self.stmts@.subrange(i as int, n)) matches Some(t) && s == out@ + t,
                    None => prog_code(self.stmts@.subrange(i as int, n)) is None,
                },
            decreases self.stmts.len() - i,
        {
            proof {
                assert(self.stmts@.subrange(i as int, n).drop_first() =~= self.stmts@.subrange(i + 1, n));
                assert(decreases_to!(self.stmts => self.stmts[i as int]));
            }
            match self.stmts[i].codegen() {
                None => {
                    return None;
                },
                Some(code) => {
                    let mut code = code;
                    let ghost before = out@;
                    let ghost c = code@;
                    out.append(&mut code);
                    proof {
                        assert(out@ =~= before + c);
                        if let Some(t) = prog_code(self.stmts@.subrange(i + 1, n)) {
                            assert(before + (c + t) =~= out@ + t);
                        }
                    }
                },
            }
            i = i + 1;
        }
        proof {
            assert(self.stmts@.subrange(i as int, n) =~= Seq::empty());
            assert(out@ + Seq::<Bytecode>::empty() =~= out@);
        }
        Some(out)
    }
}

} // verus!
