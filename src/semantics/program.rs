use crate::parser::ast::Program;
use crate::semantics::statement::sem_prog;
use crate::semantics::{same_frame, wf, Analyzer};
use vstd::prelude::*;

verus! {

impl Program {
    /// Analyzes every statement in order; the result tells whether the sequence
    /// is guaranteed to return.
    pub fn analyze(&self, analyzer: &mut Analyzer) -> (r: bool)
        requires
            wf(old(analyzer)@),
        ensures
            wf(final(analyzer)@),
            same_frame(old(analyzer)@, final(analyzer)@),
            (final(analyzer)@, r) == sem_prog(old(analyzer)@, self.stmts@),
        decreases self, 0nat,
    {
        let ghost v0 = analyzer@;
        let ghost n = self.stmts@.len() as int;
        proof {
            assert(self.stmts@.subrange(0, n) =~= self.stmts@);
        }
        let mut guaranteed = false;
        let mut i: usize = 0;
        while i < self.stmts.len()
            invariant
                i <= self.stmts.len(),
                n == self.stmts@.len(),
                wf(analyzer@),
                same_frame(v0, analyzer@),
                sem_prog(v0, self.stmts@) == ({
                    let (vr, rr) = sem_prog(analyzer@, self.stmts@.subrange(i as int, n));
                    (vr, guaranteed || rr)
                }),
            decreases self.stmts.len() - i,
        {
            proof {
                assert(self.stmts@.subrange(i as int, n).drop_first() =~= self.stmts@.subrange(
                    i + 1,
                    n,
                ));
                assert(decreases_to!(self.stmts => self.stmts[i as int]));
            }
            let r = self.stmts[i].analyze(analyzer);
            guaranteed = guaranteed || r;
            i = i + 1;
        }
        proof {
            assert(self.stmts@.subrange(i as int, n) =~= Seq::empty());
        }
        guaranteed
    }
}

} // verus!
