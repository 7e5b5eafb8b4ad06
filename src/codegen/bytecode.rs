use vstd::prelude::*;
use vstd::string::StringExecFns;

verus! {

/// An instruction of the 6502 target.
pub enum Bytecode {
    LDA(String),
    STA(String),
    JSR(String),
}

/// The assembly text of an instruction.
pub open spec fn text_of(b: Bytecode) -> Seq<char> {
    match b {
        Bytecode::LDA(a) => seq!['l', 'd', 'a', ' '] + a@,
        Bytecode::STA(a) => seq!['s', 't', 'a', ' '] + a@,
        Bytecode::JSR(l) => seq!['j', 's', 'r', ' '] + l@,
    }
}

/// The assembly text of a sequence of instructions, one after another.
pub open spec fn texts_of(bs: Seq<Bytecode>) -> Seq<char>
    decreases bs.len(),
{
    if bs.len() == 0 {
        Seq::empty()
    } else {
        texts_of(bs.drop_last()) + text_of(bs.last())
    }
}

impl Bytecode {
    pub fn text(self) -> (r: String)
        ensures
            r@ == text_of(self),
    {
        let (mnemonic, operand) = match self {
            Bytecode::LDA(address) => ("lda ", address),
            Bytecode::STA(address) => ("sta ", address),
            Bytecode::JSR(label) => ("jsr ", label),
        };
        let r = mnemonic.to_owned().concat(operand.as_str());
        proof {
            reveal_strlit("lda ");
            reveal_strlit("sta ");
            reveal_strlit("jsr ");
            assert("lda "@ =~= seq!['l', 'd', 'a', ' ']);
            assert("sta "@ =~= seq!['s', 't', 'a', ' ']);
            assert("jsr "@ =~= seq!['j', 's', 'r', ' ']);
        }
        r
    }

    /// Binary output is not supported: there is no encoding of an instruction.
    pub fn binary(self) -> (r: Option<String>)
        ensures
            r is None,
    {
        None
    }

    pub fn output_text(bytecode: Vec<Bytecode>) -> (r: String)
        ensures
            r@ == texts_of(bytecode@),
    {
        let ghost all = bytecode@;
        let mut rest = bytecode;
        let ghost mut done: Seq<Bytecode> = Seq::empty();
        let mut r = String::new();
        proof {
            assert(all =~= done + rest@);
        }
        while rest.len() > 0
            invariant
                all == done + rest@,
                r@ == texts_of(done),
            decreases rest.len(),
        {
            let b = rest.remove(0);
            let ghost bv = b;
            let t = b.text();
            r = r.concat(t.as_str());
            proof {
                assert(texts_of(done.push(bv)) == texts_of(done) + text_of(bv)) by {
                    assert(done.push(bv).drop_last() =~= done);
                }
                assert(all =~= done.push(bv) + rest@);
                done = done.push(bv);
            }
        }
        proof {
            assert(all =~= done);
        }
        r
    }

    /// Binary output is not supported: only an empty program has one, the empty text.
    pub fn output_binary(bytecode: Vec<Bytecode>) -> (r: Option<String>)
        ensures
            r is Some <==> bytecode@.len() == 0,
            r matches Some(s) ==> s@.len() == 0,
    {
        if bytecode.len() == 0 {
            Some(String::new())
        } else {
            None
        }
    }
}

} // verus!
