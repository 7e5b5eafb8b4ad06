use crate::flags::Options;
use crate::lexer::Span;
use crate::message::Context;
use crate::parser::ast::Program;
use crate::semantics::statement::sem_prog;
use crate::message::{error, has_error, hint, log_view, warning, DiagView, Diagnostic, Message, MessageView, Severity};
use vstd::prelude::*;



pub mod assign;
pub mod expression;
pub mod laws;
pub mod program;
pub mod statement;

verus! {

/// The type of a name: a function with its return and parameter type names, or a variable.
#[derive(Debug)]
pub enum DataType {
    FuncSig(String, Vec<String>),
    VarSig(String),
}

pub enum TypeView {
    Func(Seq<char>, Seq<Seq<char>>),
    Var(Seq<char>),
}

impl View for DataType {
    type V = TypeView;

    open spec fn view(&self) -> TypeView {
        match self {
            DataType::FuncSig(r, ps) => TypeView::Func(r@, names_view(ps@)),
            DataType::VarSig(v) => TypeView::Var(v@),
        }
    }
}

/// The texts of a sequence of strings.
pub open spec fn names_view(ps: Seq<String>) -> Seq<Seq<char>> {
    ps.map_values(|s: String| s@)
}

pub open spec fn int_name() -> Seq<char> {
    seq!['i', 'n', 't']
}

pub open spec fn void_name() -> Seq<char> {
    seq!['v', 'o', 'i', 'd']
}

pub open spec fn main_name() -> Seq<char> {
    seq!['m', 'a', 'i', 'n']
}

pub open spec fn print_name() -> Seq<char> {
    seq!['p', 'r', 'i', 'n', 't']
}

/// The return type of a function type; a variable type stands for itself.
pub open spec fn return_of(t: TypeView) -> Seq<char> {
    match t {
        TypeView::Func(r, _) => r,
        TypeView::Var(v) => v,
    }
}

pub open spec fn int_t() -> TypeView {
    TypeView::Var(int_name())
}

pub open spec fn void_t() -> TypeView {
    TypeView::Var(void_name())
}

/// `int` and `void` are the only types a function may return.
pub open spec fn is_return_type(t: Seq<char>) -> bool {
    t == int_name() || t == void_name()
}

/// `int` is the only type a variable may hold.
pub open spec fn is_data_type(t: Seq<char>) -> bool {
    t == int_name()
}

pub fn int_string() -> (r: String)
    ensures
        r@ == int_name(),
{
    let r = "int".to_owned();
    proof {
        reveal_strlit("int");
        assert(r@ =~= int_name());
    }
    r
}

pub fn void_string() -> (r: String)
    ensures
        r@ == void_name(),
{
    let r = "void".to_owned();
    proof {
        reveal_strlit("void");
        assert(r@ =~= void_name());
    }
    r
}

/// Whether two strings hold the same text.
pub fn same_text(a: &String, b: &String) -> (r: bool)
    ensures
        r == (a@ == b@),
{
    a.eq(b)
}

/// Whether a string spells the given name, compared character by character.
pub fn is_text(a: &String, b: &str) -> (r: bool)
    ensures
        r == (a@ == b@),
{
    let bb = b.to_owned();
    a.eq(&bb)
}

impl DataType {
    /// A copy of this type.
    pub fn duplicate(&self) -> (r: DataType)
        ensures
            r@ == self@,
    {
        match self {
            DataType::FuncSig(ret, params) => {
                let mut ps: Vec<String> = Vec::new();
                let mut i: usize = 0;
                while i < params.len()
                    invariant
                        i <= params.len(),
                        ps@.len() == i,
                        names_view(ps@) =~= names_view(params@).subrange(0, i as int),
                    decreases params.len() - i,
                {
                    let p = params[i].clone();
                    assert(p@ == params@[i as int]@);
                    let ghost before = ps@;
                    ps.push(p);
                    assert forall|k: int| 0 <= k < i + 1 implies names_view(ps@)[k] == names_view(
                        params@,
                    )[k] by {
                        if k < i {
                            assert(ps@[k] == before[k]);
                            assert(names_view(before)[k] == names_view(params@)[k]);
                        } else {
                            assert(ps@[k] == p);
                        }
                    }
                    assert(names_view(ps@) =~= names_view(params@).subrange(0, i + 1));
                    i = i + 1;
                }
                assert(names_view(params@).subrange(0, params.len() as int) =~= names_view(params@));
                DataType::FuncSig(ret.clone(), ps)
            },
            DataType::VarSig(v) => DataType::VarSig(v.clone()),
        }
    }

    /// Whether two types are the same.
    pub fn same(&self, other: &DataType) -> (r: bool)
        ensures
            r == (self@ == other@),
    {
        match (self, other) {
            (DataType::VarSig(a), DataType::VarSig(b)) => a.eq(b),
            (DataType::FuncSig(ra, pa), DataType::FuncSig(rb, pb)) => {
                if !ra.eq(rb) || pa.len() != pb.len() {
                    proof {
                        if pa.len() != pb.len() {
                            assert(names_view(pa@).len() != names_view(pb@).len());
                        }
                    }
                    return false;
                }
                let mut i: usize = 0;
                while i < pa.len()
                    invariant
                        i <= pa.len(),
                        pa.len() == pb.len(),
                        self@ == TypeView::Func(ra@, names_view(pa@)),
                        other@ == TypeView::Func(rb@, names_view(pb@)),
                        forall|k: int| 0 <= k < i ==> pa@[k]@ == pb@[k]@,
                    decreases pa.len() - i,
                {
                    if !pa[i].eq(&pb[i]) {
                        assert(names_view(pa@)[i as int] != names_view(pb@)[i as int]);
                        return false;
                    }
                    i = i + 1;
                }
                assert(names_view(pa@) =~= names_view(pb@));
                true
            },
            _ => false,
        }
    }

    /// Whether this is the variable type with the given name.
    pub fn is_var(&self, name: &str) -> (r: bool)
        ensures
            r == (self@ == TypeView::Var(name@)),
    {
        match self {
            DataType::VarSig(v) => is_text(v, name),
            _ => false,
        }
    }

    pub fn is_int(&self) -> (r: bool)
        ensures
            r == (self@ == int_t()),
    {
        proof {
            reveal_strlit("int");
            assert("int"@ =~= int_name());
        }
        self.is_var("int")
    }

    pub fn is_void(&self) -> (r: bool)
        ensures
            r == (self@ == void_t()),
    {
        proof {
            reveal_strlit("void");
            assert("void"@ =~= void_name());
        }
        self.is_var("void")
    }

    /// Whether this is the variable type named by `name`.
    pub fn is_var_named(&self, name: &String) -> (r: bool)
        ensures
            r == (self@ == TypeView::Var(name@)),
    {
        match self {
            DataType::VarSig(v) => same_text(v, name),
            _ => false,
        }
    }

    /// The return type of a function type; a variable type stands for itself.
    pub fn return_name(&self) -> (r: &String)
        ensures
            r@ == return_of(self@),
    {
        match self {
            DataType::FuncSig(ret, _) => ret,
            DataType::VarSig(v) => v,
        }
    }

    /// Whether this is the function type.
    pub fn is_func(&self) -> (r: bool)
        ensures
            r == (self@ is Func),
    {
        match self {
            DataType::FuncSig(..) => true,
            _ => false,
        }
    }
}

/// What the analyzer knows of a bound name.
#[derive(Debug)]
pub struct TypeSignature {
    pub data_type: DataType,
    pub mutable: bool,
    pub span: Span,
    pub used: u64,
    pub changed: u64,
}

pub struct SigView {
    pub ty: TypeView,
    pub mutable: bool,
    pub span: Span,
    pub used: u64,
    pub changed: u64,
}

impl View for TypeSignature {
    type V = SigView;

    open spec fn view(&self) -> SigView {
        SigView {
            ty: self.data_type@,
            mutable: self.mutable,
            span: self.span,
            used: self.used,
            changed: self.changed,
        }
    }
}

/// A name together with its signature.
#[derive(Debug)]
pub struct Binding {
    pub name: String,
    pub sig: TypeSignature,
}

impl View for Binding {
    type V = (Seq<char>, SigView);

    open spec fn view(&self) -> (Seq<char>, SigView) {
        (self.name@, self.sig@)
    }
}

pub open spec fn bindings_view(bs: Seq<Binding>) -> Seq<(Seq<char>, SigView)> {
    bs.map_values(|b: Binding| b@)
}

/// One binding frame, as it stands when it is left.
pub struct Scope {
    pub variables: Vec<Binding>,
}

/// The analyzer's state: all bindings in declaration order with the offset at which
/// each open scope starts, the enclosing functions (declared signature, name), the loop depth,
/// and the diagnostics reported so far.
pub struct AnalyzerView {
    pub bindings: Seq<(Seq<char>, SigView)>,
    pub starts: Seq<int>,
    pub funcs: Seq<(TypeView, Seq<char>)>,
    pub loops: int,
    pub suppress: bool,
    pub log: Seq<DiagView>,
}

pub struct Analyzer {
    bindings: Vec<Binding>,
    starts: Vec<usize>,
    func_stack: Vec<(DataType, String)>,
    loops: u64,
    warn_suppress: bool,
    diagnostics: Vec<Diagnostic>,
}

impl View for Analyzer {
    type V = AnalyzerView;

    closed spec fn view(&self) -> AnalyzerView {
        AnalyzerView {
            bindings: bindings_view(self.bindings@),
            starts: self.starts@.map_values(|s: usize| s as int),
            funcs: self.func_stack@.map_values(|f: (DataType, String)| (f.0@, f.1@)),
            loops: self.loops as int,
            suppress: self.warn_suppress,
            log: log_view(self.diagnostics@),
        }
    }
}

/// Where scope `k` ends: where the next scope starts, or at the end of the bindings.
pub open spec fn scope_end(v: AnalyzerView, k: int) -> int {
    if k + 1 < v.starts.len() {
        v.starts[k + 1]
    } else {
        v.bindings.len() as int
    }
}

/// No two bindings of one scope have the same name.
pub open spec fn names_unique(v: AnalyzerView) -> bool {
    forall|k: int, i: int, j: int|
        0 <= k < v.starts.len() && #[trigger] v.starts[k] <= i < j < scope_end(v, k) ==> #[trigger] v.bindings[i].0
            != #[trigger] v.bindings[j].0
}

/// The state invariant: the global scope starts at 0, scope starts never decrease nor
/// pass the end of the bindings, and names are unique within each scope.
pub open spec fn wf(v: AnalyzerView) -> bool {
    &&& v.starts.len() >= 1
    &&& v.starts[0] == 0
    &&& forall|i: int| 0 <= i < v.starts.len() ==> 0 <= #[trigger] v.starts[i] <= v.bindings.len()
    &&& forall|i: int, j: int| 0 <= i <= j < v.starts.len() ==> v.starts[i] <= v.starts[j]
    &&& 0 <= v.loops <= u64::MAX
    &&& names_unique(v)
}

/// The highest index in `[lo, hi)` whose binding has the given name.
pub open spec fn rfind(bs: Seq<(Seq<char>, SigView)>, name: Seq<char>, lo: int, hi: int) -> Option<
    int,
>
    decreases hi - lo,
{
    if hi <= lo {
        None
    } else if bs[hi - 1].0 == name {
        Some(hi - 1)
    } else {
        rfind(bs, name, lo, hi - 1)
    }
}

pub proof fn lemma_rfind(bs: Seq<(Seq<char>, SigView)>, name: Seq<char>, lo: int, hi: int)
    requires
        0 <= lo,
        hi <= bs.len(),
    ensures
        match rfind(bs, name, lo, hi) {
            Some(i) => lo <= i < hi && bs[i].0 == name && forall|k: int| i < k < hi ==> bs[k].0 != name,
            None => forall|k: int| lo <= k < hi ==> bs[k].0 != name,
        },
    decreases hi - lo,
{
    if hi > lo && bs[hi - 1].0 != name {
        lemma_rfind(bs, name, lo, hi - 1);
    }
}

/// The search depends on the names alone.
pub proof fn lemma_rfind_names(
    a: Seq<(Seq<char>, SigView)>,
    b: Seq<(Seq<char>, SigView)>,
    name: Seq<char>,
    lo: int,
    hi: int,
)
    requires
        a.len() == b.len(),
        0 <= lo,
        hi <= a.len(),
        forall|k: int| 0 <= k < a.len() ==> a[k].0 == b[k].0,
    ensures
        rfind(a, name, lo, hi) == rfind(b, name, lo, hi),
    decreases hi - lo,
{
    if hi > lo {
        assert(a[hi - 1].0 == b[hi - 1].0);
        lemma_rfind_names(a, b, name, lo, hi - 1);
    }
}

/// The binding a name resolves to, searching the innermost scope first.
pub open spec fn resolve(v: AnalyzerView, name: Seq<char>) -> Option<int> {
    rfind(v.bindings, name, 0, v.bindings.len() as int)
}

/// The binding of a name in the current (innermost) scope.
pub open spec fn in_current(v: AnalyzerView, name: Seq<char>) -> Option<int> {
    rfind(v.bindings, name, v.starts.last(), v.bindings.len() as int)
}

pub open spec fn lookup(v: AnalyzerView, name: Seq<char>) -> Option<SigView> {
    match resolve(v, name) {
        Some(i) => Some(v.bindings[i].1),
        None => None,
    }
}

/// Binds a name in the current scope, replacing a binding of it there.
pub open spec fn bind(v: AnalyzerView, name: Seq<char>, sig: SigView) -> AnalyzerView {
    match in_current(v, name) {
        Some(i) => AnalyzerView { bindings: v.bindings.update(i, (name, sig)), ..v },
        None => AnalyzerView { bindings: v.bindings.push((name, sig)), ..v },
    }
}

pub open spec fn fresh(ty: TypeView, mutable: bool, span: Span) -> SigView {
    SigView { ty, mutable, span, used: 0, changed: 0 }
}

pub open spec fn inc(n: u64) -> u64 {
    if n < u64::MAX {
        (n + 1) as u64
    } else {
        n
    }
}

/// Counts a use of the binding that a name resolves to.
pub open spec fn count_use(v: AnalyzerView, name: Seq<char>) -> AnalyzerView {
    match resolve(v, name) {
        Some(i) => AnalyzerView {
            bindings: v.bindings.update(
                i,
                (name, SigView { used: inc(v.bindings[i].1.used), ..v.bindings[i].1 }),
            ),
            ..v
        },
        None => v,
    }
}

/// Counts a mutation of the binding that a name resolves to.
pub open spec fn count_change(v: AnalyzerView, name: Seq<char>) -> AnalyzerView {
    match resolve(v, name) {
        Some(i) => AnalyzerView {
            bindings: v.bindings.update(
                i,
                (name, SigView { changed: inc(v.bindings[i].1.changed), ..v.bindings[i].1 }),
            ),
            ..v
        },
        None => v,
    }
}

pub open spec fn emit(v: AnalyzerView, severity: Severity, m: MessageView, span: Option<Span>) -> AnalyzerView {
    AnalyzerView { log: v.log.push(DiagView { severity, message: m, span }), ..v }
}

pub open spec fn err(v: AnalyzerView, m: MessageView, span: Span) -> AnalyzerView {
    emit(v, Severity::Error, m, Some(span))
}

pub open spec fn note(v: AnalyzerView, m: MessageView, span: Option<Span>) -> AnalyzerView {
    emit(v, Severity::Hint, m, span)
}

pub open spec fn open_scope(v: AnalyzerView) -> AnalyzerView {
    AnalyzerView { starts: v.starts.push(v.bindings.len() as int), ..v }
}

/// Leaves the innermost scope, dropping its bindings.
pub open spec fn close_scope(v: AnalyzerView) -> AnalyzerView {
    AnalyzerView {
        bindings: v.bindings.subrange(0, v.starts.last()),
        starts: v.starts.drop_last(),
        ..v
    }
}

/// What analysis of a statement or expression leaves as it found it.
pub open spec fn same_frame(a: AnalyzerView, b: AnalyzerView) -> bool {
    &&& a.starts == b.starts
    &&& a.funcs == b.funcs
    &&& a.loops == b.loops
    &&& a.suppress == b.suppress
}

/// The bindings of the innermost scope.
pub open spec fn innermost(v: AnalyzerView) -> Seq<(Seq<char>, SigView)> {
    v.bindings.subrange(v.starts.last(), v.bindings.len() as int)
}

/// The state before any program is analyzed: a global scope holding the builtin
/// `print(int) -> void`.
pub open spec fn initial(suppress: bool) -> AnalyzerView {
    bind(
        AnalyzerView {
            bindings: Seq::empty(),
            starts: seq![0int],
            funcs: Seq::empty(),
            loops: 0,
            suppress,
            log: Seq::empty(),
        },
        print_name(),
        fresh(TypeView::Func(void_name(), seq![int_name()]), false, Span { lo: 0, hi: 0 }),
    )
}

/// The state after analyzing a whole program.
pub open spec fn analysis(ast: Program, suppress: bool) -> AnalyzerView {
    sem_prog(initial(suppress), ast.stmts@).0
}

impl Analyzer {
    /// Analyzes a whole program; `context` serves only to render the diagnostics.
    pub fn run(ast: &Program, context: &Context, flags: &Options) -> (r: Analyzer)
        ensures
            wf(r@),
            r@ == analysis(*ast, flags.warn_suppress),
    {
        let mut analyzer = Analyzer::empty(flags.warn_suppress);
        let print = "print".to_owned();
        let mut params: Vec<String> = Vec::new();
        params.push(int_string());
        let void = void_string();
        proof {
            reveal_strlit("print");
            assert(print@ =~= print_name());
            assert(names_view(params@) =~= seq![int_name()]);
        }
        analyzer.set_function(&print, params, &void, Span { lo: 0, hi: 0 });
        ast.analyze(&mut analyzer);
        analyzer
    }

    /// A state with one empty global scope and no diagnostics.
    fn empty(warn_suppress: bool) -> (r: Analyzer)
        ensures
            wf(r@),
            r@ == (AnalyzerView {
                bindings: Seq::empty(),
                starts: seq![0int],
                funcs: Seq::empty(),
                loops: 0,
                suppress: warn_suppress,
                log: Seq::empty(),
            }),
    {
        let r = Analyzer {
            bindings: Vec::new(),
            starts: vec![0],
            func_stack: Vec::new(),
            loops: 0,
            warn_suppress,
            diagnostics: Vec::new(),
        };
        assert(r@.bindings =~= Seq::empty());
        assert(r@.starts =~= seq![0int]);
        assert(r@.funcs =~= Seq::empty());
        assert(r@.log =~= Seq::empty());
        r
    }

    /// The highest index in `[lo, len)` whose binding has the given name.
    fn find(&self, name: &String, lo: usize) -> (r: Option<usize>)
        requires
            lo <= self@.bindings.len(),
        ensures
            match r {
                Some(i) => rfind(self@.bindings, name@, lo as int, self@.bindings.len() as int) == Some(
                    i as int,
                ),
                None => rfind(self@.bindings, name@, lo as int, self@.bindings.len() as int)
                    is None,
            },
            match r {
                Some(i) => lo <= i < self@.bindings.len() && self@.bindings[i as int].0 == name@,
                None => true,
            },
    {
        proof {
            lemma_rfind(self@.bindings, name@, lo as int, self@.bindings.len() as int);
        }
        let mut hi: usize = self.bindings.len();
        while hi > lo
            invariant
                lo <= hi <= self@.bindings.len(),
                self@.bindings.len() == self.bindings@.len(),
                rfind(self@.bindings, name@, lo as int, self@.bindings.len() as int) == rfind(
                    self@.bindings,
                    name@,
                    lo as int,
                    hi as int,
                ),
            decreases hi,
        {
            if self.bindings[hi - 1].name.eq(name) {
                assert(self@.bindings[hi - 1].0 == name@);
                return Some(hi - 1);
            }
            assert(self@.bindings[hi - 1].0 != name@);
            hi = hi - 1;
        }
        None
    }

    /// The offset at which the innermost scope starts.
    fn current_start(&self) -> (r: usize)
        requires
            wf(self@),
        ensures
            r as int == self@.starts.last(),
            r <= self@.bindings.len(),
    {
        let n = self.starts.len();
        assert(self@.starts[n - 1] == self.starts@[n - 1] as int);
        self.starts[n - 1]
    }

    /// Binds a name in the current scope.
    fn insert(&mut self, name: &String, sig: TypeSignature)
        requires
            wf(old(self)@),
        ensures
            wf(final(self)@),
            final(self)@ == bind(old(self)@, name@, sig@),
    {
        let lo = self.current_start();
        let ghost sv = sig@;
        let b = Binding { name: name.clone(), sig };
        match self.find(name, lo) {
            Some(i) => {
                self.bindings.set(i, b);
                assert(self@.bindings =~= old(self)@.bindings.update(i as int, (name@, sv)));
            },
            None => {
                self.bindings.push(b);
                assert(self@.bindings =~= old(self)@.bindings.push((name@, sv)));
            },
        }
        assert(self@ == bind(old(self)@, name@, sv));
        proof {
            let ov = old(self)@;
            let nv = self@;
            let n = ov.bindings.len() as int;
            lemma_rfind(ov.bindings, name@, lo as int, n);
            assert forall|k: int, i: int, j: int|
                0 <= k < nv.starts.len() && #[trigger] nv.starts[k] <= i < j < scope_end(nv, k) implies #[trigger] nv.bindings[i].0
                    != #[trigger] nv.bindings[j].0 by {
                assert(nv.starts == ov.starts);
                if j < n {
                    assert(nv.bindings[i].0 == ov.bindings[i].0);
                    assert(nv.bindings[j].0 == ov.bindings[j].0);
                    if k + 1 < nv.starts.len() {
                        assert(ov.starts[k] <= i < j < scope_end(ov, k));
                    } else {
                        assert(ov.starts[k] <= i < j < scope_end(ov, k));
                    }
                } else {
                    assert(k + 1 == nv.starts.len());
                    assert(nv.bindings[i].0 == ov.bindings[i].0);
                }
            }
        }
    }

    pub fn push_scope(&mut self)
        requires
            wf(old(self)@),
        ensures
            wf(final(self)@),
            final(self)@ == open_scope(old(self)@),
    {
        let n = self.bindings.len();
        self.starts.push(n);
        assert(self@.starts =~= old(self)@.starts.push(n as int));
        assert(self@ == open_scope(old(self)@));
    }

    /// Leaves the innermost scope and hands back its bindings.
    pub fn pop_scope(&mut self) -> (r: Scope)
        requires
            wf(old(self)@),
            old(self)@.starts.len() > 1,
        ensures
            wf(final(self)@),
            final(self)@ == close_scope(old(self)@),
            bindings_view(r.variables@) == innermost(old(self)@),
    {
        let start = self.current_start();
        self.starts.pop();
        let variables = self.bindings.split_off(start);
        assert(self@.starts =~= old(self)@.starts.drop_last());
        assert(self@.bindings =~= old(self)@.bindings.subrange(0, start as int));
        assert(bindings_view(variables@) =~= innermost(old(self)@));
        assert(self@ == close_scope(old(self)@));
        Scope { variables }
    }

    /// The innermost enclosing function: its signature as its declaration states it, and
    /// its name. The signature is kept with the name when the body is entered, since
    /// inside the body the name may resolve to a parameter that shadows it, or to an
    /// earlier function of that name that the declaration was rejected for repeating.
    pub fn get_current_function(&self) -> (r: Option<(&DataType, &String)>)
        ensures
            match r {
                Some((d, f)) => self@.funcs.len() > 0 && (d@, f@) == self@.funcs.last(),
                None => self@.funcs.len() == 0,
            },
    {
        let n = self.func_stack.len();
        if n == 0 {
            None
        } else {
            let frame = &self.func_stack[n - 1];
            Some((&frame.0, &frame.1))
        }
    }

    /// Enters the body of a function with the given signature.
    pub(crate) fn push_function(&mut self, name: &String, signature: DataType)
        ensures
            final(self)@ == (AnalyzerView {
                funcs: old(self)@.funcs.push((signature@, name@)),
                ..old(self)@
            }),
    {
        let ghost sv = signature@;
        self.func_stack.push((signature, name.clone()));
        assert(self@.funcs =~= old(self)@.funcs.push((sv, name@)));
    }

    /// Leaves the body of the innermost function.
    pub(crate) fn pop_function(&mut self)
        requires
            old(self)@.funcs.len() > 0,
        ensures
            final(self)@ == (AnalyzerView { funcs: old(self)@.funcs.drop_last(), ..old(self)@ }),
    {
        self.func_stack.pop();
        assert(self@.funcs =~= old(self)@.funcs.drop_last());
    }

    /// The number of enclosing functions.
    pub(crate) fn function_depth(&self) -> (r: usize)
        ensures
            r == self@.funcs.len(),
    {
        self.func_stack.len()
    }

    /// The number of scopes open.
    pub(crate) fn scope_depth(&self) -> (r: usize)
        ensures
            r == self@.starts.len(),
    {
        self.starts.len()
    }

    pub(crate) fn loop_depth(&self) -> (r: u64)
        ensures
            r == self@.loops,
    {
        self.loops
    }

    pub(crate) fn set_loop_depth(&mut self, n: u64)
        ensures
            final(self)@ == (AnalyzerView { loops: n as int, ..old(self)@ }),
    {
        self.loops = n;
    }

    pub(crate) fn suppresses_warnings(&self) -> (r: bool)
        ensures
            r == self@.suppress,
    {
        self.warn_suppress
    }

    pub fn set_function(&mut self, name: &String, params: Vec<String>, return_type: &String, span: Span)
        requires
            wf(old(self)@),
        ensures
            wf(final(self)@),
            final(self)@ == bind(
                old(self)@,
                name@,
                fresh(TypeView::Func(return_type@, names_view(params@)), false, span),
            ),
    {
        let sig = TypeSignature {
            data_type: DataType::FuncSig(return_type.clone(), params),
            mutable: false,
            span,
            used: 0,
            changed: 0,
        };
        self.insert(name, sig);
    }

    pub fn valid_return_type(&self, return_type: &String) -> (r: bool)
        ensures
            r == is_return_type(return_type@),
    {
        proof {
            reveal_strlit("int");
            reveal_strlit("void");
            assert("int"@ =~= int_name());
            assert("void"@ =~= void_name());
        }
        is_text(return_type, "int") || is_text(return_type, "void")
    }

    /// The signature a name resolves to: in any scope, innermost first, or in the
    /// current scope only.
    pub fn get_variable(&self, name: &String, all_scopes: bool) -> (r: Option<&TypeSignature>)
        requires
            wf(self@),
        ensures
            ({
                let found = if all_scopes {
                    resolve(self@, name@)
                } else {
                    in_current(self@, name@)
                };
                match r {
                    Some(s) => found is Some && s@ == self@.bindings[found->0].1,
                    None => found is None,
                }
            }),
    {
        let lo = if all_scopes {
            0
        } else {
            self.current_start()
        };
        match self.find(name, lo) {
            Some(i) => Some(&self.bindings[i].sig),
            None => None,
        }
    }

    pub fn set_variable(&mut self, name: &String, data_type: &String, mutable: bool, span: Span)
        requires
            wf(old(self)@),
        ensures
            wf(final(self)@),
            final(self)@ == bind(old(self)@, name@, fresh(TypeView::Var(data_type@), mutable, span)),
    {
        let sig = TypeSignature {
            data_type: DataType::VarSig(data_type.clone()),
            mutable,
            span,
            used: 0,
            changed: 0,
        };
        self.insert(name, sig);
    }

    pub fn set_entity(&mut self, name: &String, data_type: &DataType, mutable: bool, span: Span)
        requires
            wf(old(self)@),
        ensures
            wf(final(self)@),
            final(self)@ == bind(old(self)@, name@, fresh(data_type@, mutable, span)),
    {
        let sig = TypeSignature { data_type: data_type.duplicate(), mutable, span, used: 0, changed: 0 };
        self.insert(name, sig);
    }

    /// Counts a mutation of the binding that `name` resolves to.
    pub fn change_variable(&mut self, name: &String)
        requires
            wf(old(self)@),
        ensures
            wf(final(self)@),
            final(self)@ == count_change(old(self)@, name@),
    {
        match self.find(name, 0) {
            Some(i) => {
                let ghost b = self@.bindings[i as int];
                let e = &mut self.bindings[i];
                if e.sig.changed < u64::MAX {
                    e.sig.changed = e.sig.changed + 1;
                }
                assert(self@.bindings =~= old(self)@.bindings.update(
                    i as int,
                    (name@, SigView { changed: inc(b.1.changed), ..b.1 }),
                ));
            },
            None => {},
        }
    }

    /// Counts a use of the binding that `name` resolves to.
    pub fn use_variable(&mut self, name: &String)
        requires
            wf(old(self)@),
        ensures
            wf(final(self)@),
            final(self)@ == count_use(old(self)@, name@),
    {
        match self.find(name, 0) {
            Some(i) => {
                let ghost b = self@.bindings[i as int];
                let e = &mut self.bindings[i];
                if e.sig.used < u64::MAX {
                    e.sig.used = e.sig.used + 1;
                }
                assert(self@.bindings =~= old(self)@.bindings.update(
                    i as int,
                    (name@, SigView { used: inc(b.1.used), ..b.1 }),
                ));
            },
            None => {},
        }
    }

    pub fn valid_data_type(&self, data_type: &String) -> (r: bool)
        ensures
            r == is_data_type(data_type@),
    {
        proof {
            reveal_strlit("int");
            assert("int"@ =~= int_name());
        }
        is_text(data_type, "int")
    }

    pub(crate) fn report_error(&mut self, message: Message, span: Span)
        ensures
            final(self)@ == err(old(self)@, message@, span),
    {
        error(&mut self.diagnostics, message, Some(span));
    }

    pub(crate) fn report_warning(&mut self, message: Message, span: Span)
        ensures
            final(self)@ == emit(old(self)@, Severity::Warning, message@, Some(span)),
    {
        warning(&mut self.diagnostics, message, Some(span));
    }

    pub(crate) fn report_hint(&mut self, message: Message, span: Option<Span>)
        ensures
            final(self)@ == note(old(self)@, message@, span),
    {
        hint(&mut self.diagnostics, message, span);
    }

    /// Whether an error was reported.
    pub fn had_error(&self) -> (r: bool)
        ensures
            r == has_error(self@.log),
    {
        crate::message::errored(&self.diagnostics)
    }

    /// The diagnostics reported so far, in order.
    pub fn diagnostics(&self) -> (r: &Vec<Diagnostic>)
        ensures
            log_view(r@) == self@.log,
    {
        &self.diagnostics
    }
}

} // verus!
