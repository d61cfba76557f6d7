//! Static checking done at compile time: name resolution, signatures,
//! parameter bounds, and the feasibility of reified nodes.
use vstd::prelude::*;
use crate::ir::{Type, Expr, ExprM, exprs_model, copy_bytes, copy_types};

verus! {

broadcast use {
    vstd::std_specs::vec::axiom_vec_index_decreases,
    vstd::std_specs::vec::axiom_vec_decreases_to_view,
    vstd::seq::axiom_seq_index_decreases,
    vstd::seq::axiom_seq_subrange_decreases,
};

/// The errors of a compile call.
#[derive(Clone, Copy, Debug, PartialEq, Eq, Structural)]
pub enum CompileError {
    TypeMismatch,
    UnresolvedSymbol,
    ReificationInfeasible,
    ParameterOutOfRange,
    MissingTerminator,
}

/// A function's signature; anonymous units have no name. Only host
/// functions can be variadic.
#[derive(Debug)]
pub struct Sig {
    pub name: Option<Vec<u8>>,
    pub ret: Type,
    pub params: Vec<Type>,
    pub variadic: bool,
}

pub struct SigM {
    pub name: Option<Seq<u8>>,
    pub ret: Type,
    pub params: Seq<Type>,
    pub variadic: bool,
}

pub open spec fn name_model(n: Option<Vec<u8>>) -> Option<Seq<u8>> {
    match n {
        Some(v) => Some(v@),
        None => None,
    }
}

impl View for Sig {
    type V = SigM;

    open spec fn view(&self) -> SigM {
        SigM {
            name: name_model(self.name),
            ret: self.ret,
            params: self.params@,
            variadic: self.variadic,
        }
    }
}

pub open spec fn sigs_model(s: Seq<Sig>) -> Seq<SigM> {
    s.map_values(|g: Sig| g@)
}

pub fn copy_sig(g: &Sig) -> (r: Sig)
    ensures
        r@ == g@,
{
    let name = match &g.name {
        Some(n) => Some(copy_bytes(n)),
        None => None,
    };
    Sig { name, ret: g.ret, params: copy_types(&g.params), variadic: g.variadic }
}

/// The last function in `env` called `name`: later definitions take
/// precedence over earlier ones.
pub open spec fn lookup(env: Seq<SigM>, name: Seq<u8>) -> Option<int>
    decreases env.len(),
{
    if env.len() == 0 {
        None
    } else if env[env.len() - 1].name == Some(name) {
        Some(env.len() - 1)
    } else {
        lookup(env.subrange(0, env.len() - 1), name)
    }
}

pub proof fn lemma_lookup_bounds(env: Seq<SigM>, name: Seq<u8>)
    ensures
        lookup(env, name) matches Some(i) ==> 0 <= i < env.len() && env[i].name == Some(name),
    decreases env.len(),
{
    if env.len() > 0 {
        lemma_lookup_bounds(env.subrange(0, env.len() - 1), name);
    }
}

/// Whether two byte strings are equal.
pub fn bytes_eq(a: &Vec<u8>, b: &Vec<u8>) -> (r: bool)
    ensures
        r == (a@ == b@),
{
    if a.len() != b.len() {
        return false;
    }
    let mut i: usize = 0;
    while i < a.len()
        invariant
            i <= a.len(),
            a.len() == b.len(),
            a@.subrange(0, i as int) == b@.subrange(0, i as int),
        decreases a.len() - i,
    {
        if a[i] != b[i] {
            assert(a@.subrange(0, i + 1)[i as int] != b@.subrange(0, i + 1)[i as int]);
            return false;
        }
        i += 1;
        assert(a@.subrange(0, i as int) =~= b@.subrange(0, i as int));
    }
    assert(a@ =~= a@.subrange(0, i as int));
    assert(b@ =~= b@.subrange(0, i as int));
    true
}

/// Whether two type sequences are equal.
pub fn types_eq(a: &Vec<Type>, b: &Vec<Type>) -> (r: bool)
    ensures
        r == (a@ == b@),
{
    if a.len() != b.len() {
        return false;
    }
    let mut i: usize = 0;
    while i < a.len()
        invariant
            i <= a.len(),
            a.len() == b.len(),
            a@.subrange(0, i as int) == b@.subrange(0, i as int),
        decreases a.len() - i,
    {
        if a[i] != b[i] {
            assert(a@.subrange(0, i + 1)[i as int] != b@.subrange(0, i + 1)[i as int]);
            return false;
        }
        i += 1;
        assert(a@.subrange(0, i as int) =~= b@.subrange(0, i as int));
    }
    assert(a@ =~= a@.subrange(0, i as int));
    assert(b@ =~= b@.subrange(0, i as int));
    true
}

pub fn find_function(env: &Vec<Sig>, name: &Vec<u8>) -> (r: Option<usize>)
    ensures
        match r {
            Some(i) => lookup(sigs_model(env@), name@) == Some(i as int),
            None => lookup(sigs_model(env@), name@) is None,
        },
{
    let ghost m = sigs_model(env@);
    let mut i: usize = env.len();
    proof {
        assert(m.subrange(0, i as int) =~= m);
    }
    while i > 0
        invariant
            i <= env.len(),
            m == sigs_model(env@),
            lookup(m, name@) == lookup(m.subrange(0, i as int), name@),
        decreases i,
    {
        let hit = match &env[i - 1].name {
            Some(n) => bytes_eq(n, name),
            None => false,
        };
        proof {
            assert(m.subrange(0, i as int).subrange(0, i - 1) =~= m.subrange(0, i - 1));
        }
        if hit {
            return Some(i - 1);
        }
        i -= 1;
    }
    None
}

/// A reified node is runtime-constructible unless it holds an array whose
/// elements are of type Void, which has no runtime representation.
pub open spec fn feasible(e: ExprM) -> bool
    decreases e, 0int,
{
    match e {
        ExprM::BinaryAdd(l, r) => feasible(*l) && feasible(*r),
        ExprM::Print(o) => feasible(*o),
        ExprM::Array(t, es) => t != Type::Void && all_feasible(es),
        ExprM::Call(c, _, _, _, args) => feasible(*c) && all_feasible(args),
        ExprM::Constructor(i) => feasible(*i),
        _ => true,
    }
}

pub open spec fn all_feasible(es: Seq<ExprM>) -> bool
    decreases es, 0int,
{
    if es.len() == 0 {
        true
    } else {
        all_feasible(es.subrange(0, es.len() - 1)) && feasible(es[es.len() - 1])
    }
}

/// Whether argument types fit a signature.
pub open spec fn args_fit(ts: Seq<Type>, params: Seq<Type>, variadic: bool) -> bool {
    (ts.len() == params.len() || (variadic && ts.len() > params.len())) && ts.subrange(
        0,
        params.len() as int,
    ) == params
}

/// The type of `e` in a unit with parameters `ps`, where functions are
/// resolved in `env`; or the first error found, left to right.
pub open spec fn type_of(env: Seq<SigM>, ps: Seq<Type>, e: ExprM) -> Result<Type, CompileError>
    decreases e, 0int,
{
    match e {
        ExprM::Integer(_) => Ok(Type::Integer),
        ExprM::Size(_) => Ok(Type::Size),
        ExprM::Boolean(_) => Ok(Type::Boolean),
        ExprM::Str(_) => Ok(Type::String),
        ExprM::Parameter(i) => if i < ps.len() {
            Ok(ps[i as int])
        } else {
            Err(CompileError::ParameterOutOfRange)
        },
        ExprM::BinaryAdd(l, r) => match type_of(env, ps, *l) {
            Err(x) => Err(x),
            Ok(tl) => match type_of(env, ps, *r) {
                Err(x) => Err(x),
                Ok(tr) => if tl == tr && (tl == Type::Integer || tl == Type::Size) {
                    Ok(tl)
                } else {
                    Err(CompileError::TypeMismatch)
                },
            },
        },
        ExprM::Print(o) => match type_of(env, ps, *o) {
            Err(x) => Err(x),
            Ok(t) => if t == Type::String {
                Ok(Type::Void)
            } else {
                Err(CompileError::TypeMismatch)
            },
        },
        ExprM::Array(t, es) => match types_of(env, ps, es) {
            Err(x) => Err(x),
            Ok(ts) => if t != Type::Void && ts == Seq::new(ts.len(), |i: int| t) {
                Ok(Type::Pointer)
            } else {
                Err(CompileError::TypeMismatch)
            },
        },
        ExprM::FunctionRef(n, ret, fps, variadic) => match lookup(env, n) {
            None => Err(CompileError::UnresolvedSymbol),
            Some(i) => if env[i].variadic == variadic && env[i].ret == ret && env[i].params == fps {
                Ok(Type::Pointer)
            } else {
                Err(CompileError::TypeMismatch)
            },
        },
        ExprM::Call(c, ret, fps, variadic, args) => match type_of(env, ps, *c) {
            Err(x) => Err(x),
            Ok(tc) => match types_of(env, ps, args) {
                Err(x) => Err(x),
                Ok(ts) => if tc == Type::Pointer && args_fit(ts, fps, variadic) {
                    Ok(ret)
                } else {
                    Err(CompileError::TypeMismatch)
                },
            },
        },
        ExprM::Constructor(i) => if feasible(*i) {
            Ok(Type::Pointer)
        } else {
            Err(CompileError::ReificationInfeasible)
        },
    }
}

/// The types of a sequence of expressions, or the first error.
pub open spec fn types_of(env: Seq<SigM>, ps: Seq<Type>, es: Seq<ExprM>) -> Result<
    Seq<Type>,
    CompileError,
>
    decreases es, 0int,
{
    if es.len() == 0 {
        Ok(Seq::empty())
    } else {
        match types_of(env, ps, es.subrange(0, es.len() - 1)) {
            Err(x) => Err(x),
            Ok(ts) => match type_of(env, ps, es[es.len() - 1]) {
                Err(x) => Err(x),
                Ok(t) => Ok(ts.push(t)),
            },
        }
    }
}

pub proof fn lemma_exprs_model_push(s: Seq<Expr>, i: int)
    requires
        0 <= i < s.len(),
    ensures
        exprs_model(s.subrange(0, i + 1)) == exprs_model(s.subrange(0, i)).push(s[i]@),
{
    assert(s.subrange(0, i + 1).subrange(0, i) =~= s.subrange(0, i));
}

pub proof fn lemma_exprs_model_full(s: Seq<Expr>)
    ensures
        exprs_model(s.subrange(0, s.len() as int)) == exprs_model(s),
{
    assert(s.subrange(0, s.len() as int) =~= s);
}

} // verus!

verus! {

/// Decides `feasible`.
pub fn is_feasible(e: &Expr) -> (r: bool)
    ensures
        r == feasible(e@),
    decreases e, 0int,
{
    match e {
        Expr::BinaryAdd(l, r) => is_feasible(l) && is_feasible(r),
        Expr::Print(o) => is_feasible(o),
        Expr::Array(t, es) => *t != Type::Void && are_feasible(es),
        Expr::Call(c, _, _, _, args) => is_feasible(c) && are_feasible(args),
        Expr::Constructor(i) => is_feasible(i),
        _ => true,
    }
}

/// Decides `all_feasible`.
pub fn are_feasible(es: &Vec<Expr>) -> (r: bool)
    ensures
        r == all_feasible(exprs_model(es@)),
    decreases es, 1int,
{
    let mut i: usize = 0;
    while i < es.len()
        invariant
            i <= es.len(),
            all_feasible(exprs_model(es@.subrange(0, i as int))),
        decreases es.len() - i,
    {
        proof {
            lemma_exprs_model_push(es@, i as int);
            crate::ir::lemma_exprs_model_len(es@.subrange(0, i as int));
        }
        let ok = is_feasible(&es[i]);
        proof {
            let pm = exprs_model(es@.subrange(0, i as int));
            assert(pm.push(es@[i as int]@).subrange(0, i as int) =~= pm);
        }
        if !ok {
            proof {
                crate::ir::lemma_exprs_model_len(es@);
                lemma_exprs_model_prefix(es@, i as int + 1);
                if all_feasible(exprs_model(es@)) {
                    lemma_all_feasible_prefix(exprs_model(es@), i as int + 1);
                }
            }
            return false;
        }
        i += 1;
    }
    proof {
        lemma_exprs_model_full(es@);
    }
    true
}

pub proof fn lemma_exprs_model_prefix(s: Seq<Expr>, k: int)
    requires
        0 <= k <= s.len(),
    ensures
        exprs_model(s).subrange(0, k) == exprs_model(s.subrange(0, k)),
    decreases s.len(),
{
    crate::ir::lemma_exprs_model_len(s);
    if k < s.len() {
        let p = s.subrange(0, s.len() - 1);
        assert(p.subrange(0, k) =~= s.subrange(0, k));
        lemma_exprs_model_prefix(p, k);
        crate::ir::lemma_exprs_model_len(p);
        assert(exprs_model(s).subrange(0, k) =~= exprs_model(p).subrange(0, k));
    } else {
        assert(s.subrange(0, k) =~= s);
        assert(exprs_model(s).subrange(0, k) =~= exprs_model(s));
    }
}

/// All of a sequence is feasible only if each prefix is.
pub proof fn lemma_all_feasible_prefix(es: Seq<ExprM>, k: int)
    requires
        0 <= k <= es.len(),
        all_feasible(es),
    ensures
        all_feasible(es.subrange(0, k)),
    decreases es.len(),
{
    if k < es.len() {
        let p = es.subrange(0, es.len() - 1);
        assert(p.subrange(0, k) =~= es.subrange(0, k));
        lemma_all_feasible_prefix(p, k);
    } else {
        assert(es.subrange(0, k) =~= es);
    }
}

} // verus!

verus! {

pub open spec fn types_result(r: Result<Vec<Type>, CompileError>) -> Result<Seq<Type>, CompileError> {
    match r {
        Ok(v) => Ok(v@),
        Err(x) => Err(x),
    }
}

/// An error in a prefix is the error of the whole sequence.
pub proof fn lemma_types_of_prefix_err(env: Seq<SigM>, ps: Seq<Type>, es: Seq<ExprM>, k: int)
    requires
        0 <= k <= es.len(),
        types_of(env, ps, es.subrange(0, k)) is Err,
    ensures
        types_of(env, ps, es) == types_of(env, ps, es.subrange(0, k)),
    decreases es.len(),
{
    if k < es.len() {
        let p = es.subrange(0, es.len() - 1);
        assert(p.subrange(0, k) =~= es.subrange(0, k));
        lemma_types_of_prefix_err(env, ps, p, k);
    } else {
        assert(es.subrange(0, k) =~= es);
    }
}

/// Whether every type in `ts` is `t`.
fn all_of_type(ts: &Vec<Type>, t: Type) -> (r: bool)
    ensures
        r == (ts@ == Seq::new(ts@.len(), |i: int| t)),
{
    let mut i: usize = 0;
    while i < ts.len()
        invariant
            i <= ts.len(),
            forall|j: int| 0 <= j < i ==> ts@[j] == t,
        decreases ts.len() - i,
    {
        if ts[i] != t {
            assert(Seq::new(ts@.len(), |j: int| t)[i as int] == t);
            return false;
        }
        i += 1;
    }
    assert(ts@ =~= Seq::new(ts@.len(), |j: int| t));
    true
}

/// Whether argument types fit a signature, by `args_fit`.
fn fits(ts: &Vec<Type>, params: &Vec<Type>, variadic: bool) -> (r: bool)
    ensures
        r == args_fit(ts@, params@, variadic),
{
    if !(ts.len() == params.len() || (variadic && ts.len() > params.len())) {
        return false;
    }
    let mut i: usize = 0;
    while i < params.len()
        invariant
            i <= params.len() <= ts.len(),
            forall|j: int| 0 <= j < i ==> ts@[j] == params@[j],
        decreases params.len() - i,
    {
        if ts[i] != params[i] {
            assert(ts@.subrange(0, params@.len() as int)[i as int] == ts@[i as int]);
            return false;
        }
        i += 1;
    }
    assert(ts@.subrange(0, params@.len() as int) =~= params@);
    true
}

/// Computes `type_of`.
pub fn check_expr(env: &Vec<Sig>, ps: &Vec<Type>, e: &Expr) -> (r: Result<Type, CompileError>)
    ensures
        r == type_of(sigs_model(env@), ps@, e@),
    decreases e, 0int,
{
    match e {
        Expr::Integer(_) => Ok(Type::Integer),
        Expr::Size(_) => Ok(Type::Size),
        Expr::Boolean(_) => Ok(Type::Boolean),
        Expr::Str(_) => Ok(Type::String),
        Expr::Parameter(i) => if *i < ps.len() {
            Ok(ps[*i])
        } else {
            Err(CompileError::ParameterOutOfRange)
        },
        Expr::BinaryAdd(l, r) => {
            let tl = check_expr(env, ps, l)?;
            let tr = check_expr(env, ps, r)?;
            if tl == tr && (tl == Type::Integer || tl == Type::Size) {
                Ok(tl)
            } else {
                Err(CompileError::TypeMismatch)
            }
        },
        Expr::Print(o) => {
            let t = check_expr(env, ps, o)?;
            if t == Type::String {
                Ok(Type::Void)
            } else {
                Err(CompileError::TypeMismatch)
            }
        },
        Expr::Array(t, es) => {
            let ts = check_exprs(env, ps, es)?;
            if *t != Type::Void && all_of_type(&ts, *t) {
                Ok(Type::Pointer)
            } else {
                Err(CompileError::TypeMismatch)
            }
        },
        Expr::FunctionRef(n, ret, fps, variadic) => {
            proof {
                lemma_lookup_bounds(sigs_model(env@), n@);
            }
            match find_function(env, n) {
                None => Err(CompileError::UnresolvedSymbol),
                Some(i) => {
                    if env[i].variadic == *variadic && env[i].ret == *ret && types_eq(
                        &env[i].params,
                        fps,
                    ) {
                        Ok(Type::Pointer)
                    } else {
                        Err(CompileError::TypeMismatch)
                    }
                },
            }
        },
        Expr::Call(c, ret, fps, variadic, args) => {
            let tc = check_expr(env, ps, c)?;
            let ts = check_exprs(env, ps, args)?;
            if tc == Type::Pointer && fits(&ts, fps, *variadic) {
                Ok(*ret)
            } else {
                Err(CompileError::TypeMismatch)
            }
        },
        Expr::Constructor(i) => if is_feasible(i) {
            Ok(Type::Pointer)
        } else {
            Err(CompileError::ReificationInfeasible)
        },
    }
}

/// Computes `types_of`.
pub fn check_exprs(env: &Vec<Sig>, ps: &Vec<Type>, es: &Vec<Expr>) -> (r: Result<
    Vec<Type>,
    CompileError,
>)
    ensures
        types_result(r) == types_of(sigs_model(env@), ps@, exprs_model(es@)),
    decreases es, 1int,
{
    let ghost g = sigs_model(env@);
    let mut acc: Vec<Type> = Vec::new();
    let mut i: usize = 0;
    while i < es.len()
        invariant
            i <= es.len(),
            g == sigs_model(env@),
            types_of(g, ps@, exprs_model(es@.subrange(0, i as int))) == Ok::<
                Seq<Type>,
                CompileError,
            >(acc@),
        decreases es.len() - i,
    {
        proof {
            lemma_exprs_model_push(es@, i as int);
            crate::ir::lemma_exprs_model_len(es@.subrange(0, i as int));
            let pm = exprs_model(es@.subrange(0, i as int));
            assert(pm.push(es@[i as int]@).subrange(0, i as int) =~= pm);
        }
        let t = check_expr(env, ps, &es[i]);
        match t {
            Ok(t) => {
                acc.push(t);
            },
            Err(x) => {
                proof {
                    crate::ir::lemma_exprs_model_len(es@);
                    lemma_exprs_model_prefix(es@, i as int + 1);
                    lemma_types_of_prefix_err(g, ps@, exprs_model(es@), i as int + 1);
                }
                return Err(x);
            },
        }
        i += 1;
    }
    proof {
        lemma_exprs_model_full(es@);
    }
    Ok(acc)
}

} // verus!
