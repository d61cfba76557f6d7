//! The runtime: the module of compiled units, the compile drivers, and the
//! execution of compiled entry points.
use vstd::prelude::*;
use crate::ir::{Type, Expr, ExprM, exprs_model, copy_expr, copy_bytes, copy_types};
use crate::typing::{
    CompileError, Sig, SigM, sigs_model, lookup, type_of, types_of, check_expr, find_function,
    copy_sig,
};
use crate::context::{Block, BlockM, blocks_model};

verus! {

broadcast use {
    vstd::std_specs::vec::axiom_vec_index_decreases,
    vstd::std_specs::vec::axiom_vec_decreases_to_view,
    vstd::seq::axiom_seq_index_decreases,
    vstd::seq::axiom_seq_subrange_decreases,
};

/// The depth of calls a run may reach before it stops with `DepthExceeded`.
pub const CALL_DEPTH: usize = 200;

/// A runtime value.
#[derive(Debug, PartialEq, Eq)]
pub enum Value {
    Integer(i32),
    Size(usize),
    Boolean(bool),
    Str(Vec<u8>),
    Array(Vec<Value>),
    /// A handle to an expression built by a run.
    Handle(Expr),
    /// A compiled unit, by entry point.
    Function(usize),
    /// A host function, by its index among the host symbols.
    Host(usize),
    Void,
}

pub enum ValueM {
    Integer(i32),
    Size(usize),
    Boolean(bool),
    Str(Seq<u8>),
    Array(Seq<ValueM>),
    Handle(ExprM),
    Function(usize),
    Host(usize),
    Void,
}

pub open spec fn value_model(v: Value) -> ValueM
    decreases v, 0int,
{
    match v {
        Value::Integer(i) => ValueM::Integer(i),
        Value::Size(n) => ValueM::Size(n),
        Value::Boolean(b) => ValueM::Boolean(b),
        Value::Str(s) => ValueM::Str(s@),
        Value::Array(vs) => ValueM::Array(values_model(vs@)),
        Value::Handle(e) => ValueM::Handle(e@),
        Value::Function(i) => ValueM::Function(i),
        Value::Host(j) => ValueM::Host(j),
        Value::Void => ValueM::Void,
    }
}

pub open spec fn values_model(s: Seq<Value>) -> Seq<ValueM>
    decreases s, 0int,
{
    if s.len() == 0 {
        Seq::empty()
    } else {
        values_model(s.subrange(0, s.len() - 1)).push(value_model(s[s.len() - 1]))
    }
}

impl View for Value {
    type V = ValueM;

    open spec fn view(&self) -> ValueM {
        value_model(*self)
    }
}

/// What stops a run.
#[derive(Clone, Copy, Debug, PartialEq, Eq, Structural)]
pub enum Fault {
    /// An operand of the wrong kind reached an operation.
    BadOperand,
    /// A parameter index beyond the arguments given.
    BadParameter,
    /// A called value that is neither a function, a host function nor a handle.
    BadCallee,
    /// A function name with no unit and no host symbol.
    Unresolved,
    /// A unit with no terminated first block.
    MissingBody,
    /// A handle that did not compile against the call's signature.
    Compile(CompileError),
    /// Calls nested deeper than the run allows.
    DepthExceeded,
    /// The run reached a host call with no answer for it yet; the call is
    /// recorded as pending.
    Suspended,
}

/// The exchange of a run with the host: the output so far, the answers the
/// host gave to the run's host calls, in order, how many of them the run
/// used, and the host call the run stopped at, if any (symbol and arguments).
#[derive(Debug)]
pub struct Io {
    pub out: Vec<u8>,
    pub answers: Vec<Value>,
    pub used: usize,
    pub pending: Option<(usize, Vec<Value>)>,
}

pub struct IoM {
    pub out: Seq<u8>,
    pub answers: Seq<ValueM>,
    pub used: nat,
    pub pending: Option<(usize, Seq<ValueM>)>,
}

impl View for Io {
    type V = IoM;

    open spec fn view(&self) -> IoM {
        IoM {
            out: self.out@,
            answers: values_model(self.answers@),
            used: self.used as nat,
            pending: match self.pending {
                Some((j, vs)) => Some((j, values_model(vs@))),
                None => None,
            },
        }
    }
}

impl Io {
    /// A fresh exchange: no output, no answers, nothing pending.
    pub fn new() -> (r: Io)
        ensures
            r@ == fresh_io(Seq::empty()),
    {
        let r = Io { out: Vec::new(), answers: Vec::new(), used: 0, pending: None };
        proof {
            assert(values_model(r.answers@) =~= Seq::<ValueM>::empty());
        }
        r
    }
}

/// A fresh exchange with the given answers.
pub open spec fn fresh_io(answers: Seq<ValueM>) -> IoM {
    IoM { out: Seq::empty(), answers, used: 0, pending: None }
}

/// A compiled unit.
#[derive(Debug)]
/// `scope` is how many units of the module its names can resolve to: those
/// compiled before it and with it.
pub struct Unit {
    pub sig: Sig,
    pub blocks: Vec<Block>,
    pub scope: usize,
}

pub struct UnitM {
    pub sig: SigM,
    pub blocks: Seq<BlockM>,
    pub scope: nat,
}

impl View for Unit {
    type V = UnitM;

    open spec fn view(&self) -> UnitM {
        UnitM { sig: self.sig@, blocks: blocks_model(self.blocks@), scope: self.scope as nat }
    }
}

pub open spec fn units_model(s: Seq<Unit>) -> Seq<UnitM> {
    s.map_values(|u: Unit| u@)
}

/// The signatures of a module, by entry point.
pub open spec fn module_env(us: Seq<UnitM>) -> Seq<SigM> {
    us.map_values(|u: UnitM| u.sig)
}

/// The names visible to a unit of scope `scope`: the host symbols, then the
/// units in scope; a name resolves to its last definition here, so units
/// take precedence over host symbols and later units over earlier ones.
pub open spec fn scope_env(hosts: Seq<SigM>, us: Seq<UnitM>, scope: nat) -> Seq<SigM> {
    hosts + module_env(us.subrange(0, if scope <= us.len() { scope as int } else { us.len() as int }))
}

/// The sum of two values: wrapping for integers and sizes alike.
pub open spec fn add_values(a: ValueM, b: ValueM) -> Result<ValueM, Fault> {
    match (a, b) {
        (ValueM::Integer(x), ValueM::Integer(y)) => Ok(ValueM::Integer(x.wrapping_add(y))),
        (ValueM::Size(x), ValueM::Size(y)) => Ok(ValueM::Size(x.wrapping_add(y))),
        _ => Err(Fault::BadOperand),
    }
}

/// Running `e` in module `us`, with host symbols `hosts`, names resolved in
/// scope `scope`, arguments `args`, and calls allowed `fuel` deep: the
/// exchange with the host after `io`, and the value or the fault.
pub open spec fn eval(
    hosts: Seq<SigM>,
    us: Seq<UnitM>,
    scope: nat,
    args: Seq<ValueM>,
    e: ExprM,
    fuel: nat,
    io: IoM,
) -> (IoM, Result<ValueM, Fault>)
    decreases fuel, 0int, e,
{
    match e {
        ExprM::Integer(i) => (io, Ok(ValueM::Integer(i))),
        ExprM::Size(n) => (io, Ok(ValueM::Size(n))),
        ExprM::Boolean(b) => (io, Ok(ValueM::Boolean(b))),
        ExprM::Str(s) => (io, Ok(ValueM::Str(s))),
        ExprM::Parameter(i) => if i < args.len() {
            (io, Ok(args[i as int]))
        } else {
            (io, Err(Fault::BadParameter))
        },
        ExprM::BinaryAdd(l, r) => {
            let (o1, rl) = eval(hosts, us, scope, args, *l, fuel, io);
            match rl {
                Err(x) => (o1, Err(x)),
                Ok(vl) => {
                    let (o2, rr) = eval(hosts, us, scope, args, *r, fuel, o1);
                    match rr {
                        Err(x) => (o2, Err(x)),
                        Ok(vr) => (o2, add_values(vl, vr)),
                    }
                },
            }
        },
        ExprM::Print(o) => {
            let (o1, r) = eval(hosts, us, scope, args, *o, fuel, io);
            match r {
                Ok(ValueM::Str(b)) => (IoM { out: o1.out + b, ..o1 }, Ok(ValueM::Void)),
                Ok(_) => (o1, Err(Fault::BadOperand)),
                Err(x) => (o1, Err(x)),
            }
        },
        ExprM::Array(_, es) => {
            let (o1, r) = eval_list(hosts, us, scope, args, es, fuel, io);
            match r {
                Ok(vs) => (o1, Ok(ValueM::Array(vs))),
                Err(x) => (o1, Err(x)),
            }
        },
        ExprM::FunctionRef(n, _, _, _) => match lookup(scope_env(hosts, us, scope), n) {
            Some(i) => if i < hosts.len() {
                (io, Ok(ValueM::Host(i as usize)))
            } else {
                (io, Ok(ValueM::Function((i - hosts.len()) as usize)))
            },
            None => (io, Err(Fault::Unresolved)),
        },
        ExprM::Call(c, ret, fps, _, a) => {
            let (o1, rc) = eval(hosts, us, scope, args, *c, fuel, io);
            match rc {
                Err(x) => (o1, Err(x)),
                Ok(vc) => {
                    let (o2, ra) = eval_list(hosts, us, scope, args, a, fuel, o1);
                    match ra {
                        Err(x) => (o2, Err(x)),
                        Ok(vs) => match vc {
                            ValueM::Function(i) => if fuel == 0 {
                                (o2, Err(Fault::DepthExceeded))
                            } else if i < us.len() {
                                run_unit(hosts, us, i as int, vs, (fuel - 1) as nat, o2)
                            } else {
                                (o2, Err(Fault::BadCallee))
                            },
                            ValueM::Host(j) => if o2.used < o2.answers.len() {
                                (IoM { used: o2.used + 1, ..o2 }, Ok(o2.answers[o2.used as int]))
                            } else {
                                (IoM { pending: Some((j, vs)), ..o2 }, Err(Fault::Suspended))
                            },
                            ValueM::Handle(h) => if fuel == 0 {
                                (o2, Err(Fault::DepthExceeded))
                            } else {
                                match type_of(scope_env(hosts, us, scope), fps, h) {
                                    Err(x) => (o2, Err(Fault::Compile(x))),
                                    Ok(t) => if t == ret {
                                        eval(hosts, us, scope, vs, h, (fuel - 1) as nat, o2)
                                    } else {
                                        (o2, Err(Fault::Compile(CompileError::TypeMismatch)))
                                    },
                                }
                            },
                            _ => (o2, Err(Fault::BadCallee)),
                        },
                    }
                },
            }
        },
        ExprM::Constructor(i) => (io, Ok(ValueM::Handle(*i))),
    }
}

/// Running a sequence of expressions left to right.
pub open spec fn eval_list(
    hosts: Seq<SigM>,
    us: Seq<UnitM>,
    scope: nat,
    args: Seq<ValueM>,
    es: Seq<ExprM>,
    fuel: nat,
    io: IoM,
) -> (IoM, Result<Seq<ValueM>, Fault>)
    decreases fuel, 0int, es,
{
    if es.len() == 0 {
        (io, Ok(Seq::empty()))
    } else {
        let (o1, r) = eval_list(hosts, us, scope, args, es.subrange(0, es.len() - 1), fuel, io);
        match r {
            Err(x) => (o1, Err(x)),
            Ok(vs) => {
                let (o2, rv) = eval(hosts, us, scope, args, es[es.len() - 1], fuel, o1);
                match rv {
                    Err(x) => (o2, Err(x)),
                    Ok(v) => (o2, Ok(vs.push(v))),
                }
            },
        }
    }
}

/// Running unit `i`, in its own scope: the statements of its first block,
/// then its terminator.
pub open spec fn run_unit(
    hosts: Seq<SigM>,
    us: Seq<UnitM>,
    i: int,
    args: Seq<ValueM>,
    fuel: nat,
    io: IoM,
) -> (IoM, Result<ValueM, Fault>)
    decreases fuel, 1int, args,
{
    if 0 <= i < us.len() && us[i].blocks.len() > 0 {
        let b = us[i].blocks[0];
        let scope = us[i].scope;
        match b.terminator {
            None => (io, Err(Fault::MissingBody)),
            Some(t) => {
                let (o1, r) = eval_list(hosts, us, scope, args, b.statements, fuel, io);
                match r {
                    Err(x) => (o1, Err(x)),
                    Ok(_) => eval(hosts, us, scope, args, t, fuel, o1),
                }
            },
        }
    } else {
        (io, Err(Fault::MissingBody))
    }
}

} // verus!

verus! {

pub open spec fn value_result(r: Result<Value, Fault>) -> Result<ValueM, Fault> {
    match r {
        Ok(v) => Ok(v@),
        Err(x) => Err(x),
    }
}

pub open spec fn values_result(r: Result<Vec<Value>, Fault>) -> Result<Seq<ValueM>, Fault> {
    match r {
        Ok(v) => Ok(values_model(v@)),
        Err(x) => Err(x),
    }
}

pub proof fn lemma_values_model_push(s: Seq<Value>, v: Value)
    ensures
        values_model(s.push(v)) == values_model(s).push(v@),
{
    assert(s.push(v).subrange(0, s.len() as int) =~= s);
}

/// Copies a value.
pub fn copy_value(v: &Value) -> (r: Value)
    ensures
        r@ == v@,
    decreases v, 0int,
{
    match v {
        Value::Integer(i) => Value::Integer(*i),
        Value::Size(n) => Value::Size(*n),
        Value::Boolean(b) => Value::Boolean(*b),
        Value::Str(s) => Value::Str(copy_bytes(s)),
        Value::Array(vs) => Value::Array(copy_values(vs)),
        Value::Handle(e) => Value::Handle(copy_expr(e)),
        Value::Function(i) => Value::Function(*i),
        Value::Host(j) => Value::Host(*j),
        Value::Void => Value::Void,
    }
}

/// Copies a sequence of values.
pub fn copy_values(vs: &Vec<Value>) -> (r: Vec<Value>)
    ensures
        values_model(r@) == values_model(vs@),
    decreases vs, 1int,
{
    let mut r: Vec<Value> = Vec::new();
    let mut i: usize = 0;
    while i < vs.len()
        invariant
            i <= vs.len(),
            values_model(r@) == values_model(vs@.subrange(0, i as int)),
        decreases vs.len() - i,
    {
        let c = copy_value(&vs[i]);
        proof {
            lemma_values_model_push(r@, c);
            assert(vs@.subrange(0, i + 1) =~= vs@.subrange(0, i as int).push(vs@[i as int]));
            lemma_values_model_push(vs@.subrange(0, i as int), vs@[i as int]);
        }
        r.push(c);
        i += 1;
    }
    assert(vs@.subrange(0, vs@.len() as int) =~= vs@);
    r
}

pub proof fn lemma_values_model_index(s: Seq<Value>, i: int)
    requires
        0 <= i < s.len(),
    ensures
        values_model(s).len() == s.len(),
        values_model(s)[i] == s[i]@,
    decreases s.len(),
{
    let p = s.subrange(0, s.len() - 1);
    lemma_values_model_len(p);
    if i < s.len() - 1 {
        lemma_values_model_index(p, i);
    }
}

pub proof fn lemma_values_model_len(s: Seq<Value>)
    ensures
        values_model(s).len() == s.len(),
    decreases s.len(),
{
    if s.len() > 0 {
        lemma_values_model_len(s.subrange(0, s.len() - 1));
    }
}

/// Appends bytes to the output.
fn emit(out: &mut Vec<u8>, b: &Vec<u8>)
    ensures
        final(out)@ == old(out)@ + b@,
{
    let mut i: usize = 0;
    while i < b.len()
        invariant
            i <= b.len(),
            out@ == old(out)@ + b@.subrange(0, i as int),
        decreases b.len() - i,
    {
        out.push(b[i]);
        i += 1;
        assert(out@ =~= old(out)@ + b@.subrange(0, i as int));
    }
    assert(b@.subrange(0, i as int) =~= b@);
}

/// A fault in a prefix is the outcome of the whole sequence.
pub proof fn lemma_eval_list_prefix_err(
    hosts: Seq<SigM>,
    us: Seq<UnitM>,
    scope: nat,
    args: Seq<ValueM>,
    es: Seq<ExprM>,
    fuel: nat,
    io: IoM,
    k: int,
)
    requires
        0 <= k <= es.len(),
        eval_list(hosts, us, scope, args, es.subrange(0, k), fuel, io).1 is Err,
    ensures
        eval_list(hosts, us, scope, args, es, fuel, io) == eval_list(
            hosts,
            us,
            scope,
            args,
            es.subrange(0, k),
            fuel,
            io,
        ),
    decreases es.len(),
{
    if k < es.len() {
        let p = es.subrange(0, es.len() - 1);
        assert(p.subrange(0, k) =~= es.subrange(0, k));
        lemma_eval_list_prefix_err(hosts, us, scope, args, p, fuel, io, k);
    } else {
        assert(es.subrange(0, k) =~= es);
    }
}

/// The names visible in scope `scope`, as `scope_env` gives them.
pub fn scope_sigs(hosts: &Vec<Sig>, units: &Vec<Unit>, scope: usize) -> (r: Vec<Sig>)
    ensures
        sigs_model(r@) == scope_env(sigs_model(hosts@), units_model(units@), scope as nat),
{
    let n = if scope <= units.len() {
        scope
    } else {
        units.len()
    };
    let mut r: Vec<Sig> = Vec::new();
    let mut i: usize = 0;
    while i < hosts.len()
        invariant
            i <= hosts.len(),
            sigs_model(r@) == sigs_model(hosts@).subrange(0, i as int),
        decreases hosts.len() - i,
    {
        let g = copy_sig(&hosts[i]);
        let ghost prev = r@;
        r.push(g);
        proof {
            assert(r@ == prev.push(g));
            assert(sigs_model(r@) =~= sigs_model(prev).push(g@));
        }
        i += 1;
        assert(sigs_model(r@) =~= sigs_model(hosts@).subrange(0, i as int));
    }
    let ghost h = sigs_model(hosts@);
    let ghost um = module_env(units_model(units@).subrange(0, n as int));
    assert(h.subrange(0, i as int) =~= h);
    let mut k: usize = 0;
    while k < n
        invariant
            k <= n <= units.len(),
            h == sigs_model(hosts@),
            um == module_env(units_model(units@).subrange(0, n as int)),
            sigs_model(r@) == h + um.subrange(0, k as int),
        decreases n - k,
    {
        let g = copy_sig(&units[k].sig);
        let ghost prev = r@;
        r.push(g);
        proof {
            assert(r@ == prev.push(g));
            assert(sigs_model(r@) =~= sigs_model(prev).push(g@));
            assert(units_model(units@)[k as int] == units@[k as int]@);
        }
        k += 1;
        assert(sigs_model(r@) =~= h + um.subrange(0, k as int));
    }
    assert(um.subrange(0, k as int) =~= um);
    r
}

} // verus!

verus! {

fn add_value(a: Value, b: Value) -> (r: Result<Value, Fault>)
    ensures
        value_result(r) == add_values(a@, b@),
{
    match (a, b) {
        (Value::Integer(x), Value::Integer(y)) => Ok(Value::Integer(x.wrapping_add(y))),
        (Value::Size(x), Value::Size(y)) => Ok(Value::Size(x.wrapping_add(y))),
        _ => Err(Fault::BadOperand),
    }
}

/// Runs an expression; computes `eval`.
fn eval_expr(
    hosts: &Vec<Sig>,
    units: &Vec<Unit>,
    env: &Vec<Sig>,
    scope: usize,
    args: &Vec<Value>,
    e: &Expr,
    fuel: usize,
    io: &mut Io,
) -> (r: Result<Value, Fault>)
    requires
        sigs_model(env@) == scope_env(sigs_model(hosts@), units_model(units@), scope as nat),
    ensures
        (final(io)@, value_result(r)) == eval(
            sigs_model(hosts@),
            units_model(units@),
            scope as nat,
            values_model(args@),
            e@,
            fuel as nat,
            old(io)@,
        ),
    decreases fuel, 0int, e, 0int,
{
    let ghost hs = sigs_model(hosts@);
    let ghost us = units_model(units@);
    let ghost a = values_model(args@);
    match e {
        Expr::Integer(i) => Ok(Value::Integer(*i)),
        Expr::Size(n) => Ok(Value::Size(*n)),
        Expr::Boolean(b) => Ok(Value::Boolean(*b)),
        Expr::Str(s) => Ok(Value::Str(copy_bytes(s))),
        Expr::Parameter(i) => {
            proof {
                lemma_values_model_len(args@);
            }
            if *i < args.len() {
                proof {
                    lemma_values_model_index(args@, *i as int);
                }
                Ok(copy_value(&args[*i]))
            } else {
                Err(Fault::BadParameter)
            }
        },
        Expr::BinaryAdd(l, r) => {
            let vl = eval_expr(hosts, units, env, scope, args, l, fuel, io)?;
            let vr = eval_expr(hosts, units, env, scope, args, r, fuel, io)?;
            add_value(vl, vr)
        },
        Expr::Print(o) => {
            let v = eval_expr(hosts, units, env, scope, args, o, fuel, io)?;
            match v {
                Value::Str(b) => {
                    emit(&mut io.out, &b);
                    Ok(Value::Void)
                },
                _ => Err(Fault::BadOperand),
            }
        },
        Expr::Array(_, es) => {
            let vs = eval_exprs(hosts, units, env, scope, args, es, fuel, io)?;
            Ok(Value::Array(vs))
        },
        Expr::FunctionRef(n, _, _, _) => {
            proof {
                crate::typing::lemma_lookup_bounds(scope_env(hs, us, scope as nat), n@);
                crate::typing::lemma_lookup_bounds(sigs_model(env@), n@);
            }
            match find_function(env, n) {
                Some(i) => {
                    if i < hosts.len() {
                        Ok(Value::Host(i))
                    } else {
                        Ok(Value::Function(i - hosts.len()))
                    }
                },
                None => Err(Fault::Unresolved),
            }
        },
        Expr::Call(c, ret, fps, _, a) => {
            let vc = eval_expr(hosts, units, env, scope, args, c, fuel, io)?;
            let vs = eval_exprs(hosts, units, env, scope, args, a, fuel, io)?;
            match vc {
                Value::Function(i) => {
                    if fuel == 0 {
                        Err(Fault::DepthExceeded)
                    } else if i < units.len() {
                        run_unit_exec(hosts, units, i, &vs, fuel - 1, io)
                    } else {
                        Err(Fault::BadCallee)
                    }
                },
                Value::Host(j) => {
                    proof {
                        lemma_values_model_len(io.answers@);
                    }
                    if io.used < io.answers.len() {
                        proof {
                            lemma_values_model_index(io.answers@, io.used as int);
                        }
                        let v = copy_value(&io.answers[io.used]);
                        io.used = io.used + 1;
                        Ok(v)
                    } else {
                        io.pending = Some((j, vs));
                        Err(Fault::Suspended)
                    }
                },
                Value::Handle(h) => {
                    if fuel == 0 {
                        Err(Fault::DepthExceeded)
                    } else {
                        match check_expr(env, fps, &h) {
                            Err(x) => Err(Fault::Compile(x)),
                            Ok(t) => {
                                if t == *ret {
                                    eval_expr(hosts, units, env, scope, &vs, &h, fuel - 1, io)
                                } else {
                                    Err(Fault::Compile(CompileError::TypeMismatch))
                                }
                            },
                        }
                    }
                },
                _ => Err(Fault::BadCallee),
            }
        },
        Expr::Constructor(i) => Ok(Value::Handle(copy_expr(i))),
    }
}

/// Runs a sequence of expressions; computes `eval_list`.
fn eval_exprs(
    hosts: &Vec<Sig>,
    units: &Vec<Unit>,
    env: &Vec<Sig>,
    scope: usize,
    args: &Vec<Value>,
    es: &Vec<Expr>,
    fuel: usize,
    io: &mut Io,
) -> (r: Result<Vec<Value>, Fault>)
    requires
        sigs_model(env@) == scope_env(sigs_model(hosts@), units_model(units@), scope as nat),
    ensures
        (final(io)@, values_result(r)) == eval_list(
            sigs_model(hosts@),
            units_model(units@),
            scope as nat,
            values_model(args@),
            exprs_model(es@),
            fuel as nat,
            old(io)@,
        ),
    decreases fuel, 0int, es, 1int,
{
    let ghost hs = sigs_model(hosts@);
    let ghost us = units_model(units@);
    let ghost a = values_model(args@);
    let ghost io0 = io@;
    let mut acc: Vec<Value> = Vec::new();
    let mut i: usize = 0;
    proof {
        assert(values_model(acc@) =~= Seq::<ValueM>::empty());
        assert(es@.subrange(0, 0) =~= Seq::<Expr>::empty());
    }
    while i < es.len()
        invariant
            i <= es.len(),
            sigs_model(env@) == scope_env(hs, us, scope as nat),
            hs == sigs_model(hosts@),
            us == units_model(units@),
            a == values_model(args@),
            io0 == old(io)@,
            eval_list(hs, us, scope as nat, a, exprs_model(es@.subrange(0, i as int)), fuel as nat, io0)
                == (io@, Ok::<Seq<ValueM>, Fault>(values_model(acc@))),
        decreases es.len() - i,
    {
        proof {
            crate::typing::lemma_exprs_model_push(es@, i as int);
            crate::ir::lemma_exprs_model_len(es@.subrange(0, i as int));
            let pm = exprs_model(es@.subrange(0, i as int));
            assert(pm.push(es@[i as int]@).subrange(0, i as int) =~= pm);
        }
        let ghost io_i = io@;
        let v = eval_expr(hosts, units, env, scope, args, &es[i], fuel, io);
        proof {
            assert(eval(hs, us, scope as nat, a, es@[i as int]@, fuel as nat, io_i) == (
                io@,
                value_result(v),
            ));
        }
        match v {
            Ok(v) => {
                proof {
                    lemma_values_model_push(acc@, v);
                }
                acc.push(v);
            },
            Err(x) => {
                proof {
                    crate::ir::lemma_exprs_model_len(es@);
                    crate::typing::lemma_exprs_model_prefix(es@, i as int + 1);
                    let pm = exprs_model(es@.subrange(0, i as int));
                    assert(exprs_model(es@.subrange(0, i + 1)) == pm.push(es@[i as int]@));
                    assert(eval_list(
                        hs,
                        us,
                        scope as nat,
                        a,
                        exprs_model(es@.subrange(0, i + 1)),
                        fuel as nat,
                        io0,
                    ) == (io@, Err::<Seq<ValueM>, Fault>(x)));
                    lemma_eval_list_prefix_err(
                        hs,
                        us,
                        scope as nat,
                        a,
                        exprs_model(es@),
                        fuel as nat,
                        io0,
                        i as int + 1,
                    );
                }
                return Err(x);
            },
        }
        i += 1;
    }
    proof {
        crate::typing::lemma_exprs_model_full(es@);
    }
    Ok(acc)
}

/// Runs unit `i`; computes `run_unit`.
fn run_unit_exec(
    hosts: &Vec<Sig>,
    units: &Vec<Unit>,
    i: usize,
    args: &Vec<Value>,
    fuel: usize,
    io: &mut Io,
) -> (r: Result<Value, Fault>)
    requires
        i < units@.len(),
    ensures
        (final(io)@, value_result(r)) == run_unit(
            sigs_model(hosts@),
            units_model(units@),
            i as int,
            values_model(args@),
            fuel as nat,
            old(io)@,
        ),
    decreases fuel, 1int, args, 0int,
{
    let u = &units[i];
    if u.blocks.len() == 0 {
        return Err(Fault::MissingBody);
    }
    let b = &u.blocks[0];
    match &b.terminator {
        None => Err(Fault::MissingBody),
        Some(t) => {
            let env = scope_sigs(hosts, units, u.scope);
            let _ = eval_exprs(hosts, units, &env, u.scope, args, &b.statements, fuel, io)?;
            eval_expr(hosts, units, &env, u.scope, args, t, fuel, io)
        },
    }
}

} // verus!

verus! {

/// The first error among the items of `s` under `f`, in order.
pub open spec fn first_err<A>(s: Seq<A>, f: spec_fn(A) -> Result<(), CompileError>) -> Result<
    (),
    CompileError,
>
    decreases s.len(),
{
    if s.len() == 0 {
        Ok(())
    } else {
        match first_err(s.subrange(0, s.len() - 1), f) {
            Err(x) => Err(x),
            Ok(_) => f(s[s.len() - 1]),
        }
    }
}

pub proof fn lemma_first_err_prefix<A>(s: Seq<A>, f: spec_fn(A) -> Result<(), CompileError>, k: int)
    requires
        0 <= k <= s.len(),
        first_err(s.subrange(0, k), f) is Err,
    ensures
        first_err(s, f) == first_err(s.subrange(0, k), f),
    decreases s.len(),
{
    if k < s.len() {
        let p = s.subrange(0, s.len() - 1);
        assert(p.subrange(0, k) =~= s.subrange(0, k));
        lemma_first_err_prefix(p, f, k);
    } else {
        assert(s.subrange(0, k) =~= s);
    }
}

pub proof fn lemma_first_err_push<A>(s: Seq<A>, f: spec_fn(A) -> Result<(), CompileError>, i: int)
    requires
        0 <= i < s.len(),
        first_err(s.subrange(0, i), f) is Ok,
    ensures
        first_err(s.subrange(0, i + 1), f) == f(s[i]),
{
    assert(s.subrange(0, i + 1).subrange(0, i) =~= s.subrange(0, i));
}

/// A block compiles when it has a terminator of the function's return type
/// and all its statements are well typed.
pub open spec fn check_block(env: Seq<SigM>, ret: Type, ps: Seq<Type>, b: BlockM) -> Result<
    (),
    CompileError,
> {
    match b.terminator {
        None => Err(CompileError::MissingTerminator),
        Some(t) => match types_of(env, ps, b.statements) {
            Err(x) => Err(x),
            Ok(_) => match type_of(env, ps, t) {
                Err(x) => Err(x),
                Ok(ty) => if ty == ret {
                    Ok(())
                } else {
                    Err(CompileError::TypeMismatch)
                },
            },
        },
    }
}

/// A unit compiles when it has at least one block and every block compiles.
pub open spec fn check_unit(env: Seq<SigM>, u: UnitM) -> Result<(), CompileError> {
    if u.blocks.len() == 0 {
        Err(CompileError::MissingTerminator)
    } else {
        first_err(u.blocks, block_checker(env, u.sig.ret, u.sig.params))
    }
}

pub open spec fn block_checker(env: Seq<SigM>, ret: Type, ps: Seq<Type>) -> spec_fn(BlockM) -> Result<
    (),
    CompileError,
> {
    |b: BlockM| check_block(env, ret, ps, b)
}

pub open spec fn unit_checker(env: Seq<SigM>) -> spec_fn(UnitM) -> Result<(), CompileError> {
    |u: UnitM| check_unit(env, u)
}

/// The unit that `compile_expression` makes of an expression, as unit
/// number `scope`: it sees the units before it.
pub open spec fn expr_unit(e: ExprM, ret: Type, ps: Seq<Type>, scope: nat) -> UnitM {
    UnitM {
        sig: SigM { name: None, ret, params: ps, variadic: false },
        blocks: seq![BlockM { statements: Seq::empty(), terminator: Some(e) }],
        scope,
    }
}

/// The units that a context's functions become; each sees the units before
/// the context and all of the context's own, `scope` in all.
pub open spec fn context_units(fs: Seq<crate::context::FunctionM>, scope: nat) -> Seq<UnitM> {
    fs.map_values(
        |f: crate::context::FunctionM|
            UnitM {
                sig: SigM {
                    name: Some(f.name),
                    ret: f.return_type,
                    params: f.param_types,
                    variadic: false,
                },
                blocks: f.blocks,
                scope,
            },
    )
}

/// The outcome of compiling `e` with signature (`ret`, `ps`) into module `us`
/// with host symbols `hosts`.
pub open spec fn compile_expression_result(
    hosts: Seq<SigM>,
    us: Seq<UnitM>,
    e: ExprM,
    ret: Type,
    ps: Seq<Type>,
) -> Result<usize, CompileError> {
    match type_of(hosts + module_env(us), ps, e) {
        Err(x) => Err(x),
        Ok(t) => if t == ret {
            Ok(us.len() as usize)
        } else {
            Err(CompileError::TypeMismatch)
        },
    }
}

/// The outcome of compiling all functions `fs` of a context into module `us`,
/// with host symbols `hosts`, and asking for the one called `name`. Names
/// resolve to the context's own functions first, then to units compiled
/// before, then to host symbols.
pub open spec fn compile_result(
    hosts: Seq<SigM>,
    us: Seq<UnitM>,
    fs: Seq<crate::context::FunctionM>,
    name: Seq<u8>,
) -> Result<usize, CompileError> {
    let cu = context_units(fs, us.len() + fs.len());
    let env = hosts + module_env(us + cu);
    match first_err(cu, unit_checker(env)) {
        Err(x) => Err(x),
        Ok(_) => match lookup(module_env(cu), name) {
            None => Err(CompileError::UnresolvedSymbol),
            Some(j) => Ok((us.len() + j) as usize),
        },
    }
}

/// Misuse of the runtime's lifecycle.
#[derive(Clone, Copy, Debug, PartialEq, Eq, Structural)]
pub enum UsageError {
    AlreadyInitialized,
    /// A host symbol of that name is registered already.
    DuplicateHost,
}

/// The runtime: its module of compiled units, which only grows, and the host
/// functions that compiled code may call. Entry points are indices into the
/// module.
#[derive(Debug)]
pub struct Runtime {
    pub initialized: bool,
    pub hosts: Vec<Sig>,
    pub units: Vec<Unit>,
}

pub struct RuntimeM {
    pub initialized: bool,
    pub hosts: Seq<SigM>,
    pub units: Seq<UnitM>,
}

impl View for Runtime {
    type V = RuntimeM;

    open spec fn view(&self) -> RuntimeM {
        RuntimeM {
            initialized: self.initialized,
            hosts: sigs_model(self.hosts@),
            units: units_model(self.units@),
        }
    }
}

} // verus!

verus! {

fn check_block_exec(env: &Vec<Sig>, ret: Type, ps: &Vec<Type>, b: &Block) -> (r: Result<
    (),
    CompileError,
>)
    ensures
        r == check_block(sigs_model(env@), ret, ps@, b@),
{
    match &b.terminator {
        None => Err(CompileError::MissingTerminator),
        Some(t) => {
            let _ = crate::typing::check_exprs(env, ps, &b.statements)?;
            let ty = check_expr(env, ps, t)?;
            if ty == ret {
                Ok(())
            } else {
                Err(CompileError::TypeMismatch)
            }
        },
    }
}

/// Computes `check_unit` for a unit of signature (`ret`, `ps`).
fn check_unit_exec(env: &Vec<Sig>, ret: Type, ps: &Vec<Type>, blocks: &Vec<Block>) -> (r: Result<
    (),
    CompileError,
>)
    ensures
        blocks@.len() == 0 ==> r == Err::<(), CompileError>(CompileError::MissingTerminator),
        blocks@.len() > 0 ==> r == first_err(
            blocks_model(blocks@),
            block_checker(sigs_model(env@), ret, ps@),
        ),
{
    if blocks.len() == 0 {
        return Err(CompileError::MissingTerminator);
    }
    let ghost bm = blocks_model(blocks@);
    let ghost f = block_checker(sigs_model(env@), ret, ps@);
    let mut i: usize = 0;
    while i < blocks.len()
        invariant
            i <= blocks.len(),
            bm == blocks_model(blocks@),
            f == block_checker(sigs_model(env@), ret, ps@),
            first_err(bm.subrange(0, i as int), f) is Ok,
        decreases blocks.len() - i,
    {
        proof {
            lemma_first_err_push(bm, f, i as int);
        }
        let c = check_block_exec(env, ret, ps, &blocks[i]);
        if c.is_err() {
            proof {
                lemma_first_err_prefix(bm, f, i as int + 1);
            }
            return c;
        }
        i += 1;
    }
    assert(bm.subrange(0, i as int) =~= bm);
    Ok(())
}

impl Runtime {
    /// A runtime that is not initialized yet, with an empty module and no
    /// host symbols.
    pub fn new() -> (r: Runtime)
        ensures
            !r@.initialized,
            r@.hosts.len() == 0,
            r@.units.len() == 0,
    {
        Runtime { initialized: false, hosts: Vec::new(), units: Vec::new() }
    }

    /// Sets up the code target; a second call is refused.
    pub fn initialize_jit(&mut self) -> (r: Result<(), UsageError>)
        ensures
            !old(self)@.initialized <==> r is Ok,
            final(self)@.initialized,
            final(self)@.hosts == old(self)@.hosts,
            final(self)@.units == old(self)@.units,
            r is Err ==> r->Err_0 == UsageError::AlreadyInitialized,
    {
        if self.initialized {
            return Err(UsageError::AlreadyInitialized);
        }
        self.initialized = true;
        Ok(())
    }

    /// Declares a function of the host program that compiled code may call
    /// by name, and returns its index among the host symbols. A name can be
    /// declared once.
    pub fn register_host(
        &mut self,
        name: Vec<u8>,
        return_type: Type,
        param_types: Vec<Type>,
        is_variadic: bool,
    ) -> (r: Result<usize, UsageError>)
        ensures
            lookup(old(self)@.hosts, name@) is None <==> r is Ok,
            r is Ok ==> r->Ok_0 == old(self)@.hosts.len() && final(self)@ == (RuntimeM {
                hosts: old(self)@.hosts.push(
                    SigM {
                        name: Some(name@),
                        ret: return_type,
                        params: param_types@,
                        variadic: is_variadic,
                    },
                ),
                ..old(self)@
            }),
            r is Err ==> final(self)@ == old(self)@ && r->Err_0 == UsageError::DuplicateHost,
    {
        if find_function(&self.hosts, &name).is_some() {
            return Err(UsageError::DuplicateHost);
        }
        let k = self.hosts.len();
        let g = Sig { name: Some(name), ret: return_type, params: param_types, variadic: is_variadic };
        let ghost prev = self.hosts@;
        self.hosts.push(g);
        proof {
            assert(sigs_model(self.hosts@) =~= sigs_model(prev).push(g@));
        }
        Ok(k)
    }

    /// Compiles `expression` as an anonymous unit whose parameters have types
    /// `param_types` and whose result has type `return_type`, adds it to the
    /// module and returns its entry point. Names resolve to compiled units,
    /// the latest first, then to host symbols. On an error the runtime is
    /// unchanged.
    pub fn compile_expression(
        &mut self,
        expression: Expr,
        return_type: Type,
        param_types: Vec<Type>,
    ) -> (r: Result<usize, CompileError>)
        requires
            old(self)@.initialized,
        ensures
            r == compile_expression_result(
                old(self)@.hosts,
                old(self)@.units,
                expression@,
                return_type,
                param_types@,
            ),
            final(self)@.initialized,
            final(self)@.hosts == old(self)@.hosts,
            r is Ok ==> final(self)@.units == old(self)@.units.push(
                expr_unit(expression@, return_type, param_types@, old(self)@.units.len()),
            ),
            r is Err ==> final(self)@ == old(self)@,
    {
        let env = scope_sigs(&self.hosts, &self.units, self.units.len());
        proof {
            let us = units_model(self.units@);
            assert(us.subrange(0, us.len() as int) =~= us);
        }
        let t = check_expr(&env, &param_types, &expression)?;
        if t != return_type {
            return Err(CompileError::TypeMismatch);
        }
        let entry = self.units.len();
        let ghost em = expression@;
        let stmts: Vec<Expr> = Vec::new();
        let mut blocks: Vec<Block> = Vec::new();
        blocks.push(Block { statements: stmts, terminator: Some(expression) });
        let ghost ps = param_types@;
        let u = Unit {
            sig: Sig { name: None, ret: return_type, params: param_types, variadic: false },
            blocks,
            scope: entry,
        };
        proof {
            assert(exprs_model(stmts@) =~= Seq::<ExprM>::empty());
            assert(blocks_model(u.blocks@) =~= expr_unit(em, return_type, ps, entry as nat).blocks);
        }
        let ghost prev = self.units@;
        self.units.push(u);
        proof {
            assert(units_model(self.units@) =~= units_model(prev).push(u@));
        }
        Ok(entry)
    }

    /// Runs entry point `entry` with `args`. What it prints is appended to
    /// `io.out`; its host calls take the answers in `io.answers` in order, and
    /// at a host call with no answer left the run stops with `Suspended` and
    /// the call in `io.pending`.
    pub fn invoke(&self, entry: usize, args: &Vec<Value>, io: &mut Io) -> (r: Result<Value, Fault>)
        requires
            self@.initialized,
            entry < self@.units.len(),
        ensures
            (final(io)@, value_result(r)) == run_unit(
                self@.hosts,
                self@.units,
                entry as int,
                values_model(args@),
                CALL_DEPTH as nat,
                old(io)@,
            ),
    {
        run_unit_exec(&self.hosts, &self.units, entry, args, CALL_DEPTH, io)
    }

    /// Continues a run that stopped at a host call: `answer` is what the host
    /// function returned. The run starts over with the earlier answers and
    /// this one, and prints its output again from the start; since a run is a
    /// function of its answers, it reaches the pending call again and goes on
    /// past it.
    pub fn resume(&self, entry: usize, args: &Vec<Value>, io: &mut Io, answer: Value) -> (r: Result<
        Value,
        Fault,
    >)
        requires
            self@.initialized,
            entry < self@.units.len(),
            old(io)@.pending is Some,
        ensures
            (final(io)@, value_result(r)) == run_unit(
                self@.hosts,
                self@.units,
                entry as int,
                values_model(args@),
                CALL_DEPTH as nat,
                fresh_io(old(io)@.answers.push(answer@)),
            ),
    {
        proof {
            lemma_values_model_push(io.answers@, answer);
        }
        io.answers.push(answer);
        io.out = Vec::new();
        io.used = 0;
        io.pending = None;
        let r = self.invoke(entry, args, io);
        r
    }
}

} // verus!

verus! {

/// The signatures of a context's functions.
fn context_sigs(fs: &Vec<crate::context::Function>, scope: usize) -> (r: Vec<Sig>)
    ensures
        sigs_model(r@) == module_env(context_units(crate::context::functions_model(fs@), scope as nat)),
{
    let ghost target = module_env(context_units(crate::context::functions_model(fs@), scope as nat));
    let mut r: Vec<Sig> = Vec::new();
    let mut i: usize = 0;
    while i < fs.len()
        invariant
            i <= fs.len(),
            target == module_env(context_units(crate::context::functions_model(fs@), scope as nat)),
            sigs_model(r@) == target.subrange(0, i as int),
        decreases fs.len() - i,
    {
        let g = Sig {
            name: Some(copy_bytes(&fs[i].name)),
            ret: fs[i].return_type,
            params: copy_types(&fs[i].param_types),
            variadic: false,
        };
        let ghost prev = r@;
        r.push(g);
        proof {
            assert(r@ == prev.push(g));
            assert(sigs_model(r@) =~= sigs_model(prev).push(g@));
        }
        i += 1;
        assert(sigs_model(r@) =~= target.subrange(0, i as int));
    }
    assert(target.subrange(0, i as int) =~= target);
    r
}

/// Appends copies of signatures.
fn append_sigs(env: &mut Vec<Sig>, more: &Vec<Sig>)
    ensures
        sigs_model(final(env)@) == sigs_model(old(env)@) + sigs_model(more@),
{
    let mut i: usize = 0;
    while i < more.len()
        invariant
            i <= more.len(),
            sigs_model(env@) == sigs_model(old(env)@) + sigs_model(more@).subrange(0, i as int),
        decreases more.len() - i,
    {
        let g = copy_sig(&more[i]);
        let ghost prev = env@;
        env.push(g);
        proof {
            assert(env@ == prev.push(g));
            assert(sigs_model(env@) =~= sigs_model(prev).push(g@));
        }
        i += 1;
        assert(sigs_model(env@) =~= sigs_model(old(env)@) + sigs_model(more@).subrange(0, i as int));
    }
    assert(sigs_model(more@).subrange(0, i as int) =~= sigs_model(more@));
}

impl Runtime {
    /// Compiles every function of `context`, resolving references among them
    /// and to units compiled before, adds them to the module in order, and
    /// returns the entry point of the one called `function_name`. On an error
    /// the module is unchanged.
    pub fn compile(&mut self, context: crate::context::Context, function_name: &Vec<u8>) -> (r: Result<
        usize,
        CompileError,
    >)
        requires
            old(self)@.initialized,
            old(self)@.units.len() + context@.functions.len() <= usize::MAX,
        ensures
            r == compile_result(old(self)@.hosts, old(self)@.units, context@.functions, function_name@),
            final(self)@.initialized,
            final(self)@.hosts == old(self)@.hosts,
            r is Ok ==> final(self)@.units == old(self)@.units + context_units(
                context@.functions,
                old(self)@.units.len() + context@.functions.len(),
            ),
            r is Err ==> final(self)@ == old(self)@,
    {
        let ghost us = self@.units;
        let ghost hs = self@.hosts;
        let ghost fm = context@.functions;
        let scope = self.units.len() + context.functions.len();
        let ghost cu = context_units(fm, scope as nat);
        let cenv = context_sigs(&context.functions, scope);
        let mut env = scope_sigs(&self.hosts, &self.units, self.units.len());
        proof {
            assert(us.subrange(0, us.len() as int) =~= us);
        }
        append_sigs(&mut env, &cenv);
        let ghost e = hs + module_env(us + cu);
        proof {
            assert(hs + module_env(us + cu) =~= hs + module_env(us) + module_env(cu));
        }
        let ghost f = unit_checker(e);
        let mut i: usize = 0;
        while i < context.functions.len()
            invariant
                i <= context.functions.len(),
                fm == crate::context::functions_model(context.functions@),
                cu == context_units(fm, scope as nat),
                f == unit_checker(e),
                e == hs + module_env(us + cu),
                hs == self@.hosts,
                scope == us.len() + fm.len(),
                sigs_model(env@) == e,
                first_err(cu.subrange(0, i as int), f) is Ok,
                self.initialized,
                us == units_model(self.units@),
            decreases context.functions.len() - i,
        {
            proof {
                lemma_first_err_push(cu, f, i as int);
                assert(fm[i as int] == context.functions@[i as int]@);
                assert(cu[i as int].blocks == fm[i as int].blocks);
            }
            let c = check_unit_exec(
                &env,
                context.functions[i].return_type,
                &context.functions[i].param_types,
                &context.functions[i].blocks,
            );
            proof {
                let fi = context.functions@[i as int];
                assert(cu[i as int].sig.ret == fi.return_type);
                assert(cu[i as int].sig.params == fi.param_types@);
                assert(f(cu[i as int]) == check_unit(e, cu[i as int]));
                assert(f(cu[i as int]) == c);
            }
            if let Err(x) = c {
                proof {
                    lemma_first_err_prefix(cu, f, i as int + 1);
                }
                return Err(x);
            }
            i += 1;
        }
        proof {
            assert(cu.subrange(0, i as int) =~= cu);
        }
        proof {
            crate::typing::lemma_lookup_bounds(module_env(cu), function_name@);
        }
        let j = match find_function(&cenv, function_name) {
            None => {
                return Err(CompileError::UnresolvedSymbol);
            },
            Some(j) => j,
        };
        let base = self.units.len();
        let mut fs = context.functions;
        let mut k: usize = 0;
        let n = fs.len();
        while fs.len() > 0
            invariant
                k <= n,
                fs@.len() == n - k,
                crate::context::functions_model(fs@) == fm.subrange(k as int, n as int),
                cu == context_units(fm, scope as nat),
                scope == base + n,
                hs == self@.hosts,
                fm.len() == n,
                units_model(self.units@) == us + cu.subrange(0, k as int),
                self.initialized,
            decreases fs.len(),
        {
            let ghost prev_fs = fs@;
            let g = fs.remove(0);
            proof {
                assert(fs@ =~= prev_fs.subrange(1, prev_fs.len() as int));
                assert(crate::context::functions_model(fs@) =~= crate::context::functions_model(
                    prev_fs,
                ).subrange(1, prev_fs.len() as int));
            }
            let u = Unit {
                sig: Sig {
                    name: Some(g.name),
                    ret: g.return_type,
                    params: g.param_types,
                    variadic: false,
                },
                blocks: g.blocks,
                scope,
            };
            proof {
                assert(fm.subrange(k as int, n as int)[0] == g@);
            }
            let ghost prev = self.units@;
            self.units.push(u);
            proof {
                assert(self.units@ == prev.push(u));
                assert(units_model(self.units@) =~= units_model(prev).push(u@));
                assert(crate::context::functions_model(fs@) =~= fm.subrange(k + 1, n as int));
            }
            k += 1;
            proof {
                assert(units_model(self.units@) =~= us + cu.subrange(0, k as int));
            }
        }
        proof {
            assert(cu.subrange(0, n as int) =~= cu);
        }
        Ok(base + j)
    }
}

} // verus!
