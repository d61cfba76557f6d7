//! Laws of the engine, stated over the models and proved.
use vstd::prelude::*;
use crate::ir::{Type, ExprM, reify_n};
use crate::typing::{CompileError, SigM, feasible, type_of, lookup};
use crate::runtime::{
    UnitM, ValueM, Fault, IoM, CALL_DEPTH, run_unit, eval, eval_list, expr_unit, module_env,
    compile_expression_result, fresh_io, scope_env,
};

verus! {

/// Two's-complement wraparound of an integer into 32 bits.
pub open spec fn wrap_i32(n: int) -> int {
    if n > i32::MAX {
        n - 0x1_0000_0000
    } else if n < i32::MIN {
        n + 0x1_0000_0000
    } else {
        n
    }
}

/// Compiling `e` with signature (`ret`, `ps`) into module `us` with host
/// symbols `hosts`, then running the new entry point once with `args`, on a
/// fresh exchange whose host calls get `answers`.
pub open spec fn compile_and_run(
    hosts: Seq<SigM>,
    us: Seq<UnitM>,
    e: ExprM,
    ret: Type,
    ps: Seq<Type>,
    args: Seq<ValueM>,
    answers: Seq<ValueM>,
) -> Option<(IoM, Result<ValueM, Fault>)> {
    match compile_expression_result(hosts, us, e, ret, ps) {
        Err(_) => None,
        Ok(_) => Some(
            run_unit(
                hosts,
                us.push(expr_unit(e, ret, ps, us.len())),
                us.len() as int,
                args,
                CALL_DEPTH as nat,
                fresh_io(answers),
            ),
        ),
    }
}

/// Integer literals add with wraparound: `BinaryAdd(a, b)` compiled with no
/// parameters and an Integer result returns `a + b` wrapped to 32 bits.
pub proof fn law_add_literals(hosts: Seq<SigM>, us: Seq<UnitM>, a: i32, b: i32)
    ensures
        compile_and_run(
            hosts,
            us,
            ExprM::BinaryAdd(Box::new(ExprM::Integer(a)), Box::new(ExprM::Integer(b))),
            Type::Integer,
            Seq::empty(),
            Seq::empty(),
            Seq::empty(),
        ) == Some((fresh_io(Seq::empty()), Ok::<ValueM, Fault>(ValueM::Integer(a.wrapping_add(b))))),
        a.wrapping_add(b) as int == wrap_i32(a + b),
{
    let e = ExprM::BinaryAdd(Box::new(ExprM::Integer(a)), Box::new(ExprM::Integer(b)));
    let u = expr_unit(e, Type::Integer, Seq::empty(), us.len());
    let us2 = us.push(u);
    let io = fresh_io(Seq::empty());
    reveal_with_fuel(eval, 3);
    reveal_with_fuel(type_of, 3);
    assert(us2[us.len() as int] == u);
    assert(eval_list(hosts, us2, us.len(), Seq::empty(), Seq::empty(), CALL_DEPTH as nat, io) == (
        io,
        Ok::<Seq<ValueM>, Fault>(Seq::empty()),
    ));
    assert(eval(hosts, us2, us.len(), Seq::empty(), e, CALL_DEPTH as nat, io) == (
        io,
        Ok::<ValueM, Fault>(ValueM::Integer(a.wrapping_add(b))),
    ));
    assert(u.blocks[0].terminator == Some(e));
}

/// Parameter binding: `BinaryAdd(Parameter(0), Integer(100))` compiled with
/// one Integer parameter returns `x + 100` for every `x` in [-100, 1_000_000].
pub proof fn law_parameter_binding(hosts: Seq<SigM>, us: Seq<UnitM>, x: i32)
    requires
        -100 <= x <= 1_000_000,
    ensures
        compile_and_run(
            hosts,
            us,
            ExprM::BinaryAdd(Box::new(ExprM::Parameter(0)), Box::new(ExprM::Integer(100))),
            Type::Integer,
            seq![Type::Integer],
            seq![ValueM::Integer(x)],
            Seq::empty(),
        ) == Some((fresh_io(Seq::empty()), Ok::<ValueM, Fault>(ValueM::Integer((x + 100) as i32)))),
{
    let e = ExprM::BinaryAdd(Box::new(ExprM::Parameter(0)), Box::new(ExprM::Integer(100)));
    let ps = seq![Type::Integer];
    let u = expr_unit(e, Type::Integer, ps, us.len());
    let us2 = us.push(u);
    let io = fresh_io(Seq::empty());
    reveal_with_fuel(eval, 3);
    reveal_with_fuel(type_of, 3);
    assert(us2[us.len() as int] == u);
    let args = seq![ValueM::Integer(x)];
    assert(eval_list(hosts, us2, us.len(), args, Seq::empty(), CALL_DEPTH as nat, io) == (
        io,
        Ok::<Seq<ValueM>, Fault>(Seq::empty()),
    ));
    assert(ps[0] == Type::Integer);
    assert(args[0] == ValueM::Integer(x));
    assert(type_of(hosts + module_env(us), ps, e) == Ok::<Type, CompileError>(Type::Integer));
    assert(x.wrapping_add(100) == (x + 100) as i32);
    assert(eval(hosts, us2, us.len(), args, e, CALL_DEPTH as nat, io) == (
        io,
        Ok::<ValueM, Fault>(ValueM::Integer((x + 100) as i32)),
    ));
    assert(u.blocks[0].terminator == Some(e));
}

/// Print fidelity: `Print(s)` for a string literal `s`, compiled with a Void
/// result, emits exactly the bytes of `s` on each run, after what was already
/// emitted.
pub proof fn law_print_emits(hosts: Seq<SigM>, us: Seq<UnitM>, s: Seq<u8>, before: IoM)
    ensures
        compile_expression_result(
            hosts,
            us,
            ExprM::Print(Box::new(ExprM::Str(s))),
            Type::Void,
            Seq::empty(),
        ) == Ok::<usize, CompileError>(us.len() as usize),
        run_unit(
            hosts,
            us.push(expr_unit(ExprM::Print(Box::new(ExprM::Str(s))), Type::Void, Seq::empty(), us.len())),
            us.len() as int,
            Seq::empty(),
            CALL_DEPTH as nat,
            before,
        ) == (IoM { out: before.out + s, ..before }, Ok::<ValueM, Fault>(ValueM::Void)),
{
    let e = ExprM::Print(Box::new(ExprM::Str(s)));
    let u = expr_unit(e, Type::Void, Seq::empty(), us.len());
    let us2 = us.push(u);
    reveal_with_fuel(eval, 2);
    reveal_with_fuel(type_of, 2);
    assert(us2[us.len() as int] == u);
    assert(eval_list(hosts, us2, us.len(), Seq::empty(), Seq::empty(), CALL_DEPTH as nat, before) == (
        before,
        Ok::<Seq<ValueM>, Fault>(Seq::empty()),
    ));
    assert(eval(hosts, us2, us.len(), Seq::empty(), ExprM::Str(s), CALL_DEPTH as nat, before) == (
        before,
        Ok::<ValueM, Fault>(ValueM::Str(s)),
    ));
    assert(u.blocks[0].terminator == Some(e));
    assert(u.blocks.len() == 1);
}

/// A call of a host function: `f(x)` for a host symbol `f` of signature
/// (Integer) -> Integer that no unit shadows compiles; a run with no answer
/// stops at the call, recording the symbol and the argument `x`; a run whose
/// answer is `v` returns `v`, having used that one answer.
pub proof fn law_host_call(hosts: Seq<SigM>, us: Seq<UnitM>, f: Seq<u8>, j: int, x: i32, v: ValueM)
    requires
        lookup(hosts + module_env(us), f) == Some(j),
        0 <= j < hosts.len(),
        hosts[j].ret == Type::Integer,
        hosts[j].params == seq![Type::Integer],
        !hosts[j].variadic,
    ensures
        compile_and_run(
            hosts,
            us,
            ExprM::Call(
                Box::new(ExprM::FunctionRef(f, Type::Integer, seq![Type::Integer], false)),
                Type::Integer,
                seq![Type::Integer],
                false,
                seq![ExprM::Integer(x)],
            ),
            Type::Integer,
            Seq::empty(),
            Seq::empty(),
            Seq::empty(),
        ) == Some((
            IoM { pending: Some((j as usize, seq![ValueM::Integer(x)])), ..fresh_io(Seq::empty()) },
            Err::<ValueM, Fault>(Fault::Suspended),
        )),
        compile_and_run(
            hosts,
            us,
            ExprM::Call(
                Box::new(ExprM::FunctionRef(f, Type::Integer, seq![Type::Integer], false)),
                Type::Integer,
                seq![Type::Integer],
                false,
                seq![ExprM::Integer(x)],
            ),
            Type::Integer,
            Seq::empty(),
            Seq::empty(),
            seq![v],
        ) == Some((IoM { used: 1, ..fresh_io(seq![v]) }, Ok::<ValueM, Fault>(v))),
{
    let fr = ExprM::FunctionRef(f, Type::Integer, seq![Type::Integer], false);
    let args = seq![ExprM::Integer(x)];
    let e = ExprM::Call(Box::new(fr), Type::Integer, seq![Type::Integer], false, args);
    let u = expr_unit(e, Type::Integer, Seq::empty(), us.len());
    let us2 = us.push(u);
    let env = hosts + module_env(us);
    assert(scope_env(hosts, us2, us.len()) =~= env) by {
        assert(us2.subrange(0, us.len() as int) =~= us);
    }
    reveal_with_fuel(eval, 2);
    reveal_with_fuel(type_of, 2);
    reveal_with_fuel(crate::typing::types_of, 2);
    reveal_with_fuel(eval_list, 2);
    assert(args.subrange(0, 0) =~= Seq::<ExprM>::empty());
    assert(type_of(env, Seq::empty(), fr) == Ok::<Type, CompileError>(Type::Pointer));
    assert(crate::typing::types_of(env, Seq::empty(), args) == Ok::<Seq<Type>, CompileError>(
        seq![Type::Integer],
    ));
    assert(seq![Type::Integer].subrange(0, 1) =~= seq![Type::Integer]);
    assert(type_of(env, Seq::empty(), e) == Ok::<Type, CompileError>(Type::Integer));
    assert(us2[us.len() as int] == u);
    assert(u.blocks[0].terminator == Some(e));
    let a0 = fresh_io(Seq::empty());
    let a1 = fresh_io(seq![v]);
    assert(eval_list(hosts, us2, us.len(), Seq::empty(), Seq::empty(), CALL_DEPTH as nat, a0) == (
        a0,
        Ok::<Seq<ValueM>, Fault>(Seq::empty()),
    ));
    assert(eval_list(hosts, us2, us.len(), Seq::empty(), Seq::empty(), CALL_DEPTH as nat, a1) == (
        a1,
        Ok::<Seq<ValueM>, Fault>(Seq::empty()),
    ));
    assert(eval(hosts, us2, us.len(), Seq::empty(), fr, CALL_DEPTH as nat, a0) == (
        a0,
        Ok::<ValueM, Fault>(ValueM::Host(j as usize)),
    ));
    assert(eval(hosts, us2, us.len(), Seq::empty(), fr, CALL_DEPTH as nat, a1) == (
        a1,
        Ok::<ValueM, Fault>(ValueM::Host(j as usize)),
    ));
    assert(eval_list(hosts, us2, us.len(), Seq::empty(), args, CALL_DEPTH as nat, a0) == (
        a0,
        Ok::<Seq<ValueM>, Fault>(seq![ValueM::Integer(x)]),
    ));
    assert(eval_list(hosts, us2, us.len(), Seq::empty(), args, CALL_DEPTH as nat, a1) == (
        a1,
        Ok::<Seq<ValueM>, Fault>(seq![ValueM::Integer(x)]),
    ));
}

/// Type-mismatch isolation: compiling an expression whose type differs from
/// the declared result type fails with TypeMismatch. (On any error the
/// runtime is left as it was, so earlier entry points run as before.)
pub proof fn law_type_mismatch(hosts: Seq<SigM>, us: Seq<UnitM>, e: ExprM, ret: Type, ps: Seq<Type>)
    requires
        type_of(hosts + module_env(us), ps, e) is Ok,
        type_of(hosts + module_env(us), ps, e)->Ok_0 != ret,
    ensures
        compile_expression_result(hosts, us, e, ret, ps) == Err::<usize, CompileError>(
            CompileError::TypeMismatch,
        ),
{
}

/// Running `k` stages: compile `e` with a Pointer result and no parameters,
/// run it, and go on with the expression that the returned handle holds.
pub open spec fn peel(hosts: Seq<SigM>, us: Seq<UnitM>, e: ExprM, k: nat) -> Option<ExprM>
    decreases k,
{
    if k == 0 {
        Some(e)
    } else {
        match compile_and_run(hosts, us, e, Type::Pointer, Seq::empty(), Seq::empty(), Seq::empty()) {
            Some((_, Ok(ValueM::Handle(h)))) => peel(
                hosts,
                us.push(expr_unit(e, Type::Pointer, Seq::empty(), us.len())),
                h,
                (k - 1) as nat,
            ),
            _ => None,
        }
    }
}

pub proof fn lemma_reify_feasible(e: ExprM, k: nat)
    ensures
        feasible(reify_n(e, k)) == feasible(e),
    decreases k,
{
    if k > 0 {
        lemma_reify_feasible(e, (k - 1) as nat);
    }
}

/// Convergence: for a feasible `e`, each of `k` compile-and-run stages of
/// `reify^k(e)` peels exactly one layer without calling the host, and what
/// remains is `e` itself, so compiling and running it is compiling and
/// running `e`.
pub proof fn law_convergence(hosts: Seq<SigM>, us: Seq<UnitM>, e: ExprM, k: nat)
    requires
        feasible(e),
    ensures
        peel(hosts, us, reify_n(e, k), k) == Some(e),
    decreases k,
{
    if k > 0 {
        let r = reify_n(e, k);
        let inner = reify_n(e, (k - 1) as nat);
        lemma_reify_feasible(e, (k - 1) as nat);
        let u = expr_unit(r, Type::Pointer, Seq::empty(), us.len());
        let us2 = us.push(u);
        let io = fresh_io(Seq::empty());
        assert(us2[us.len() as int] == u);
        assert(eval_list(hosts, us2, us.len(), Seq::empty(), Seq::empty(), CALL_DEPTH as nat, io) == (
            io,
            Ok::<Seq<ValueM>, Fault>(Seq::empty()),
        ));
        assert(compile_and_run(hosts, us, r, Type::Pointer, Seq::empty(), Seq::empty(), Seq::empty())
            == Some((io, Ok::<ValueM, Fault>(ValueM::Handle(inner)))));
        law_convergence(hosts, us2, e, (k - 1) as nat);
    }
}

} // verus!
