use staged_jit::context::{create_context, delete_context, Context};
use staged_jit::ir::{
    add_integer, array, boolean, call, debug_print, function, integer, parameter, print, size,
    string, to_constructor, BuildError, Expr, Type,
};
use staged_jit::runtime::{Fault, Io, Runtime, UsageError, Value, CALL_DEPTH};
use staged_jit::typing::CompileError;

fn runtime() -> Runtime {
    let mut rt = Runtime::new();
    rt.initialize_jit().unwrap();
    rt
}

fn name(s: &str) -> Vec<u8> {
    s.as_bytes().to_vec()
}

fn run(rt: &Runtime, entry: usize, args: Vec<Value>) -> (Result<Value, Fault>, Vec<u8>) {
    let mut io = Io::new();
    let r = rt.invoke(entry, &args, &mut io);
    (r, io.out)
}

/// Runs `entry`, performing its host calls with `host`; returns the result,
/// the output and the host calls made, in order.
fn drive(
    rt: &Runtime,
    entry: usize,
    args: Vec<Value>,
    host: fn(&[u8], &[Value]) -> Value,
) -> (Result<Value, Fault>, Vec<u8>, Vec<(Vec<u8>, Vec<Value>)>) {
    let mut io = Io::new();
    let mut calls = Vec::new();
    let mut r = rt.invoke(entry, &args, &mut io);
    while r == Err(Fault::Suspended) {
        let (j, call_args) = io.pending.take().unwrap();
        let name = rt.hosts[j].name.clone().unwrap();
        let answer = host(&name, &call_args);
        calls.push((name, call_args));
        io.pending = Some((j, Vec::new()));
        r = rt.resume(entry, &args, &mut io, answer);
    }
    (r, io.out, calls)
}

fn add_100_host(name: &[u8], args: &[Value]) -> Value {
    assert_eq!(name, b"add_100");
    match args {
        [Value::Integer(x)] => Value::Integer(x + 100),
        _ => panic!("bad arguments"),
    }
}

fn host_runtime() -> Runtime {
    let mut rt = runtime();
    rt.register_host(name("add_100"), Type::Integer, vec![Type::Integer], false).unwrap();
    rt
}

fn add_100_call(arg: Expr) -> Expr {
    call_of(fref("add_100", Type::Integer, vec![Type::Integer]), Type::Integer, vec![Type::Integer], vec![arg])
}

fn fref(n: &str, ret: Type, params: Vec<Type>) -> Expr {
    let k = params.len();
    function(name(n), ret, k, params, false).unwrap()
}

fn call_of(callee: Expr, ret: Type, params: Vec<Type>, args: Vec<Expr>) -> Expr {
    let k = params.len();
    call(callee, ret, k, params, false, args).unwrap()
}

fn add_fn(ctx: &mut Context, n: &str, ret: Type, params: Vec<Type>, blocks: usize) {
    let k = params.len();
    ctx.add_function(name(n), ret, k, params, blocks).unwrap();
}

#[test]
fn add_literals_returns_sum() {
    let mut rt = runtime();
    let e = rt.compile_expression(add_integer(integer(2), integer(3)), Type::Integer, vec![]).unwrap();
    assert_eq!(run(&rt, e, vec![]).0, Ok(Value::Integer(5)));
    let e = rt.compile_expression(add_integer(integer(-7), integer(4)), Type::Integer, vec![]).unwrap();
    assert_eq!(run(&rt, e, vec![]).0, Ok(Value::Integer(-3)));
}

#[test]
fn add_literals_wraps_around() {
    let mut rt = runtime();
    let e = rt
        .compile_expression(add_integer(integer(i32::MAX), integer(1)), Type::Integer, vec![])
        .unwrap();
    assert_eq!(run(&rt, e, vec![]).0, Ok(Value::Integer(i32::MIN)));
    let e = rt
        .compile_expression(add_integer(integer(i32::MIN), integer(-1)), Type::Integer, vec![])
        .unwrap();
    assert_eq!(run(&rt, e, vec![]).0, Ok(Value::Integer(i32::MAX)));
}

#[test]
fn add_sizes() {
    let mut rt = runtime();
    let e = rt.compile_expression(add_integer(size(40), size(2)), Type::Size, vec![]).unwrap();
    assert_eq!(run(&rt, e, vec![]).0, Ok(Value::Size(42)));
}

fn sample() -> Expr {
    add_integer(integer(1), integer(2))
}

#[test]
fn convergence_of_reification() {
    for k in 0..4usize {
        let mut rt = runtime();
        let mut e = sample();
        for _ in 0..k {
            e = to_constructor(e);
        }
        for _ in 0..k {
            let entry = rt.compile_expression(e, Type::Pointer, vec![]).unwrap();
            match run(&rt, entry, vec![]).0 {
                Ok(Value::Handle(h)) => e = h,
                other => panic!("no handle: {:?}", other),
            }
        }
        assert_eq!(e, sample());
        let last = rt.compile_expression(e, Type::Integer, vec![]).unwrap();
        let direct = rt.compile_expression(sample(), Type::Integer, vec![]).unwrap();
        assert_eq!(run(&rt, last, vec![]), run(&rt, direct, vec![]));
        assert_eq!(run(&rt, last, vec![]).0, Ok(Value::Integer(3)));
    }
}

#[test]
fn reified_node_peels_one_layer() {
    let mut rt = runtime();
    let e = rt
        .compile_expression(to_constructor(to_constructor(integer(9))), Type::Pointer, vec![])
        .unwrap();
    assert_eq!(run(&rt, e, vec![]).0, Ok(Value::Handle(to_constructor(integer(9)))));
}

#[test]
fn parameter_binding() {
    let mut rt = runtime();
    let e = rt
        .compile_expression(add_integer(parameter(0), integer(100)), Type::Integer, vec![Type::Integer])
        .unwrap();
    for x in [-100, -1, 0, 5, 999, 1_000_000] {
        assert_eq!(run(&rt, e, vec![Value::Integer(x)]).0, Ok(Value::Integer(x + 100)));
    }
}

#[test]
fn forward_reference_between_functions() {
    let mut rt = runtime();
    let mut ctx = create_context();
    add_fn(&mut ctx, "a", Type::Integer, vec![Type::Integer], 1);
    ctx.set_insert_point(0);
    let body = call_of(
        fref("b", Type::Integer, vec![Type::Integer]),
        Type::Integer,
        vec![Type::Integer],
        vec![add_integer(parameter(0), integer(1))],
    );
    ctx.add_return(body).unwrap();
    add_fn(&mut ctx, "b", Type::Integer, vec![Type::Integer], 1);
    ctx.set_insert_point(0);
    ctx.add_return(add_integer(parameter(0), parameter(0))).unwrap();
    let entry = rt.compile(ctx, &name("a")).unwrap();
    for x in [0, 5, -3, 40] {
        let manual = (x + 1) + (x + 1);
        assert_eq!(run(&rt, entry, vec![Value::Integer(x)]).0, Ok(Value::Integer(manual)));
    }
}

#[test]
fn staged_callee_and_statements() {
    let mut rt = runtime();
    let mut ctx = create_context();
    add_fn(&mut ctx, "0", Type::Integer, vec![Type::Integer], 1);
    ctx.set_insert_point(0);
    let staged = call_of(
        to_constructor(parameter(0)),
        Type::Integer,
        vec![Type::Integer],
        vec![integer(1)],
    );
    ctx.add_return(add_integer(parameter(0), staged)).unwrap();
    add_fn(&mut ctx, "add_100", Type::Integer, vec![Type::Integer], 1);
    ctx.set_insert_point(0);
    ctx.add_expression(print(string(name("adding\n"))));
    ctx.add_return(add_integer(parameter(0), integer(100))).unwrap();
    add_fn(&mut ctx, "main", Type::Integer, vec![], 1);
    ctx.set_insert_point(0);
    let inner = call_of(fref("0", Type::Integer, vec![Type::Integer]), Type::Integer, vec![Type::Integer], vec![integer(10)]);
    let outer = call_of(fref("add_100", Type::Integer, vec![Type::Integer]), Type::Integer, vec![Type::Integer], vec![inner]);
    ctx.add_expression(outer);
    ctx.add_return(integer(42)).unwrap();
    let main = rt.compile(ctx, &name("main")).unwrap();
    let (r, out) = run(&rt, main, vec![]);
    assert_eq!(r, Ok(Value::Integer(42)));
    assert_eq!(out, name("adding\n"));
    assert_eq!(run(&rt, main - 2, vec![Value::Integer(10)]).0, Ok(Value::Integer(11)));
    assert_eq!(run(&rt, main - 1, vec![Value::Integer(11)]).0, Ok(Value::Integer(111)));
}

#[test]
fn print_fidelity() {
    let mut rt = runtime();
    let text = name("Hello, world!\n");
    let e = rt.compile_expression(print(string(text.clone())), Type::Void, vec![]).unwrap();
    let mut io = Io::new();
    assert_eq!(rt.invoke(e, &vec![], &mut io), Ok(Value::Void));
    assert_eq!(io.out, text);
    assert_eq!(rt.invoke(e, &vec![], &mut io), Ok(Value::Void));
    let mut twice = text.clone();
    twice.extend_from_slice(&text);
    assert_eq!(io.out, twice);
}

#[test]
fn debug_print_has_no_effect() {
    let mut rt = runtime();
    let e = add_integer(parameter(0), integer(100));
    let before = rt.compile_expression(add_integer(parameter(0), integer(100)), Type::Integer, vec![Type::Integer]).unwrap();
    let text = debug_print(&e);
    assert_eq!(text, name("+(P,I)"));
    assert_eq!(debug_print(&e), text);
    assert_eq!(e, add_integer(parameter(0), integer(100)));
    let after = rt.compile_expression(e, Type::Integer, vec![Type::Integer]).unwrap();
    assert_eq!(run(&rt, before, vec![Value::Integer(7)]), run(&rt, after, vec![Value::Integer(7)]));
}

#[test]
fn debug_print_renders_compound_nodes() {
    let arr = array(Type::Integer, 2, vec![integer(1), boolean(true)]).unwrap();
    assert_eq!(debug_print(&to_constructor(arr)), name("Q(A(I,B))"));
    let c = call_of(fref("f", Type::Void, vec![Type::String]), Type::Void, vec![Type::String], vec![string(name("x"))]);
    assert_eq!(debug_print(&c), name("C(@f;\"x\")"));
    assert_eq!(debug_print(&print(size(1))), name("!(Z)"));
}

#[test]
fn type_mismatch_isolation() {
    let mut rt = runtime();
    let good = rt.compile_expression(add_integer(integer(1), integer(2)), Type::Integer, vec![]).unwrap();
    let bad = rt.compile_expression(add_integer(integer(1), integer(2)), Type::Boolean, vec![]);
    assert_eq!(bad, Err(CompileError::TypeMismatch));
    assert_eq!(rt.units.len(), 1);
    assert_eq!(run(&rt, good, vec![]).0, Ok(Value::Integer(3)));
    let mixed = rt.compile_expression(add_integer(integer(1), size(2)), Type::Integer, vec![]);
    assert_eq!(mixed, Err(CompileError::TypeMismatch));
    assert_eq!(run(&rt, good, vec![]).0, Ok(Value::Integer(3)));
}

#[test]
fn unresolved_symbol() {
    let mut rt = runtime();
    let c = call_of(fref("nowhere", Type::Integer, vec![]), Type::Integer, vec![], vec![]);
    assert_eq!(rt.compile_expression(c, Type::Integer, vec![]), Err(CompileError::UnresolvedSymbol));
    let mut ctx = create_context();
    add_fn(&mut ctx, "f", Type::Integer, vec![], 1);
    ctx.set_insert_point(0);
    ctx.add_return(integer(1)).unwrap();
    assert_eq!(rt.compile(ctx, &name("g")), Err(CompileError::UnresolvedSymbol));
    assert_eq!(rt.units.len(), 0);
}

#[test]
fn earlier_units_resolve_by_name() {
    let mut rt = runtime();
    let mut ctx = create_context();
    add_fn(&mut ctx, "seven", Type::Integer, vec![], 1);
    ctx.set_insert_point(0);
    ctx.add_return(integer(7)).unwrap();
    rt.compile(ctx, &name("seven")).unwrap();
    let c = call_of(fref("seven", Type::Integer, vec![]), Type::Integer, vec![], vec![]);
    let e = rt.compile_expression(add_integer(c, integer(1)), Type::Integer, vec![]).unwrap();
    assert_eq!(run(&rt, e, vec![]).0, Ok(Value::Integer(8)));
}

#[test]
fn signature_mismatch_on_reference() {
    let mut rt = runtime();
    let mut ctx = create_context();
    add_fn(&mut ctx, "f", Type::Integer, vec![], 1);
    ctx.set_insert_point(0);
    ctx.add_return(integer(1)).unwrap();
    rt.compile(ctx, &name("f")).unwrap();
    let c = call_of(fref("f", Type::Size, vec![]), Type::Size, vec![], vec![]);
    assert_eq!(rt.compile_expression(c, Type::Size, vec![]), Err(CompileError::TypeMismatch));
}

#[test]
fn reification_infeasible_at_compile() {
    let mut rt = runtime();
    let voids = array(Type::Void, 0, vec![]).unwrap();
    let q = to_constructor(voids);
    assert_eq!(rt.compile_expression(q, Type::Pointer, vec![]), Err(CompileError::ReificationInfeasible));
    let ok = to_constructor(array(Type::Integer, 1, vec![integer(1)]).unwrap());
    assert!(rt.compile_expression(ok, Type::Pointer, vec![]).is_ok());
}

#[test]
fn parameter_out_of_range() {
    let mut rt = runtime();
    let r = rt.compile_expression(parameter(1), Type::Integer, vec![Type::Integer]);
    assert_eq!(r, Err(CompileError::ParameterOutOfRange));
}

#[test]
fn missing_terminator() {
    let mut rt = runtime();
    let mut ctx = create_context();
    add_fn(&mut ctx, "f", Type::Integer, vec![], 2);
    ctx.set_insert_point(0);
    ctx.add_return(integer(1)).unwrap();
    assert_eq!(rt.compile(ctx, &name("f")), Err(CompileError::MissingTerminator));
    let mut ctx = create_context();
    add_fn(&mut ctx, "g", Type::Integer, vec![], 0);
    assert_eq!(rt.compile(ctx, &name("g")), Err(CompileError::MissingTerminator));
}

#[test]
fn builders_check_arity() {
    assert_eq!(array(Type::Integer, 3, vec![integer(1)]), Err(BuildError::StructuralBuildError));
    assert_eq!(function(name("f"), Type::Void, 2, vec![Type::Integer], false), Err(BuildError::StructuralBuildError));
    assert_eq!(
        call(integer(0), Type::Void, 1, vec![Type::Integer], false, vec![]),
        Err(BuildError::StructuralBuildError)
    );
    assert!(call(integer(0), Type::Void, 1, vec![Type::Integer], true, vec![integer(1), integer(2)]).is_ok());
    let mut ctx = create_context();
    assert_eq!(ctx.add_function(name("f"), Type::Void, 1, vec![], 1), Err(BuildError::StructuralBuildError));
    assert_eq!(ctx.functions.len(), 0);
}

#[test]
fn block_takes_one_terminator() {
    let mut ctx = create_context();
    add_fn(&mut ctx, "f", Type::Integer, vec![], 1);
    ctx.set_insert_point(0);
    assert_eq!(ctx.add_return(integer(1)), Ok(()));
    assert_eq!(ctx.add_return(integer(2)), Err(BuildError::StructuralBuildError));
    assert_eq!(ctx.functions[0].blocks[0].terminator, Some(integer(1)));
    delete_context(ctx);
}

#[test]
fn initialize_only_once() {
    let mut rt = Runtime::new();
    assert_eq!(rt.initialize_jit(), Ok(()));
    assert_eq!(rt.initialize_jit(), Err(UsageError::AlreadyInitialized));
}

#[test]
fn variadic_call_takes_extra_arguments() {
    let mut rt = runtime();
    let c = call(to_constructor(parameter(0)), Type::Integer, 1, vec![Type::Integer], true, vec![integer(5), boolean(false)]).unwrap();
    let e = rt.compile_expression(c, Type::Integer, vec![]).unwrap();
    assert_eq!(run(&rt, e, vec![]).0, Ok(Value::Integer(5)));
}

#[test]
fn handle_that_does_not_compile_faults() {
    let mut rt = runtime();
    let c = call_of(to_constructor(parameter(0)), Type::Boolean, vec![Type::Integer], vec![integer(5)]);
    let e = rt.compile_expression(c, Type::Boolean, vec![]).unwrap();
    assert_eq!(run(&rt, e, vec![]).0, Err(Fault::Compile(CompileError::TypeMismatch)));
}

#[test]
fn runaway_recursion_stops() {
    let mut rt = runtime();
    let mut ctx = create_context();
    add_fn(&mut ctx, "loop", Type::Integer, vec![], 1);
    ctx.set_insert_point(0);
    ctx.add_return(call_of(fref("loop", Type::Integer, vec![]), Type::Integer, vec![], vec![])).unwrap();
    let e = rt.compile(ctx, &name("loop")).unwrap();
    assert_eq!(run(&rt, e, vec![]).0, Err(Fault::DepthExceeded));
    assert!(CALL_DEPTH > 0);
}

#[test]
fn arrays_evaluate_elementwise() {
    let mut rt = runtime();
    let a = array(Type::Integer, 2, vec![integer(1), add_integer(integer(2), integer(3))]).unwrap();
    let e = rt.compile_expression(a, Type::Pointer, vec![]).unwrap();
    assert_eq!(run(&rt, e, vec![]).0, Ok(Value::Array(vec![Value::Integer(1), Value::Integer(5)])));
    let bad = array(Type::Integer, 1, vec![boolean(true)]).unwrap();
    assert_eq!(rt.compile_expression(bad, Type::Pointer, vec![]), Err(CompileError::TypeMismatch));
}

#[test]
fn print_needs_a_string() {
    let mut rt = runtime();
    assert_eq!(rt.compile_expression(print(integer(1)), Type::Void, vec![]), Err(CompileError::TypeMismatch));
}

#[test]
fn host_symbol_resolves_and_is_called_once() {
    let mut rt = host_runtime();
    let e = rt.compile_expression(add_100_call(integer(11)), Type::Integer, vec![]).unwrap();
    let mut io = Io::new();
    assert_eq!(rt.invoke(e, &vec![], &mut io), Err(Fault::Suspended));
    assert_eq!(io.pending, Some((0, vec![Value::Integer(11)])));
    let r = rt.resume(e, &vec![], &mut io, Value::Integer(111));
    assert_eq!(r, Ok(Value::Integer(111)));
    assert_eq!(io.used, 1);
    let (r, _, calls) = drive(&rt, e, vec![], add_100_host);
    assert_eq!(r, Ok(Value::Integer(111)));
    assert_eq!(calls, vec![(name("add_100"), vec![Value::Integer(11)])]);
}

#[test]
fn host_symbol_signature_must_match() {
    let mut rt = host_runtime();
    let c = call_of(fref("add_100", Type::Size, vec![Type::Size]), Type::Size, vec![Type::Size], vec![size(1)]);
    assert_eq!(rt.compile_expression(c, Type::Size, vec![]), Err(CompileError::TypeMismatch));
    assert_eq!(
        rt.register_host(name("add_100"), Type::Integer, vec![], false),
        Err(UsageError::DuplicateHost)
    );
}

#[test]
fn convergence_with_host_call() {
    for k in 0..4usize {
        let mut rt = host_runtime();
        let mut e = add_100_call(integer(5));
        for _ in 0..k {
            e = to_constructor(e);
        }
        for _ in 0..k {
            let entry = rt.compile_expression(e, Type::Pointer, vec![]).unwrap();
            let (r, _, calls) = drive(&rt, entry, vec![], add_100_host);
            assert!(calls.is_empty());
            match r {
                Ok(Value::Handle(h)) => e = h,
                other => panic!("no handle: {:?}", other),
            }
        }
        assert_eq!(e, add_100_call(integer(5)));
        let last = rt.compile_expression(e, Type::Integer, vec![]).unwrap();
        let (r, _, calls) = drive(&rt, last, vec![], add_100_host);
        assert_eq!(r, Ok(Value::Integer(105)));
        assert_eq!(calls, vec![(name("add_100"), vec![Value::Integer(5)])]);
    }
}

#[test]
fn forward_reference_to_function_calling_host() {
    let mut rt = host_runtime();
    let mut ctx = create_context();
    add_fn(&mut ctx, "A", Type::Integer, vec![], 1);
    ctx.set_insert_point(0);
    let to_b = call_of(fref("B", Type::Integer, vec![Type::Integer]), Type::Integer, vec![Type::Integer], vec![integer(7)]);
    ctx.add_return(to_b).unwrap();
    add_fn(&mut ctx, "B", Type::Integer, vec![Type::Integer], 1);
    ctx.set_insert_point(0);
    ctx.add_return(add_100_call(parameter(0))).unwrap();
    let a = rt.compile(ctx, &name("A")).unwrap();
    let (r, _, calls) = drive(&rt, a, vec![], add_100_host);
    assert_eq!(r, Ok(Value::Integer(107)));
    assert_eq!(calls, vec![(name("add_100"), vec![Value::Integer(7)])]);
}

#[test]
fn debug_print_then_host_call() {
    let mut rt = host_runtime();
    let h = add_100_call(parameter(0));
    for _ in 0..3 {
        debug_print(&h);
    }
    assert_eq!(debug_print(&h), name("C(@add_100;P)"));
    let e = rt.compile_expression(h, Type::Integer, vec![Type::Integer]).unwrap();
    let (r, _, calls) = drive(&rt, e, vec![Value::Integer(3)], add_100_host);
    assert_eq!(r, Ok(Value::Integer(103)));
    assert_eq!(calls.len(), 1);
}

#[test]
fn type_mismatch_keeps_host_calling_entry() {
    let mut rt = host_runtime();
    let e = rt.compile_expression(add_100_call(parameter(0)), Type::Integer, vec![Type::Integer]).unwrap();
    assert_eq!(
        rt.compile_expression(boolean(true), Type::Integer, vec![]),
        Err(CompileError::TypeMismatch)
    );
    let (r, _, calls) = drive(&rt, e, vec![Value::Integer(-4)], add_100_host);
    assert_eq!(r, Ok(Value::Integer(96)));
    assert_eq!(calls, vec![(name("add_100"), vec![Value::Integer(-4)])]);
}

#[test]
fn original_program_returns_42() {
    let mut rt = host_runtime();
    let mut ctx = create_context();
    add_fn(&mut ctx, "0", Type::Integer, vec![Type::Integer], 1);
    ctx.set_insert_point(0);
    let staged = call_of(to_constructor(parameter(0)), Type::Integer, vec![Type::Integer], vec![integer(1)]);
    ctx.add_return(add_integer(parameter(0), staged)).unwrap();
    add_fn(&mut ctx, "main", Type::Integer, vec![], 1);
    ctx.set_insert_point(0);
    let inner = call_of(fref("0", Type::Integer, vec![Type::Integer]), Type::Integer, vec![Type::Integer], vec![integer(10)]);
    ctx.add_expression(add_100_call(inner));
    ctx.add_return(integer(42)).unwrap();
    let main = rt.compile(ctx, &name("main")).unwrap();
    let (r, _, calls) = drive(&rt, main, vec![], add_100_host);
    assert_eq!(r, Ok(Value::Integer(42)));
    assert_eq!(calls, vec![(name("add_100"), vec![Value::Integer(11)])]);
}

#[test]
fn context_function_shadows_earlier_unit() {
    let mut rt = runtime();
    let mut ctx = create_context();
    add_fn(&mut ctx, "f", Type::Integer, vec![], 1);
    ctx.set_insert_point(0);
    ctx.add_return(integer(1)).unwrap();
    let old = rt.compile(ctx, &name("f")).unwrap();
    let mut ctx = create_context();
    add_fn(&mut ctx, "g", Type::Integer, vec![], 1);
    ctx.set_insert_point(0);
    ctx.add_return(call_of(fref("f", Type::Integer, vec![]), Type::Integer, vec![], vec![])).unwrap();
    add_fn(&mut ctx, "f", Type::Integer, vec![], 1);
    ctx.set_insert_point(0);
    ctx.add_return(integer(2)).unwrap();
    let g = rt.compile(ctx, &name("g")).unwrap();
    assert_eq!(run(&rt, g, vec![]).0, Ok(Value::Integer(2)));
    assert_eq!(run(&rt, old, vec![]).0, Ok(Value::Integer(1)));
}

#[test]
fn host_add_100_adds() {
    assert_eq!(staged_jit::host::add_100(11), 111);
    assert_eq!(staged_jit::host::add_100(-100), 0);
    assert_eq!(staged_jit::host::add_100(i32::MAX - 100), i32::MAX);
}
