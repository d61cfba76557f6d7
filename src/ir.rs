//! The type and expression model, its mathematical view, and the builders.
use vstd::prelude::*;

verus! {

broadcast use {
    vstd::std_specs::vec::axiom_vec_index_decreases,
    vstd::std_specs::vec::axiom_vec_decreases_to_view,
    vstd::seq::axiom_seq_index_decreases,
    vstd::seq::axiom_seq_subrange_decreases,
};

/// The type tags of values. Signatures are ordered lists of them.
#[derive(Clone, Copy, Debug, PartialEq, Eq, Structural)]
pub enum Type {
    Integer,
    Size,
    Boolean,
    String,
    Pointer,
    Void,
}

/// An expression node; a compound node owns its children.
#[derive(Debug, PartialEq, Eq)]
pub enum Expr {
    Integer(i32),
    Size(usize),
    Boolean(bool),
    Str(Vec<u8>),
    Parameter(usize),
    BinaryAdd(Box<Expr>, Box<Expr>),
    Print(Box<Expr>),
    Array(Type, Vec<Expr>),
    FunctionRef(Vec<u8>, Type, Vec<Type>, bool),
    Call(Box<Expr>, Type, Vec<Type>, bool, Vec<Expr>),
    Constructor(Box<Expr>),
}

/// The mathematical form of an expression.
pub enum ExprM {
    Integer(i32),
    Size(usize),
    Boolean(bool),
    Str(Seq<u8>),
    Parameter(usize),
    BinaryAdd(Box<ExprM>, Box<ExprM>),
    Print(Box<ExprM>),
    Array(Type, Seq<ExprM>),
    FunctionRef(Seq<u8>, Type, Seq<Type>, bool),
    Call(Box<ExprM>, Type, Seq<Type>, bool, Seq<ExprM>),
    Constructor(Box<ExprM>),
}

pub open spec fn expr_model(e: Expr) -> ExprM
    decreases e, 0int,
{
    match e {
        Expr::Integer(i) => ExprM::Integer(i),
        Expr::Size(n) => ExprM::Size(n),
        Expr::Boolean(b) => ExprM::Boolean(b),
        Expr::Str(s) => ExprM::Str(s@),
        Expr::Parameter(i) => ExprM::Parameter(i),
        Expr::BinaryAdd(l, r) => ExprM::BinaryAdd(Box::new(expr_model(*l)), Box::new(expr_model(*r))),
        Expr::Print(o) => ExprM::Print(Box::new(expr_model(*o))),
        Expr::Array(t, es) => ExprM::Array(t, exprs_model(es@)),
        Expr::FunctionRef(n, t, ps, v) => ExprM::FunctionRef(n@, t, ps@, v),
        Expr::Call(c, t, ps, v, args) => ExprM::Call(
            Box::new(expr_model(*c)),
            t,
            ps@,
            v,
            exprs_model(args@),
        ),
        Expr::Constructor(i) => ExprM::Constructor(Box::new(expr_model(*i))),
    }
}

pub open spec fn exprs_model(s: Seq<Expr>) -> Seq<ExprM>
    decreases s, 0int,
{
    if s.len() == 0 {
        Seq::empty()
    } else {
        exprs_model(s.subrange(0, s.len() - 1)).push(expr_model(s[s.len() - 1]))
    }
}

impl View for Expr {
    type V = ExprM;

    open spec fn view(&self) -> ExprM {
        expr_model(*self)
    }
}

pub proof fn lemma_exprs_model_len(s: Seq<Expr>)
    ensures
        exprs_model(s).len() == s.len(),
    decreases s.len(),
{
    if s.len() > 0 {
        lemma_exprs_model_len(s.subrange(0, s.len() - 1));
    }
}

/// Copies a byte vector.
pub fn copy_bytes(b: &Vec<u8>) -> (r: Vec<u8>)
    ensures
        r@ == b@,
{
    let mut r: Vec<u8> = Vec::new();
    let mut i: usize = 0;
    while i < b.len()
        invariant
            i <= b.len(),
            r@ == b@.subrange(0, i as int),
        decreases b.len() - i,
    {
        r.push(b[i]);
        i += 1;
        assert(r@ =~= b@.subrange(0, i as int));
    }
    assert(r@ =~= b@);
    r
}

/// Copies a signature.
pub fn copy_types(b: &Vec<Type>) -> (r: Vec<Type>)
    ensures
        r@ == b@,
{
    let mut r: Vec<Type> = Vec::new();
    let mut i: usize = 0;
    while i < b.len()
        invariant
            i <= b.len(),
            r@ == b@.subrange(0, i as int),
        decreases b.len() - i,
    {
        r.push(b[i]);
        i += 1;
        assert(r@ =~= b@.subrange(0, i as int));
    }
    assert(r@ =~= b@);
    r
}

/// Allocates a structural copy of an expression graph.
pub fn copy_expr(e: &Expr) -> (r: Expr)
    ensures
        r@ == e@,
    decreases e, 0int,
{
    match e {
        Expr::Integer(i) => Expr::Integer(*i),
        Expr::Size(n) => Expr::Size(*n),
        Expr::Boolean(b) => Expr::Boolean(*b),
        Expr::Str(s) => Expr::Str(copy_bytes(s)),
        Expr::Parameter(i) => Expr::Parameter(*i),
        Expr::BinaryAdd(l, r) => Expr::BinaryAdd(Box::new(copy_expr(l)), Box::new(copy_expr(r))),
        Expr::Print(o) => Expr::Print(Box::new(copy_expr(o))),
        Expr::Array(t, es) => Expr::Array(*t, copy_exprs(es)),
        Expr::FunctionRef(n, t, ps, v) => Expr::FunctionRef(copy_bytes(n), *t, copy_types(ps), *v),
        Expr::Call(c, t, ps, v, args) => Expr::Call(
            Box::new(copy_expr(c)),
            *t,
            copy_types(ps),
            *v,
            copy_exprs(args),
        ),
        Expr::Constructor(i) => Expr::Constructor(Box::new(copy_expr(i))),
    }
}

/// Copies a sequence of expressions, element by element.
pub fn copy_exprs(es: &Vec<Expr>) -> (r: Vec<Expr>)
    ensures
        exprs_model(r@) == exprs_model(es@),
    decreases es, 1int,
{
    let mut r: Vec<Expr> = Vec::new();
    let mut i: usize = 0;
    while i < es.len()
        invariant
            i <= es.len(),
            r@.len() == i,
            exprs_model(r@) == exprs_model(es@.subrange(0, i as int)),
        decreases es.len() - i,
    {
        let c = copy_expr(&es[i]);
        let ghost prev = r@;
        r.push(c);
        proof {
            assert(r@.subrange(0, i as int) =~= prev);
            assert(es@.subrange(0, i + 1).subrange(0, i as int) =~= es@.subrange(0, i as int));
        }
        i += 1;
    }
    assert(es@.subrange(0, es@.len() as int) =~= es@);
    r
}

} // verus!

verus! {

/// What a builder rejects: a count that disagrees with the items given.
#[derive(Clone, Copy, Debug, PartialEq, Eq, Structural)]
pub enum BuildError {
    StructuralBuildError,
}

/// An Integer literal.
pub fn integer(value: i32) -> (r: Expr)
    ensures
        r@ == ExprM::Integer(value),
{
    Expr::Integer(value)
}

/// A Size literal.
pub fn size(value: usize) -> (r: Expr)
    ensures
        r@ == ExprM::Size(value),
{
    Expr::Size(value)
}

/// A Boolean literal.
pub fn boolean(value: bool) -> (r: Expr)
    ensures
        r@ == ExprM::Boolean(value),
{
    Expr::Boolean(value)
}

/// A String literal of the given bytes.
pub fn string(bytes: Vec<u8>) -> (r: Expr)
    ensures
        r@ == ExprM::Str(bytes@),
{
    Expr::Str(bytes)
}

/// A reference to parameter `index` of the enclosing unit.
pub fn parameter(index: usize) -> (r: Expr)
    ensures
        r@ == ExprM::Parameter(index),
{
    Expr::Parameter(index)
}

/// The sum of two operands.
pub fn add_integer(left: Expr, right: Expr) -> (r: Expr)
    ensures
        r@ == ExprM::BinaryAdd(Box::new(left@), Box::new(right@)),
{
    Expr::BinaryAdd(Box::new(left), Box::new(right))
}

/// Prints its String operand; its value is Void.
pub fn print(operand: Expr) -> (r: Expr)
    ensures
        r@ == ExprM::Print(Box::new(operand@)),
{
    Expr::Print(Box::new(operand))
}

/// Builds an array node; `num_elements` must be the number of elements.
pub fn array(element_type: Type, num_elements: usize, elements: Vec<Expr>) -> (r: Result<
    Expr,
    BuildError,
>)
    ensures
        num_elements == elements@.len() <==> r is Ok,
        r is Ok ==> r->Ok_0@ == ExprM::Array(element_type, exprs_model(elements@)),
        r is Err ==> r->Err_0 == BuildError::StructuralBuildError,
{
    if num_elements != elements.len() {
        return Err(BuildError::StructuralBuildError);
    }
    Ok(Expr::Array(element_type, elements))
}

/// Builds a reference to a function by name and signature; `num_parameters`
/// must be the length of the signature.
pub fn function(
    name: Vec<u8>,
    return_type: Type,
    num_parameters: usize,
    parameter_types: Vec<Type>,
    is_variadic: bool,
) -> (r: Result<Expr, BuildError>)
    ensures
        num_parameters == parameter_types@.len() <==> r is Ok,
        r is Ok ==> r->Ok_0@ == ExprM::FunctionRef(
            name@,
            return_type,
            parameter_types@,
            is_variadic,
        ),
        r is Err ==> r->Err_0 == BuildError::StructuralBuildError,
{
    if num_parameters != parameter_types.len() {
        return Err(BuildError::StructuralBuildError);
    }
    Ok(Expr::FunctionRef(name, return_type, parameter_types, is_variadic))
}

/// The arity rule of a call: one argument per parameter, and any number of
/// further arguments when the callee is variadic.
pub open spec fn call_arity_ok(num_parameters: nat, num_arguments: nat, is_variadic: bool) -> bool {
    num_arguments == num_parameters || (is_variadic && num_arguments > num_parameters)
}

/// Builds a call; `num_parameters` must be the length of the signature and
/// the arguments must fit it by `call_arity_ok`.
pub fn call(
    callee: Expr,
    return_type: Type,
    num_parameters: usize,
    parameter_types: Vec<Type>,
    is_variadic: bool,
    arguments: Vec<Expr>,
) -> (r: Result<Expr, BuildError>)
    ensures
        (num_parameters == parameter_types@.len() && call_arity_ok(
            num_parameters as nat,
            arguments@.len(),
            is_variadic,
        )) <==> r is Ok,
        r is Ok ==> r->Ok_0@ == ExprM::Call(
            Box::new(callee@),
            return_type,
            parameter_types@,
            is_variadic,
            exprs_model(arguments@),
        ),
        r is Err ==> r->Err_0 == BuildError::StructuralBuildError,
{
    if num_parameters != parameter_types.len() {
        return Err(BuildError::StructuralBuildError);
    }
    if !(arguments.len() == num_parameters || (is_variadic && arguments.len() > num_parameters)) {
        return Err(BuildError::StructuralBuildError);
    }
    Ok(Expr::Call(Box::new(callee), return_type, parameter_types, is_variadic, arguments))
}

/// The reifier: wraps an expression so that running it yields a handle to a
/// structural copy of that expression. It never checks feasibility.
pub fn to_constructor(expression: Expr) -> (r: Expr)
    ensures
        r@ == ExprM::Constructor(Box::new(expression@)),
{
    Expr::Constructor(Box::new(expression))
}

/// `k` layers of reification around `e`.
pub open spec fn reify_n(e: ExprM, k: nat) -> ExprM
    decreases k,
{
    if k == 0 {
        e
    } else {
        ExprM::Constructor(Box::new(reify_n(e, (k - 1) as nat)))
    }
}

} // verus!

verus! {

pub const TAG_INTEGER: u8 = 73;
pub const TAG_SIZE: u8 = 90;
pub const TAG_BOOLEAN: u8 = 66;
pub const QUOTE: u8 = 34;
pub const TAG_PARAMETER: u8 = 80;
pub const TAG_ADD: u8 = 43;
pub const OPEN: u8 = 40;
pub const CLOSE: u8 = 41;
pub const COMMA: u8 = 44;
pub const TAG_PRINT: u8 = 33;
pub const TAG_ARRAY: u8 = 65;
pub const TAG_FUNCTION: u8 = 64;
pub const TAG_CALL: u8 = 67;
pub const SEMICOLON: u8 = 59;
pub const TAG_CONSTRUCTOR: u8 = 81;

/// The diagnostic text of an expression, in prefix form: `I`, `Z`, `B`, `P`
/// for integer, size, boolean and parameter nodes; a string literal between
/// quotes; `@name` for a function reference; `+(l,r)`, `!(o)`, `A(e,..)`,
/// `C(callee;a,..)` and `Q(inner)` for the compound nodes.
pub open spec fn render(e: ExprM) -> Seq<u8>
    decreases e, 0int,
{
    match e {
        ExprM::Integer(_) => seq![TAG_INTEGER],
        ExprM::Size(_) => seq![TAG_SIZE],
        ExprM::Boolean(_) => seq![TAG_BOOLEAN],
        ExprM::Str(s) => seq![QUOTE] + s + seq![QUOTE],
        ExprM::Parameter(_) => seq![TAG_PARAMETER],
        ExprM::BinaryAdd(l, r) => seq![TAG_ADD, OPEN] + render(*l) + seq![COMMA] + render(*r) + seq![CLOSE],
        ExprM::Print(o) => seq![TAG_PRINT, OPEN] + render(*o) + seq![CLOSE],
        ExprM::Array(_, es) => seq![TAG_ARRAY, OPEN] + render_list(es) + seq![CLOSE],
        ExprM::FunctionRef(n, _, _, _) => seq![TAG_FUNCTION] + n,
        ExprM::Call(c, _, _, _, args) => seq![TAG_CALL, OPEN] + render(*c) + seq![SEMICOLON] + render_list(args)
            + seq![CLOSE],
        ExprM::Constructor(i) => seq![TAG_CONSTRUCTOR, OPEN] + render(*i) + seq![CLOSE],
    }
}

/// The diagnostic text of a sequence of expressions, separated by commas.
pub open spec fn render_list(es: Seq<ExprM>) -> Seq<u8>
    decreases es, 0int,
{
    if es.len() == 0 {
        Seq::empty()
    } else if es.len() == 1 {
        render(es[0])
    } else {
        render_list(es.subrange(0, es.len() - 1)) + seq![COMMA] + render(es[es.len() - 1])
    }
}

fn push_all(out: &mut Vec<u8>, b: &Vec<u8>)
    ensures
        final(out)@ == old(out)@ + b@,
{
    let mut i: usize = 0;
    while i < b.len()
        invariant
            i <= b.len(),
            out@ == old(out)@ + b@.subrange(0, i as int),
        decreases b.len() - i,
    {
        out.push(b[i]);
        i += 1;
        assert(out@ =~= old(out)@ + b@.subrange(0, i as int));
    }
    assert(b@.subrange(0, i as int) =~= b@);
}

fn render_into(e: &Expr, out: &mut Vec<u8>)
    ensures
        final(out)@ == old(out)@ + render(e@),
    decreases e, 0int,
{
    let ghost o = out@;
    match e {
        Expr::Integer(_) => out.push(TAG_INTEGER),
        Expr::Size(_) => out.push(TAG_SIZE),
        Expr::Boolean(_) => out.push(TAG_BOOLEAN),
        Expr::Str(s) => {
            out.push(QUOTE);
            push_all(out, s);
            out.push(QUOTE);
        },
        Expr::Parameter(_) => out.push(TAG_PARAMETER),
        Expr::BinaryAdd(l, r) => {
            out.push(TAG_ADD);
            out.push(OPEN);
            render_into(l, out);
            out.push(COMMA);
            render_into(r, out);
            out.push(CLOSE);
        },
        Expr::Print(x) => {
            out.push(TAG_PRINT);
            out.push(OPEN);
            render_into(x, out);
            out.push(CLOSE);
        },
        Expr::Array(_, es) => {
            out.push(TAG_ARRAY);
            out.push(OPEN);
            render_list_into(es, out);
            out.push(CLOSE);
        },
        Expr::FunctionRef(n, _, _, _) => {
            out.push(TAG_FUNCTION);
            push_all(out, n);
        },
        Expr::Call(c, _, _, _, args) => {
            out.push(TAG_CALL);
            out.push(OPEN);
            render_into(c, out);
            out.push(SEMICOLON);
            render_list_into(args, out);
            out.push(CLOSE);
        },
        Expr::Constructor(i) => {
            out.push(TAG_CONSTRUCTOR);
            out.push(OPEN);
            render_into(i, out);
            out.push(CLOSE);
        },
    }
    assert(out@ =~= o + render(e@));
}

fn render_list_into(es: &Vec<Expr>, out: &mut Vec<u8>)
    ensures
        final(out)@ == old(out)@ + render_list(exprs_model(es@)),
    decreases es, 1int,
{
    let mut i: usize = 0;
    proof {
        assert(exprs_model(es@.subrange(0, 0)) =~= Seq::<ExprM>::empty());
        assert(out@ =~= old(out)@ + Seq::<u8>::empty());
    }
    while i < es.len()
        invariant
            i <= es.len(),
            out@ == old(out)@ + render_list(exprs_model(es@.subrange(0, i as int))),
        decreases es.len() - i,
    {
        let ghost before = out@;
        let ghost pm = exprs_model(es@.subrange(0, i as int));
        proof {
            lemma_exprs_model_len(es@.subrange(0, i as int));
            assert(es@.subrange(0, i + 1).subrange(0, i as int) =~= es@.subrange(0, i as int));
            assert(pm.push(es@[i as int]@).subrange(0, i as int) =~= pm);
        }
        if i > 0 {
            out.push(COMMA);
        }
        render_into(&es[i], out);
        proof {
            if i == 0 {
                assert(pm.push(es@[0]@)[0] == es@[0]@);
            }
            assert(out@ =~= old(out)@ + render_list(pm.push(es@[i as int]@)));
        }
        i += 1;
    }
    assert(es@.subrange(0, i as int) =~= es@);
}

/// Renders an expression's diagnostic text. It only reads the graph: the
/// expression and what compiling it gives stay the same.
pub fn debug_print(e: &Expr) -> (r: Vec<u8>)
    ensures
        r@ == render(e@),
{
    let mut out: Vec<u8> = Vec::new();
    render_into(e, &mut out);
    assert(out@ =~= render(e@));
    out
}

} // verus!
