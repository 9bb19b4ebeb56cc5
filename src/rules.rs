//! The typing rules as mathematical functions: for a scope stack and a piece
//! of the program, the outcome of checking it and the diagnostics it raises,
//! in order.
use vstd::prelude::*;
use crate::ast::{
    same_type, type_named, BinaryOp, Decl, Expr, Field, FieldInit, FuncDecl, Ident, Param, Span, Stmt,
    Type, UnaryOp,
};
use crate::symbol::{declare_local, lookup, BindingView, Env};

verus! {

/// The kind of binding a context asks for.
#[derive(Clone, Copy, Debug, PartialEq, Eq, Structural)]
pub enum Expected {
    Function,
    Record,
}

/// Why a check failed.
#[derive(Debug)]
pub enum TypeError {
    /// The name has no binding in any enclosing scope.
    Undefined(Ident),
    /// The name is bound, but not to the kind of thing the context needs.
    NotType(Ident, Expected),
    /// A unary operator applied to an operand of the wrong type.
    UnaryMismatch(UnaryOp, Type),
    /// Expected one type, found another.
    Mismatch(Type, Type),
    /// The name is not a field of the record type.
    NotProperty(Ident, Type),
    /// A call with the wrong number of arguments: declared, then provided.
    Arity(usize, usize),
    /// `main` declared with a return type other than `Void`.
    MainReturn(Type),
}

/// The construct a diagnostic was raised for, which decides how it reads.
#[derive(Clone, Copy, Debug, PartialEq, Eq, Structural)]
pub enum Context {
    /// A name that had to resolve.
    Name,
    /// The operand of a unary operator.
    Operand,
    /// The operands of a binary operator.
    Operator(BinaryOp),
    /// The number of arguments of a call.
    Arity,
    /// A call argument against its parameter.
    Argument,
    /// A field initializer of a record initializer.
    FieldInit,
    /// A step of a member access chain.
    Access,
    /// The initializer of a variable or constant.
    Initializer,
    /// The value of an assignment.
    Assignment,
    /// The value of a `return`.
    Return,
    /// The return type of `main`.
    Main,
}

/// A recorded diagnostic: what went wrong, where, and in which construct.
#[derive(Debug)]
pub struct Diagnostic {
    pub error: TypeError,
    pub span: Span,
    pub context: Context,
}

/// An outcome together with the diagnostics raised on the way.
pub type Outcome = (Result<Type, TypeError>, Seq<Diagnostic>);

pub open spec fn one(error: TypeError, span: Span, context: Context) -> Seq<Diagnostic> {
    seq![Diagnostic { error, span, context }]
}

/// A failure that is reported at `span`.
pub open spec fn fail(error: TypeError, span: Span, context: Context) -> Outcome {
    (Err(error), one(error, span, context))
}

/// Names that a call or initializer may use without a binding; they check as `Void`.
pub open spec fn is_builtin_name(n: Seq<char>) -> bool {
    n == "println"@ || n == "max"@ || n == "min"@
}

/// The type a return annotation stands for.
pub open spec fn return_type(ty: Option<Ident>) -> Type {
    match ty {
        Some(t) => type_named(t.name),
        None => Type::Void,
    }
}

/// The first parameter called `n`.
pub open spec fn find_param(ps: Seq<Param>, n: Seq<char>) -> Option<Param>
    decreases ps.len(),
{
    if ps.len() == 0 {
        None
    } else if ps[0].name.name@ == n {
        Some(ps[0])
    } else {
        find_param(ps.drop_first(), n)
    }
}

/// The first field called `n`.
pub open spec fn find_field(fs: Seq<Field>, n: Seq<char>) -> Option<Field>
    decreases fs.len(),
{
    if fs.len() == 0 {
        None
    } else if fs[0].name.name@ == n {
        Some(fs[0])
    } else {
        find_field(fs.drop_first(), n)
    }
}

/// The fields of the record that a type names, when it names one.
pub open spec fn record_fields(env: Env, t: Type) -> Option<Seq<Field>> {
    match t {
        Type::Record(n) => match lookup(env, n@) {
            Some(BindingView::Record(fs)) => Some(fs),
            _ => None,
        },
        _ => None,
    }
}

/// An identifier used as a value.
pub open spec fn ident_rule(env: Env, id: Ident) -> Outcome {
    match lookup(env, id.name@) {
        Some(BindingView::Function { params, ty }) => match find_param(params, id.name@) {
            Some(p) => (Ok(type_named(p.ty.name)), Seq::empty()),
            None => fail(TypeError::Undefined(id), id.span, Context::Name),
        },
        Some(BindingView::Variable(t)) => (Ok(type_named(t.name)), Seq::empty()),
        Some(BindingView::Constant(t)) => (Ok(type_named(t.name)), Seq::empty()),
        _ => fail(TypeError::Undefined(id), id.span, Context::Name),
    }
}

/// A unary operator applied to an operand of type `t`; `at` is the operand's span.
pub open spec fn unary_rule(op: UnaryOp, t: Type, at: Span) -> Outcome {
    match op {
        UnaryOp::Negate => if t is Int || t is Float {
            (Ok(t), Seq::empty())
        } else {
            fail(TypeError::UnaryMismatch(op, t), at, Context::Operand)
        },
        UnaryOp::Invert => if t is Bool {
            (Ok(Type::Bool), Seq::empty())
        } else {
            fail(TypeError::UnaryMismatch(op, t), at, Context::Operand)
        },
    }
}

/// A name that is unbound where a call or initializer needs it.
pub open spec fn unbound_rule(name: Ident) -> Outcome {
    if is_builtin_name(name.name@) {
        (Ok(Type::Void), Seq::empty())
    } else {
        fail(TypeError::Undefined(name), name.span, Context::Name)
    }
}

/// A walk along the fields `fields[i..]` of an access chain whose value so far has type `t`.
pub open spec fn access_rule(env: Env, t: Type, fields: Seq<Ident>, i: int) -> Outcome
    decreases fields.len() - i,
{
    if i < 0 || i >= fields.len() {
        (Ok(t), Seq::empty())
    } else {
        match record_fields(env, t) {
            Some(fs) => match find_field(fs, fields[i].name@) {
                Some(f) => access_rule(env, type_named(f.ty.name), fields, i + 1),
                None => fail(TypeError::NotProperty(fields[i], t), fields[i].span, Context::Access),
            },
            None => fail(TypeError::NotProperty(fields[i], t), fields[i].span, Context::Access),
        }
    }
}

/// Checks an expression.
pub open spec fn check_expr(env: Env, e: Expr) -> Outcome
    decreases e, 0int,
{
    match e {
        Expr::Bool(..) => (Ok(Type::Bool), Seq::empty()),
        Expr::Int(..) => (Ok(Type::Int), Seq::empty()),
        Expr::Float(..) => (Ok(Type::Float), Seq::empty()),
        Expr::Str(..) => (Ok(Type::Str), Seq::empty()),
        Expr::Ident(id) => ident_rule(env, id),
        Expr::Unary(u) => {
            let (r, d) = check_expr(env, *u.right);
            match r {
                Ok(t) => {
                    let (r2, d2) = unary_rule(u.op, t, u.right.spec_span());
                    (r2, d + d2)
                },
                Err(x) => (Err(x), d),
            }
        },
        Expr::Binary(b) => {
            let (l, dl) = check_expr(env, *b.left);
            match l {
                Err(x) => (Err(x), dl),
                Ok(lt) => {
                    let (r, dr) = check_expr(env, *b.right);
                    match r {
                        Err(x) => (Err(x), dl + dr),
                        Ok(rt) => if !same_type(lt, rt) {
                            let (r2, d2) = fail(TypeError::Mismatch(lt, rt), b.op_span, Context::Operator(b.op));
                            (r2, dl + dr + d2)
                        } else if b.op.is_arithmetic() {
                            (Ok(lt), dl + dr)
                        } else {
                            (Ok(Type::Bool), dl + dr)
                        },
                    }
                },
            }
        },
        Expr::Call(c) => match lookup(env, c.callee.name@) {
            Some(BindingView::Function { params, ty }) => {
                let arity = if params.len() != c.args.len() {
                    one(TypeError::Arity(params.len() as usize, c.args.len()), c.callee.span, Context::Arity)
                } else {
                    Seq::empty()
                };
                (Ok(return_type(ty)), arity + check_args(env, params, c.args@, c.args@.len() as int))
            },
            Some(_) => fail(TypeError::NotType(c.callee, Expected::Function), c.callee.span, Context::Name),
            None => unbound_rule(c.callee),
        },
        Expr::Init(it) => match lookup(env, it.name.name@) {
            Some(BindingView::Record(fs)) => (
                Ok(type_named(it.name.name)),
                check_inits(env, fs, it.name, it.initializers@, it.initializers@.len() as int),
            ),
            Some(_) => fail(TypeError::NotType(it.name, Expected::Record), it.name.span, Context::Name),
            None => unbound_rule(it.name),
        },
        Expr::Access(a) => {
            let (h, dh) = check_expr(env, *a.head);
            match h {
                Err(x) => (Err(x), dh),
                Ok(t) => {
                    let (r, dw) = access_rule(env, t, a.fields@, 0);
                    (r, dh + dw)
                },
            }
        },
    }
}

/// The diagnostics of one call argument: its own, then a mismatch against the
/// parameter at its index, when there is one.
pub open spec fn arg_diags(env: Env, params: Seq<Param>, arg: Expr, i: int) -> Seq<Diagnostic>
    decreases arg, 1int,
{
    let (r, d) = check_expr(env, arg);
    match r {
        Ok(got) => if i < params.len() && !same_type(type_named(params[i].ty.name), got) {
            d + one(TypeError::Mismatch(type_named(params[i].ty.name), got), arg.spec_span(), Context::Argument)
        } else {
            d
        },
        Err(_) => d,
    }
}

/// The diagnostics of the first `n` call arguments, each checked on its own.
pub open spec fn check_args(env: Env, params: Seq<Param>, args: Seq<Expr>, n: int) -> Seq<Diagnostic>
    decreases args, 2int, n,
{
    if n <= 0 || n > args.len() {
        Seq::empty()
    } else {
        check_args(env, params, args, n - 1) + arg_diags(env, params, args[n - 1], n - 1)
    }
}

/// The diagnostics of one field initializer of record `rec`, whose declared
/// fields are `fs`: a name that is not a field is reported and its expression
/// left unchecked; otherwise the expression's own diagnostics, then a mismatch
/// against the field's type.
pub open spec fn init_diags(env: Env, fs: Seq<Field>, rec: Ident, fi: FieldInit) -> Seq<Diagnostic>
    decreases fi, 1int,
{
    match find_field(fs, fi.name.name@) {
        None => one(TypeError::NotProperty(fi.name, type_named(rec.name)), fi.name.span, Context::FieldInit),
        Some(f) => {
            let (r, d) = check_expr(env, fi.expr);
            match r {
                Err(_) => d,
                Ok(got) => if same_type(type_named(f.ty.name), got) {
                    d
                } else {
                    d + one(TypeError::Mismatch(type_named(f.ty.name), got), fi.expr.spec_span(), Context::FieldInit)
                },
            }
        },
    }
}

/// The diagnostics of the first `n` field initializers, each checked on its own.
pub open spec fn check_inits(env: Env, fs: Seq<Field>, rec: Ident, inits: Seq<FieldInit>, n: int) -> Seq<Diagnostic>
    decreases inits, 2int, n,
{
    if n <= 0 || n > inits.len() {
        Seq::empty()
    } else {
        check_inits(env, fs, rec, inits, n - 1) + init_diags(env, fs, rec, inits[n - 1])
    }
}

/// The diagnostics of an expression whose type must be `expected`: its own,
/// then a mismatch when it checks with another type.
pub open spec fn expect_rule(env: Env, expected: Type, e: Expr, context: Context) -> Seq<Diagnostic> {
    let (r, d) = check_expr(env, e);
    match r {
        Ok(got) => if same_type(expected, got) {
            d
        } else {
            d + one(TypeError::Mismatch(expected, got), e.spec_span(), context)
        },
        Err(_) => d,
    }
}

/// The outcome of an expression whose type must be `expected`: its own
/// failure, a `Mismatch` when it checks with another type, else its type.
pub open spec fn expect_result(env: Env, expected: Type, e: Expr) -> Result<Type, TypeError> {
    match check_expr(env, e).0 {
        Ok(got) => if same_type(expected, got) {
            Ok(got)
        } else {
            Err(TypeError::Mismatch(expected, got))
        },
        Err(x) => Err(x),
    }
}

/// The outcome of a declaration with an initializer of declared type `ty`:
/// the declared type once the initializer checks, whether or not it matched.
pub open spec fn declared_result(env: Env, ty: Ident, e: Expr) -> Result<Type, TypeError> {
    match check_expr(env, e).0 {
        Ok(_) => Ok(type_named(ty.name)),
        Err(x) => Err(x),
    }
}

/// The outcome of a statement of a function whose return type is `ret`.
pub open spec fn stmt_result(env: Env, s: Stmt, ret: Type) -> Result<Type, TypeError> {
    match s {
        Stmt::Return(e) => expect_result(env, ret, e),
        Stmt::Expr(e) => check_expr(env, e).0,
        Stmt::Var(v) => declared_result(env, v.ty, v.expr),
        Stmt::Assign(a) => match check_expr(env, a.target).0 {
            Err(x) => Err(x),
            Ok(_) => match check_expr(env, a.expr).0 {
                Err(x) => Err(x),
                Ok(_) => Ok(Type::Void),
            },
        },
    }
}

/// The outcome of a top-level declaration.
pub open spec fn decl_result(env: Env, d: Decl) -> Result<Type, TypeError> {
    match d {
        Decl::Constant(c) => declared_result(env, c.ty, c.expr),
        _ => Ok(Type::Void),
    }
}

/// Checks a statement of a function whose return type is `ret`: the scope
/// stack after it, and its diagnostics.
pub open spec fn stmt_rule(env: Env, s: Stmt, ret: Type) -> (Env, Seq<Diagnostic>) {
    match s {
        Stmt::Return(e) => (env, expect_rule(env, ret, e, Context::Return)),
        Stmt::Expr(e) => (env, check_expr(env, e).1),
        Stmt::Var(v) => {
            let (r, d) = check_expr(env, v.expr);
            match r {
                Err(_) => (env, d),
                Ok(_) => (
                    declare_local(env, v.name.name, BindingView::Variable(v.ty)),
                    expect_rule(env, type_named(v.ty.name), v.expr, Context::Initializer),
                ),
            }
        },
        Stmt::Assign(a) => {
            let (t, dt) = check_expr(env, a.target);
            match t {
                Err(_) => (env, dt),
                Ok(expected) => (env, dt + expect_rule(env, expected, a.expr, Context::Assignment)),
            }
        },
    }
}

/// Checks the first `n` statements of a body in order, each on its own.
pub open spec fn body_rule(env: Env, body: Seq<Stmt>, ret: Type, n: int) -> (Env, Seq<Diagnostic>)
    decreases n,
{
    if n <= 0 || n > body.len() {
        (env, Seq::empty())
    } else {
        let (e1, d1) = body_rule(env, body, ret, n - 1);
        let (e2, d2) = stmt_rule(e1, body[n - 1], ret);
        (e2, d1 + d2)
    }
}

/// The scope of a function's parameters: each parameter name is bound to the function.
pub open spec fn param_scope(f: FuncDecl) -> Seq<(String, BindingView)> {
    f.params@.map_values(|p: Param| (p.name.name, BindingView::Function { params: f.params@, ty: f.ty }))
}

/// The diagnostic for a `main` function declared with a non-`Void` return type.
pub open spec fn main_rule(f: FuncDecl) -> Seq<Diagnostic> {
    match f.ty {
        Some(t) => if f.name.name@ == "main"@ && !same_type(type_named(t.name), Type::Void) {
            one(TypeError::MainReturn(type_named(t.name)), t.span, Context::Main)
        } else {
            Seq::empty()
        },
        None => Seq::empty(),
    }
}

/// Checks a function declaration: its body runs in a new scope of its parameters.
pub open spec fn function_rule(env: Env, f: FuncDecl) -> Seq<Diagnostic> {
    main_rule(f) + body_rule(env.push(param_scope(f)), f.body@, return_type(f.ty), f.body@.len() as int).1
}

/// Checks a top-level declaration.
pub open spec fn decl_rule(env: Env, d: Decl) -> Seq<Diagnostic> {
    match d {
        Decl::Function(f) => function_rule(env, f),
        Decl::Constant(c) => expect_rule(env, type_named(c.ty.name), c.expr, Context::Initializer),
        Decl::Record(_) => Seq::empty(),
    }
}

/// The diagnostics of the first `n` top-level declarations, each checked on its own.
pub open spec fn program_rule(env: Env, decls: Seq<Decl>, n: int) -> Seq<Diagnostic>
    decreases n,
{
    if n <= 0 || n > decls.len() {
        Seq::empty()
    } else {
        program_rule(env, decls, n - 1) + decl_rule(env, decls[n - 1])
    }
}

} // verus!
