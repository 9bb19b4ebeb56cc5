//! Properties of the typing rules, proved for all inputs.
use vstd::prelude::*;
use crate::ast::{same_type, type_named, Binary, Call, Decl, Expr, FieldInit, Field, Ident, Init, Param, Stmt, Type, UnaryOp};
use crate::rules::{
    body_rule, param_scope, stmt_rule, access_rule, find_param, is_builtin_name, record_fields, arg_diags, check_args, check_expr, check_inits, decl_rule, find_field, ident_rule,
    init_diags, one, program_rule, return_type, Context, TypeError,
};
use crate::symbol::{lookup, BindingView, Env, ScopeView};

verus! {

/// A program raises no diagnostic exactly when none of its declarations
/// does: the pass succeeds on every program without a type incompatibility.
pub proof fn lemma_clean_program(env: Env, decls: Seq<Decl>, n: int)
    requires
        0 <= n <= decls.len(),
    ensures
        program_rule(env, decls, n).len() == 0 <==> forall|k: int|
            0 <= k < n ==> (#[trigger] decl_rule(env, decls[k])).len() == 0,
    decreases n,
{
    if n > 0 {
        lemma_clean_program(env, decls, n - 1);
        if program_rule(env, decls, n).len() == 0 {
            assert forall|k: int| 0 <= k < n implies (#[trigger] decl_rule(env, decls[k])).len() == 0 by {
                if k < n - 1 {
                    assert(program_rule(env, decls, n - 1).len() == 0);
                }
            }
        }
    }
}

/// A binary expression whose operands check with different types raises
/// exactly one diagnostic of its own, a `Mismatch` of the two types, after
/// whatever its operands raised, and fails; when the operands raise none,
/// that `Mismatch` is the only diagnostic.
pub proof fn lemma_binary_mismatch(env: Env, b: Binary, lt: Type, rt: Type)
    requires
        check_expr(env, *b.left).0 == Ok::<Type, TypeError>(lt),
        check_expr(env, *b.right).0 == Ok::<Type, TypeError>(rt),
        !same_type(lt, rt),
    ensures
        check_expr(env, Expr::Binary(b)) == (
            Err::<Type, TypeError>(TypeError::Mismatch(lt, rt)),
            check_expr(env, *b.left).1 + check_expr(env, *b.right).1 + one(TypeError::Mismatch(lt, rt), b.op_span, Context::Operator(b.op)),
        ),
        check_expr(env, *b.left).1.len() == 0 && check_expr(env, *b.right).1.len() == 0 ==> check_expr(
            env,
            Expr::Binary(b),
        ).1 == one(TypeError::Mismatch(lt, rt), b.op_span, Context::Operator(b.op)),
{
    if check_expr(env, *b.left).1.len() == 0 && check_expr(env, *b.right).1.len() == 0 {
        assert(check_expr(env, *b.left).1 + check_expr(env, *b.right).1 + one(TypeError::Mismatch(lt, rt), b.op_span, Context::Operator(b.op))
            =~= one(TypeError::Mismatch(lt, rt), b.op_span, Context::Operator(b.op)));
    }
}

/// Initializer diagnostics accumulate: those of the first `k` initializers
/// stand, unchanged, at the start of those of the first `n`.
pub proof fn lemma_inits_prefix(env: Env, fs: Seq<Field>, rec: Ident, inits: Seq<FieldInit>, k: int, n: int)
    requires
        0 <= k <= n <= inits.len(),
    ensures
        check_inits(env, fs, rec, inits, k).is_prefix_of(check_inits(env, fs, rec, inits, n)),
    decreases n - k,
{
    if k < n {
        lemma_inits_prefix(env, fs, rec, inits, k, n - 1);
    }
}

/// An initializer naming a field that the record does not declare raises
/// exactly one diagnostic, a `NotProperty` for that name, and its expression
/// is left unchecked; the initializers before and after it are checked all
/// the same.
pub proof fn lemma_unknown_field(env: Env, fs: Seq<Field>, rec: Ident, inits: Seq<FieldInit>, k: int)
    requires
        0 <= k < inits.len(),
        find_field(fs, inits[k].name.name@) is None,
    ensures
        init_diags(env, fs, rec, inits[k]) == one(
            TypeError::NotProperty(inits[k].name, type_named(rec.name)),
            inits[k].name.span,
            Context::FieldInit,
        ),
        check_inits(env, fs, rec, inits, k + 1) == check_inits(env, fs, rec, inits, k) + init_diags(env, fs, rec, inits[k]),
        check_inits(env, fs, rec, inits, k + 1).is_prefix_of(
            check_inits(env, fs, rec, inits, inits.len() as int),
        ),
{
    lemma_inits_prefix(env, fs, rec, inits, k + 1, inits.len() as int);
}

/// An initializer that names a field of the record, whose expression checks
/// with no diagnostic and with that field's type.
pub open spec fn clean_init(env: Env, fs: Seq<Field>, fi: FieldInit) -> bool {
    &&& check_expr(env, fi.expr).1.len() == 0
    &&& check_expr(env, fi.expr).0 is Ok
    &&& find_field(fs, fi.name.name@) is Some
    &&& same_type(
        type_named(find_field(fs, fi.name.name@)->Some_0.ty.name),
        check_expr(env, fi.expr).0->Ok_0,
    )
}

proof fn lemma_inits_one_unknown(env: Env, fs: Seq<Field>, rec: Ident, inits: Seq<FieldInit>, k: int, n: int)
    requires
        0 <= k < inits.len(),
        0 <= n <= inits.len(),
        find_field(fs, inits[k].name.name@) is None,
        forall|j: int| 0 <= j < inits.len() && j != k ==> clean_init(env, fs, #[trigger] inits[j]),
    ensures
        check_inits(env, fs, rec, inits, n) == if n <= k {
            Seq::<crate::rules::Diagnostic>::empty()
        } else {
            one(TypeError::NotProperty(inits[k].name, type_named(rec.name)), inits[k].name.span, Context::FieldInit)
        },
    decreases n,
{
    if n > 0 {
        lemma_inits_one_unknown(env, fs, rec, inits, k, n - 1);
        if n - 1 != k {
            assert(clean_init(env, fs, inits[n - 1]));
            assert(init_diags(env, fs, rec, inits[n - 1]) =~= Seq::empty());
        }
        assert(check_inits(env, fs, rec, inits, n) =~= check_inits(env, fs, rec, inits, n - 1)
            + init_diags(env, fs, rec, inits[n - 1]));
    }
}

/// A record initializer in which exactly one initializer names an unknown
/// field, and every other one checks cleanly against its field, raises exactly
/// one diagnostic, a `NotProperty` for that name, and has the record's type.
pub proof fn lemma_init_single_unknown_field(env: Env, it: Init, fs: Seq<Field>, k: int)
    requires
        lookup(env, it.name.name@) == Some(BindingView::Record(fs)),
        0 <= k < it.initializers@.len(),
        find_field(fs, it.initializers@[k].name.name@) is None,
        forall|j: int|
            0 <= j < it.initializers@.len() && j != k ==> clean_init(env, fs, #[trigger] it.initializers@[j]),
    ensures
        check_expr(env, Expr::Init(it)) == (
            Ok::<Type, TypeError>(type_named(it.name.name)),
            one(
                TypeError::NotProperty(it.initializers@[k].name, type_named(it.name.name)),
                it.initializers@[k].name.span,
                Context::FieldInit,
            ),
        ),
{
    lemma_inits_one_unknown(env, fs, it.name, it.initializers@, k, it.initializers@.len() as int);
}

/// A call of a function with the wrong number of arguments raises exactly one
/// arity diagnostic, then checks every argument, each against the parameter
/// at its index where there is one, and still has the declared return type.
pub proof fn lemma_call_arity(env: Env, c: Call, params: Seq<Param>, ty: Option<Ident>)
    requires
        lookup(env, c.callee.name@) == Some(BindingView::Function { params, ty }),
        params.len() != c.args.len(),
    ensures
        check_expr(env, Expr::Call(c)) == (
            Ok::<Type, TypeError>(return_type(ty)),
            one(TypeError::Arity(params.len() as usize, c.args.len()), c.callee.span, Context::Arity)
                + check_args(env, params, c.args@, c.args@.len() as int),
        ),
        forall|i: int|
            0 <= i < c.args.len() && i < params.len() ==> #[trigger] arg_diags(env, params, c.args@[i], i)
                == match check_expr(env, c.args@[i]).0 {
                Ok(got) => if same_type(type_named(params[i].ty.name), got) {
                    check_expr(env, c.args@[i]).1
                } else {
                    check_expr(env, c.args@[i]).1 + one(
                        TypeError::Mismatch(type_named(params[i].ty.name), got),
                        c.args@[i].spec_span(),
                        Context::Argument,
                    )
                },
                Err(_) => check_expr(env, c.args@[i]).1,
            },
{
}

/// A name bound only in a scope that has since ended is no longer found, and
/// used as a value it is `Undefined`.
pub proof fn lemma_scope_end(env: Env, inner: ScopeView, id: Ident)
    requires
        lookup(env, id.name@) is None,
    ensures
        lookup(env.push(inner).drop_last(), id.name@) is None,
        ident_rule(env.push(inner).drop_last(), id) == (
            Err::<Type, TypeError>(TypeError::Undefined(id)),
            one(TypeError::Undefined(id), id.span, Context::Name),
        ),
{
    assert(env.push(inner).drop_last() =~= env);
}

/// The type the rules give a sub-expression.
pub open spec fn type_of(env: Env, e: Expr) -> Type {
    check_expr(env, e).0->Ok_0
}

/// An expression with no type incompatibility: every name resolves to the kind
/// its context needs, every operator gets operands it accepts, every call has
/// the declared number of arguments of the declared types, every initializer
/// names a field and gives it its type, and every access step names a field.
pub open spec fn well_typed_expr(env: Env, e: Expr) -> bool
    decreases e, 0int,
{
    match e {
        Expr::Bool(..) | Expr::Int(..) | Expr::Float(..) | Expr::Str(..) => true,
        Expr::Ident(id) => match lookup(env, id.name@) {
            Some(BindingView::Function { params, ty }) => find_param(params, id.name@) is Some,
            Some(BindingView::Variable(_)) | Some(BindingView::Constant(_)) => true,
            _ => false,
        },
        Expr::Unary(u) => well_typed_expr(env, *u.right) && match u.op {
            UnaryOp::Negate => type_of(env, *u.right) is Int || type_of(env, *u.right) is Float,
            UnaryOp::Invert => type_of(env, *u.right) is Bool,
        },
        Expr::Binary(b) => well_typed_expr(env, *b.left) && well_typed_expr(env, *b.right) && same_type(
            type_of(env, *b.left),
            type_of(env, *b.right),
        ),
        Expr::Call(c) => match lookup(env, c.callee.name@) {
            Some(BindingView::Function { params, ty }) => params.len() == c.args.len() && args_well_typed(
                env,
                params,
                c.args@,
                c.args@.len() as int,
            ),
            Some(_) => false,
            None => is_builtin_name(c.callee.name@),
        },
        Expr::Init(it) => match lookup(env, it.name.name@) {
            Some(BindingView::Record(fs)) => inits_well_typed(env, fs, it.initializers@, it.initializers@.len() as int),
            Some(_) => false,
            None => is_builtin_name(it.name.name@),
        },
        Expr::Access(a) => well_typed_expr(env, *a.head) && access_well_typed(env, type_of(env, *a.head), a.fields@, 0),
    }
}

/// The first `n` arguments are well typed, each of its parameter's type.
pub open spec fn args_well_typed(env: Env, params: Seq<Param>, args: Seq<Expr>, n: int) -> bool
    decreases args, 2int, n,
{
    if n <= 0 || n > args.len() {
        true
    } else {
        args_well_typed(env, params, args, n - 1) && well_typed_expr(env, args[n - 1]) && n - 1 < params.len()
            && same_type(type_named(params[n - 1].ty.name), type_of(env, args[n - 1]))
    }
}

/// The first `n` initializers name fields and give them well-typed values of their types.
pub open spec fn inits_well_typed(env: Env, fs: Seq<Field>, inits: Seq<FieldInit>, n: int) -> bool
    decreases inits, 2int, n,
{
    if n <= 0 || n > inits.len() {
        true
    } else {
        inits_well_typed(env, fs, inits, n - 1) && find_field(fs, inits[n - 1].name.name@) is Some
            && well_typed_expr(env, inits[n - 1].expr) && same_type(
            type_named(find_field(fs, inits[n - 1].name.name@)->Some_0.ty.name),
            type_of(env, inits[n - 1].expr),
        )
    }
}

/// Each step `fields[i..]` of an access chain from a value of type `t` names a field of a record.
pub open spec fn access_well_typed(env: Env, t: Type, fields: Seq<Ident>, i: int) -> bool
    decreases fields.len() - i,
{
    if i < 0 || i >= fields.len() {
        true
    } else {
        record_fields(env, t) is Some && find_field(record_fields(env, t)->Some_0, fields[i].name@) is Some
            && access_well_typed(
            env,
            type_named(find_field(record_fields(env, t)->Some_0, fields[i].name@)->Some_0.ty.name),
            fields,
            i + 1,
        )
    }
}

proof fn lemma_access_well_typed(env: Env, t: Type, fields: Seq<Ident>, i: int)
    requires
        access_well_typed(env, t, fields, i),
    ensures
        access_rule(env, t, fields, i).0 is Ok,
        access_rule(env, t, fields, i).1.len() == 0,
    decreases fields.len() - i,
{
    if 0 <= i < fields.len() {
        let f = find_field(record_fields(env, t)->Some_0, fields[i].name@)->Some_0;
        lemma_access_well_typed(env, type_named(f.ty.name), fields, i + 1);
    }
}

/// A well-typed expression checks with no diagnostic.
pub proof fn lemma_well_typed_expr(env: Env, e: Expr)
    requires
        well_typed_expr(env, e),
    ensures
        check_expr(env, e).0 is Ok,
        check_expr(env, e).1.len() == 0,
    decreases e, 0int,
{
    match e {
        Expr::Unary(u) => {
            lemma_well_typed_expr(env, *u.right);
        },
        Expr::Binary(b) => {
            lemma_well_typed_expr(env, *b.left);
            lemma_well_typed_expr(env, *b.right);
        },
        Expr::Call(c) => {
            match lookup(env, c.callee.name@) {
                Some(BindingView::Function { params, ty }) => {
                    lemma_args_well_typed(env, params, c.args@, c.args@.len() as int);
                },
                _ => {},
            }
        },
        Expr::Init(it) => {
            match lookup(env, it.name.name@) {
                Some(BindingView::Record(fs)) => {
                    lemma_inits_well_typed(env, fs, it.name, it.initializers@, it.initializers@.len() as int);
                },
                _ => {},
            }
        },
        Expr::Access(a) => {
            lemma_well_typed_expr(env, *a.head);
            lemma_access_well_typed(env, type_of(env, *a.head), a.fields@, 0);
        },
        _ => {},
    }
}

proof fn lemma_args_well_typed(env: Env, params: Seq<Param>, args: Seq<Expr>, n: int)
    requires
        args_well_typed(env, params, args, n),
    ensures
        check_args(env, params, args, n).len() == 0,
    decreases args, 2int, n,
{
    if 0 < n <= args.len() {
        lemma_args_well_typed(env, params, args, n - 1);
        lemma_well_typed_expr(env, args[n - 1]);
        assert(arg_diags(env, params, args[n - 1], n - 1) == check_expr(env, args[n - 1]).1);
        assert(check_args(env, params, args, n) == check_args(env, params, args, n - 1) + arg_diags(
            env,
            params,
            args[n - 1],
            n - 1,
        ));
    }
}

proof fn lemma_inits_well_typed(env: Env, fs: Seq<Field>, rec: Ident, inits: Seq<FieldInit>, n: int)
    requires
        inits_well_typed(env, fs, inits, n),
    ensures
        check_inits(env, fs, rec, inits, n).len() == 0,
    decreases inits, 2int, n,
{
    if 0 < n <= inits.len() {
        lemma_inits_well_typed(env, fs, rec, inits, n - 1);
        lemma_well_typed_expr(env, inits[n - 1].expr);
        assert(init_diags(env, fs, rec, inits[n - 1]) == check_expr(env, inits[n - 1].expr).1);
        assert(check_inits(env, fs, rec, inits, n) == check_inits(env, fs, rec, inits, n - 1) + init_diags(
            env,
            fs,
            rec,
            inits[n - 1],
        ));
    }
}

/// A statement of a function returning `ret` with no type incompatibility.
pub open spec fn well_typed_stmt(env: Env, s: Stmt, ret: Type) -> bool {
    match s {
        Stmt::Return(e) => well_typed_expr(env, e) && same_type(ret, type_of(env, e)),
        Stmt::Expr(e) => well_typed_expr(env, e),
        Stmt::Var(v) => well_typed_expr(env, v.expr) && same_type(type_named(v.ty.name), type_of(env, v.expr)),
        Stmt::Assign(a) => well_typed_expr(env, a.target) && well_typed_expr(env, a.expr) && same_type(
            type_of(env, a.target),
            type_of(env, a.expr),
        ),
    }
}

/// The first `n` statements of a body are well typed, each in the scopes the
/// statements before it leave.
pub open spec fn body_well_typed(env: Env, body: Seq<Stmt>, ret: Type, n: int) -> bool
    decreases n,
{
    if n <= 0 || n > body.len() {
        true
    } else {
        body_well_typed(env, body, ret, n - 1) && well_typed_stmt(body_rule(env, body, ret, n - 1).0, body[n - 1], ret)
    }
}

/// A declaration with no type incompatibility; a `main` function returns `Void` or nothing.
pub open spec fn well_typed_decl(env: Env, d: Decl) -> bool {
    match d {
        Decl::Function(f) => (f.name.name@ == "main"@ && f.ty is Some ==> same_type(
            type_named(f.ty->Some_0.name),
            Type::Void,
        )) && body_well_typed(env.push(param_scope(f)), f.body@, return_type(f.ty), f.body@.len() as int),
        Decl::Constant(c) => well_typed_expr(env, c.expr) && same_type(type_named(c.ty.name), type_of(env, c.expr)),
        Decl::Record(_) => true,
    }
}

proof fn lemma_well_typed_stmt(env: Env, s: Stmt, ret: Type)
    requires
        well_typed_stmt(env, s, ret),
    ensures
        stmt_rule(env, s, ret).1.len() == 0,
{
    match s {
        Stmt::Return(e) => lemma_well_typed_expr(env, e),
        Stmt::Expr(e) => lemma_well_typed_expr(env, e),
        Stmt::Var(v) => lemma_well_typed_expr(env, v.expr),
        Stmt::Assign(a) => {
            lemma_well_typed_expr(env, a.target);
            lemma_well_typed_expr(env, a.expr);
        },
    }
}

proof fn lemma_body_well_typed(env: Env, body: Seq<Stmt>, ret: Type, n: int)
    requires
        body_well_typed(env, body, ret, n),
    ensures
        body_rule(env, body, ret, n).1.len() == 0,
    decreases n,
{
    if 0 < n <= body.len() {
        lemma_body_well_typed(env, body, ret, n - 1);
        lemma_well_typed_stmt(body_rule(env, body, ret, n - 1).0, body[n - 1], ret);
    }
}

/// A well-typed declaration raises no diagnostic.
pub proof fn lemma_well_typed_decl(env: Env, d: Decl)
    requires
        well_typed_decl(env, d),
    ensures
        decl_rule(env, d).len() == 0,
{
    match d {
        Decl::Function(f) => {
            lemma_body_well_typed(env.push(param_scope(f)), f.body@, return_type(f.ty), f.body@.len() as int);
        },
        Decl::Constant(c) => lemma_well_typed_expr(env, c.expr),
        Decl::Record(_) => {},
    }
}

/// A program in which every declaration is well typed raises no diagnostic,
/// so the pass over it succeeds with an empty diagnostic list.
pub proof fn lemma_well_typed_program(env: Env, decls: Seq<Decl>)
    requires
        forall|k: int| 0 <= k < decls.len() ==> well_typed_decl(env, #[trigger] decls[k]),
    ensures
        program_rule(env, decls, decls.len() as int).len() == 0,
{
    assert forall|k: int| 0 <= k < decls.len() implies (#[trigger] decl_rule(env, decls[k])).len() == 0 by {
        lemma_well_typed_decl(env, decls[k]);
    }
    lemma_clean_program(env, decls, decls.len() as int);
}

} // verus!
