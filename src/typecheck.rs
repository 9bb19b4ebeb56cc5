//! The type-checking pass: walks the program, resolves names through the
//! scope stack and records a diagnostic for every type incompatibility,
//! carrying on after each one.
use vstd::prelude::*;
use crate::ast::{
    copy_opt_ident, is_word, type_named, Access, Binary, Call, ConstantDecl, Decl, Expr,
    Field, FuncDecl, Ident, Init, Param, Span, Stmt, Type, Unary, UnaryOp, Assign, VarDecl,
};
use crate::rules::{
    access_rule, arg_diags, body_rule, check_args, check_expr, check_inits, decl_result, decl_rule,
    declared_result, expect_result, expect_rule, find_field, find_param, function_rule, ident_rule, init_diags, is_builtin_name,
    main_rule, param_scope, program_rule, record_fields, return_type, stmt_result, stmt_rule, unbound_rule,
    unary_rule, Context, Diagnostic, Expected, TypeError,
};
use crate::laws::{lemma_well_typed_program, well_typed_decl};
use crate::symbol::{
    copy_fields, copy_params, declare_local, env_of, symbol_in, Binding, BindingView, Env,
    Signature, SymbolTable,
};

verus! {

/// The first parameter called `n`.
fn param_named<'a>(ps: &'a Vec<Param>, n: &String) -> (r: Option<&'a Param>)
    ensures
        match r {
            Some(p) => find_param(ps@, n@) == Some(*p),
            None => find_param(ps@, n@) is None,
        },
{
    let mut i: usize = 0;
    assert(ps@.subrange(0, ps@.len() as int) =~= ps@);
    while i < ps.len()
        invariant
            i <= ps.len(),
            find_param(ps@, n@) == find_param(ps@.subrange(i as int, ps@.len() as int), n@),
        decreases ps.len() - i,
    {
        assert(ps@.subrange(i as int, ps@.len() as int).drop_first() =~= ps@.subrange(i + 1, ps@.len() as int));
        if ps[i].name.name == *n {
            return Some(&ps[i]);
        }
        i += 1;
    }
    None
}

/// The first field called `n`.
fn field_named<'a>(fs: &'a Vec<Field>, n: &String) -> (r: Option<&'a Field>)
    ensures
        match r {
            Some(f) => find_field(fs@, n@) == Some(*f),
            None => find_field(fs@, n@) is None,
        },
{
    let mut i: usize = 0;
    assert(fs@.subrange(0, fs@.len() as int) =~= fs@);
    while i < fs.len()
        invariant
            i <= fs.len(),
            find_field(fs@, n@) == find_field(fs@.subrange(i as int, fs@.len() as int), n@),
        decreases fs.len() - i,
    {
        assert(fs@.subrange(i as int, fs@.len() as int).drop_first() =~= fs@.subrange(i + 1, fs@.len() as int));
        if fs[i].name.name == *n {
            return Some(&fs[i]);
        }
        i += 1;
    }
    None
}

/// The fields of the record that `t` names, when it names one.
fn record_fields_in<'a>(scopes: &'a Vec<SymbolTable>, t: &Type) -> (r: Option<&'a Vec<Field>>)
    ensures
        match r {
            Some(fs) => record_fields(env_of(scopes@), *t) == Some(fs@),
            None => record_fields(env_of(scopes@), *t) is None,
        },
{
    match t {
        Type::Record(n) => match symbol_in(scopes, n) {
            Some(Binding::Record(fs)) => Some(fs),
            _ => None,
        },
        _ => None,
    }
}

/// Whether a call or initializer may use `n` without a binding.
fn is_builtin(n: &String) -> (r: bool)
    ensures
        r == is_builtin_name(n@),
{
    is_word(n, "println") || is_word(n, "max") || is_word(n, "min")
}

/// The type a return annotation stands for.
fn return_type_of(ty: &Option<Ident>) -> (r: Type)
    ensures
        r == return_type(*ty),
{
    match ty {
        Some(t) => Type::from_name(&t.name),
        None => Type::Void,
    }
}

/// The state of the pass over one program.
pub struct TypeCheckPass<'a> {
    program: &'a Vec<Decl>,
    errors: Vec<Diagnostic>,
    /// The return type of the function whose body is being checked.
    function: Option<Type>,
    scopes: Vec<SymbolTable>,
}

impl<'a> TypeCheckPass<'a> {
    /// The scope stack as a mathematical value.
    pub closed spec fn env(&self) -> Env {
        env_of(self.scopes@)
    }

    pub closed spec fn spec_program(&self) -> Seq<Decl> {
        self.program@
    }

    pub closed spec fn spec_errors(&self) -> Seq<Diagnostic> {
        self.errors@
    }

    /// A pass over `program` whose global scope is `table`.
    pub fn new(table: SymbolTable, program: &'a Vec<Decl>) -> (r: TypeCheckPass<'a>)
        ensures
            r.env() == seq![table@],
            r.spec_program() == program@,
            r.spec_errors() == Seq::<Diagnostic>::empty(),
    {
        let r = TypeCheckPass { program, errors: Vec::new(), function: None, scopes: vec![table] };
        assert(r.env() =~= seq![table@]);
        r
    }

    /// The diagnostics recorded so far, in the order they were raised.
    pub fn errors(&self) -> (r: &Vec<Diagnostic>)
        ensures
            r@ == self.spec_errors(),
    {
        &self.errors
    }

    /// Checks every top-level declaration in order. Fails with the number of
    /// diagnostics exactly when there is at least one.
    pub fn run(&mut self) -> (r: Result<(), usize>)
        ensures
            final(self).spec_errors() == old(self).spec_errors() + program_rule(
                old(self).env(),
                old(self).spec_program(),
                old(self).spec_program().len() as int,
            ),
            final(self).env() == old(self).env(),
            final(self).spec_program() == old(self).spec_program(),
            r is Ok <==> final(self).spec_errors().len() == 0,
            r matches Err(n) ==> n == final(self).spec_errors().len(),
            old(self).spec_errors().len() == 0 && (forall|k: int|
                0 <= k < old(self).spec_program().len() ==> well_typed_decl(
                    old(self).env(),
                    #[trigger] old(self).spec_program()[k],
                )) ==> r is Ok && final(self).spec_errors().len() == 0,
    {
        let program = self.program;
        let ghost env = self.env();
        let ghost base = self.errors@;
        let mut i: usize = 0;
        while i < program.len()
            invariant
                i <= program.len(),
                self.program == program,
                program == old(self).program,
                env == old(self).env(),
                base == old(self).errors@,
                self.env() == env,
                self.errors@ == base + program_rule(env, program@, i as int),
            decreases program.len() - i,
        {
            let _ = self.decl(&program[i]);
            proof {
                assert(base + program_rule(env, program@, i as int) + decl_rule(env, program@[i as int])
                    =~= base + program_rule(env, program@, i + 1));
            }
            i += 1;
        }
        proof {
            assert(program@.subrange(0, i as int) =~= program@);
            if old(self).spec_errors().len() == 0 && (forall|k: int|
                0 <= k < old(self).spec_program().len() ==> well_typed_decl(
                    old(self).env(),
                    #[trigger] old(self).spec_program()[k],
                )) {
                assert(old(self).spec_program() == program@);
                assert forall|k: int| 0 <= k < program@.len() implies well_typed_decl(env, #[trigger] program@[k]) by {
                    assert(well_typed_decl(old(self).env(), old(self).spec_program()[k]));
                }
                lemma_well_typed_program(env, program@);
            }
        }
        let len = self.errors.len();
        if len > 0 {
            Err(len)
        } else {
            Ok(())
        }
    }

    /// Records a diagnostic.
    fn error(&mut self, error: TypeError, span: Span, context: Context)
        ensures
            final(self).errors@ == old(self).errors@.push(Diagnostic { error, span, context }),
            final(self).scopes == old(self).scopes,
            final(self).function == old(self).function,
            final(self).program == old(self).program,
    {
        self.errors.push(Diagnostic { error, span, context });
    }

    /// Opens a new innermost scope.
    fn begin_scope(&mut self)
        ensures
            final(self).env() == old(self).env().push(Seq::empty()),
            final(self).scopes.len() == old(self).scopes.len() + 1,
            final(self).errors == old(self).errors,
            final(self).function == old(self).function,
            final(self).program == old(self).program,
    {
        self.scopes.push(SymbolTable::new());
        assert(self.env() =~= old(self).env().push(Seq::empty()));
    }

    /// Closes the innermost scope.
    fn end_scope(&mut self)
        requires
            old(self).scopes.len() > 0,
        ensures
            final(self).env() == old(self).env().drop_last(),
            final(self).scopes.len() == old(self).scopes.len() - 1,
            final(self).errors == old(self).errors,
            final(self).function == old(self).function,
            final(self).program == old(self).program,
    {
        self.scopes.pop();
        assert(self.env() =~= old(self).env().drop_last());
    }

    /// Binds `name` in the innermost scope.
    fn scope_mut(&mut self, name: String, b: Binding)
        requires
            old(self).scopes.len() > 0,
        ensures
            final(self).env() == declare_local(old(self).env(), name, b@),
            final(self).env().len() == old(self).env().len(),
            final(self).env().drop_last() == old(self).env().drop_last(),
            final(self).scopes.len() == old(self).scopes.len(),
            final(self).errors == old(self).errors,
            final(self).function == old(self).function,
            final(self).program == old(self).program,
    {
        let mut t = self.scopes.pop().unwrap();
        t.insert(name, b);
        self.scopes.push(t);
        assert(self.env() =~= declare_local(old(self).env(), name, b@));
        assert(self.env().drop_last() =~= old(self).env().drop_last());
    }

    /// Handles a call or initializer name that has no binding.
    fn unbound(&mut self, name: &Ident) -> (r: Result<Type, TypeError>)
        ensures
            r == unbound_rule(*name).0,
            final(self).errors@ == old(self).errors@ + unbound_rule(*name).1,
            final(self).scopes == old(self).scopes,
            final(self).function == old(self).function,
            final(self).program == old(self).program,
    {
        if is_builtin(&name.name) {
            assert(old(self).errors@ + Seq::<Diagnostic>::empty() =~= self.errors@);
            Ok(Type::Void)
        } else {
            self.error(TypeError::Undefined(name.copy()), name.span, Context::Name);
            assert(old(self).errors@ + unbound_rule(*name).1 =~= self.errors@);
            Err(TypeError::Undefined(name.copy()))
        }
    }

    /// Checks an expression.
    fn check_expr(&mut self, e: &Expr) -> (r: Result<Type, TypeError>)
        ensures
            r == check_expr(old(self).env(), *e).0,
            final(self).errors@ == old(self).errors@ + check_expr(old(self).env(), *e).1,
            final(self).scopes == old(self).scopes,
            final(self).function == old(self).function,
            final(self).program == old(self).program,
        decreases e, 0int,
    {
        match e {
            Expr::Binary(b) => self.binary(b),
            Expr::Unary(u) => self.unary(u),
            Expr::Call(c) => self.call(c),
            Expr::Ident(i) => self.ident(i),
            Expr::Access(a) => self.access(a),
            Expr::Init(i) => self.init(i),
            Expr::Bool(..) => {
                assert(old(self).errors@ + Seq::<Diagnostic>::empty() =~= self.errors@);
                Ok(Type::Bool)
            },
            Expr::Int(..) => {
                assert(old(self).errors@ + Seq::<Diagnostic>::empty() =~= self.errors@);
                Ok(Type::Int)
            },
            Expr::Float(..) => {
                assert(old(self).errors@ + Seq::<Diagnostic>::empty() =~= self.errors@);
                Ok(Type::Float)
            },
            Expr::Str(..) => {
                assert(old(self).errors@ + Seq::<Diagnostic>::empty() =~= self.errors@);
                Ok(Type::Str)
            },
        }
    }

    /// An identifier used as a value.
    fn ident(&mut self, id: &Ident) -> (r: Result<Type, TypeError>)
        ensures
            r == ident_rule(old(self).env(), *id).0,
            final(self).errors@ == old(self).errors@ + ident_rule(old(self).env(), *id).1,
            final(self).scopes == old(self).scopes,
            final(self).function == old(self).function,
            final(self).program == old(self).program,
    {
        let found: Option<Type> = match symbol_in(&self.scopes, &id.name) {
            Some(Binding::Function(sig)) => match param_named(&sig.params, &id.name) {
                Some(p) => Some(Type::from_name(&p.ty.name)),
                None => None,
            },
            Some(Binding::Variable(t)) => Some(Type::from_name(&t.name)),
            Some(Binding::Constant(t)) => Some(Type::from_name(&t.name)),
            _ => None,
        };
        match found {
            Some(t) => {
                assert(old(self).errors@ + Seq::<Diagnostic>::empty() =~= self.errors@);
                Ok(t)
            },
            None => {
                self.error(TypeError::Undefined(id.copy()), id.span, Context::Name);
                assert(old(self).errors@ + ident_rule(old(self).env(), *id).1 =~= self.errors@);
                Err(TypeError::Undefined(id.copy()))
            },
        }
    }

    fn unary(&mut self, u: &Unary) -> (r: Result<Type, TypeError>)
        ensures
            r == check_expr(old(self).env(), Expr::Unary(*u)).0,
            final(self).errors@ == old(self).errors@ + check_expr(old(self).env(), Expr::Unary(*u)).1,
            final(self).scopes == old(self).scopes,
            final(self).function == old(self).function,
            final(self).program == old(self).program,
        decreases u, 1int,
    {
        let got = match self.check_expr(&u.right) {
            Ok(t) => t,
            Err(x) => return Err(x),
        };
        let ghost mid = self.errors@;
        let ok = match u.op {
            UnaryOp::Negate => matches!(got, Type::Int | Type::Float),
            UnaryOp::Invert => matches!(got, Type::Bool),
        };
        if ok {
            assert(mid + Seq::<Diagnostic>::empty() =~= mid);
            match u.op {
                UnaryOp::Negate => Ok(got),
                UnaryOp::Invert => Ok(Type::Bool),
            }
        } else {
            let at = u.right.span();
            self.error(TypeError::UnaryMismatch(u.op, got.copy()), at, Context::Operand);
            assert(mid + unary_rule(u.op, got, at).1 =~= self.errors@);
            Err(TypeError::UnaryMismatch(u.op, got))
        }
    }

    fn binary(&mut self, b: &Binary) -> (r: Result<Type, TypeError>)
        ensures
            r == check_expr(old(self).env(), Expr::Binary(*b)).0,
            final(self).errors@ == old(self).errors@ + check_expr(old(self).env(), Expr::Binary(*b)).1,
            final(self).scopes == old(self).scopes,
            final(self).function == old(self).function,
            final(self).program == old(self).program,
        decreases b, 1int,
    {
        let ghost env = self.env();
        let ghost start = self.errors@;
        let lhs = match self.check_expr(&b.left) {
            Ok(t) => t,
            Err(x) => return Err(x),
        };
        let ghost dl = check_expr(env, *b.left).1;
        let rhs = match self.check_expr(&b.right) {
            Ok(t) => t,
            Err(x) => {
                assert(start + dl + check_expr(env, *b.right).1 =~= start + (dl + check_expr(env, *b.right).1));
                return Err(x);
            },
        };
        let ghost dr = check_expr(env, *b.right).1;
        assert(start + dl + dr =~= start + (dl + dr));
        if !lhs.same(&rhs) {
            self.error(TypeError::Mismatch(lhs.copy(), rhs.copy()), b.op_span, Context::Operator(b.op));
            assert(start + (dl + dr + seq![Diagnostic { error: TypeError::Mismatch(lhs, rhs), span: b.op_span, context: Context::Operator(b.op) }]) =~= self.errors@);
            return Err(TypeError::Mismatch(lhs, rhs));
        }
        match b.op {
            crate::ast::BinaryOp::Add | crate::ast::BinaryOp::Sub | crate::ast::BinaryOp::Mul
            | crate::ast::BinaryOp::Div => Ok(lhs),
            _ => Ok(Type::Bool),
        }
    }

    fn call(&mut self, c: &Call) -> (r: Result<Type, TypeError>)
        ensures
            r == check_expr(old(self).env(), Expr::Call(*c)).0,
            final(self).errors@ == old(self).errors@ + check_expr(old(self).env(), Expr::Call(*c)).1,
            final(self).scopes == old(self).scopes,
            final(self).function == old(self).function,
            final(self).program == old(self).program,
        decreases c, 1int,
    {
        let ghost env = self.env();
        let ghost start = self.errors@;
        let found: Option<(Vec<Param>, Option<Ident>)> = match symbol_in(&self.scopes, &c.callee.name) {
            Some(Binding::Function(sig)) => Some((copy_params(&sig.params), copy_opt_ident(&sig.ty))),
            Some(_) => None,
            None => {
                return self.unbound(&c.callee);
            },
        };
        let (params, ty) = match found {
            Some(p) => p,
            None => {
                self.error(TypeError::NotType(c.callee.copy(), Expected::Function), c.callee.span, Context::Name);
                assert(start + check_expr(env, Expr::Call(*c)).1 =~= self.errors@);
                return Err(TypeError::NotType(c.callee.copy(), Expected::Function));
            },
        };
        if params.len() != c.args.len() {
            self.error(TypeError::Arity(params.len(), c.args.len()), c.callee.span, Context::Arity);
        }
        let ghost arity = self.errors@.subrange(start.len() as int, self.errors@.len() as int);
        assert(self.errors@ =~= start + arity);
        let mut i: usize = 0;
        while i < c.args.len()
            invariant
                i <= c.args.len(),
                self.scopes == old(self).scopes,
                self.function == old(self).function,
                self.program == old(self).program,
                env == self.env(),
                self.errors@ == start + arity + check_args(env, params@, c.args@, i as int),
            decreases c.args.len() - i,
        {
            let ghost before = self.errors@;
            let arg = &c.args[i];
            match self.check_expr(arg) {
                Ok(got) => {
                    if i < params.len() {
                        let expected = Type::from_name(&params[i].ty.name);
                        if !expected.same(&got) {
                            let at = arg.span();
                            self.error(TypeError::Mismatch(expected, got), at, Context::Argument);
                        }
                    }
                },
                Err(_) => {},
            }
            proof {
                let ghost d = arg_diags(env, params@, c.args@[i as int], i as int);
                assert(self.errors@ =~= before + d);
                assert(start + arity + check_args(env, params@, c.args@, i as int) + d
                    =~= start + arity + check_args(env, params@, c.args@, i + 1));
            }
            i += 1;
        }
        assert(start + arity + check_args(env, params@, c.args@, c.args@.len() as int)
            =~= start + check_expr(env, Expr::Call(*c)).1);
        Ok(return_type_of(&ty))
    }

    fn init(&mut self, it: &Init) -> (r: Result<Type, TypeError>)
        ensures
            r == check_expr(old(self).env(), Expr::Init(*it)).0,
            final(self).errors@ == old(self).errors@ + check_expr(old(self).env(), Expr::Init(*it)).1,
            final(self).scopes == old(self).scopes,
            final(self).function == old(self).function,
            final(self).program == old(self).program,
        decreases it, 1int,
    {
        let ghost env = self.env();
        let ghost start = self.errors@;
        let found: Option<Vec<Field>> = match symbol_in(&self.scopes, &it.name.name) {
            Some(Binding::Record(fs)) => Some(copy_fields(fs)),
            Some(_) => None,
            None => {
                return self.unbound(&it.name);
            },
        };
        let fields = match found {
            Some(fs) => fs,
            None => {
                self.error(TypeError::NotType(it.name.copy(), Expected::Record), it.name.span, Context::Name);
                assert(start + check_expr(env, Expr::Init(*it)).1 =~= self.errors@);
                return Err(TypeError::NotType(it.name.copy(), Expected::Record));
            },
        };
        assert(start + Seq::<Diagnostic>::empty() =~= start);
        let mut i: usize = 0;
        while i < it.initializers.len()
            invariant
                i <= it.initializers.len(),
                self.scopes == old(self).scopes,
                self.function == old(self).function,
                self.program == old(self).program,
                env == self.env(),
                self.errors@ == start + check_inits(env, fields@, it.name, it.initializers@, i as int),
            decreases it.initializers.len() - i,
        {
            let ghost before = self.errors@;
            let fi = &it.initializers[i];
            match field_named(&fields, &fi.name.name) {
                None => {
                    self.error(
                        TypeError::NotProperty(fi.name.copy(), Type::from_name(&it.name.name)),
                        fi.name.span,
                        Context::FieldInit,
                    );
                },
                Some(f) => match self.check_expr(&fi.expr) {
                    Ok(got) => {
                        let expected = Type::from_name(&f.ty.name);
                        if !expected.same(&got) {
                            let at = fi.expr.span();
                            self.error(TypeError::Mismatch(expected, got), at, Context::FieldInit);
                        }
                    },
                    Err(_) => {},
                },
            }
            proof {
                let ghost d = init_diags(env, fields@, it.name, it.initializers@[i as int]);
                assert(self.errors@ =~= before + d);
                assert(start + check_inits(env, fields@, it.name, it.initializers@, i as int) + d
                    =~= start + check_inits(env, fields@, it.name, it.initializers@, i + 1));
            }
            i += 1;
        }
        Ok(Type::from_name(&it.name.name))
    }

    fn access(&mut self, a: &Access) -> (r: Result<Type, TypeError>)
        ensures
            r == check_expr(old(self).env(), Expr::Access(*a)).0,
            final(self).errors@ == old(self).errors@ + check_expr(old(self).env(), Expr::Access(*a)).1,
            final(self).scopes == old(self).scopes,
            final(self).function == old(self).function,
            final(self).program == old(self).program,
        decreases a, 1int,
    {
        let ghost env = self.env();
        let ghost start = self.errors@;
        let mut t = match self.check_expr(&a.head) {
            Ok(t) => t,
            Err(x) => return Err(x),
        };
        let ghost t0 = t;
        let ghost mid = self.errors@;
        let mut i: usize = 0;
        while i < a.fields.len()
            invariant
                i <= a.fields.len(),
                self.scopes == old(self).scopes,
                self.function == old(self).function,
                self.program == old(self).program,
                env == self.env(),
                self.errors@ == mid,
                start == old(self).errors@,
                mid == start + check_expr(env, *a.head).1,
                check_expr(env, *a.head).0 == Ok::<Type, TypeError>(t0),
                access_rule(env, t0, a.fields@, 0) == access_rule(env, t, a.fields@, i as int),
            decreases a.fields.len() - i,
        {
            let step: Option<Type> = match record_fields_in(&self.scopes, &t) {
                Some(fs) => match field_named(fs, &a.fields[i].name) {
                    Some(f) => Some(Type::from_name(&f.ty.name)),
                    None => None,
                },
                None => None,
            };
            match step {
                Some(next) => {
                    t = next;
                },
                None => {
                    let id = a.fields[i].copy();
                    self.error(TypeError::NotProperty(id.copy(), t.copy()), id.span, Context::Access);
                    assert(access_rule(env, t, a.fields@, i as int) == (
                        Err::<Type, TypeError>(TypeError::NotProperty(id, t)),
                        seq![Diagnostic { error: TypeError::NotProperty(id, t), span: id.span, context: Context::Access }],
                    ));
                    assert(start + check_expr(env, Expr::Access(*a)).1 =~= self.errors@);
                    return Err(TypeError::NotProperty(id, t));
                },
            }
            i += 1;
        }
        assert(start + check_expr(env, Expr::Access(*a)).1 =~= self.errors@);
        Ok(t)
    }

    /// Checks `e` against the type `expected`, recording a mismatch.
    fn expect(&mut self, expected: &Type, e: &Expr, context: Context) -> (r: Result<Type, TypeError>)
        ensures
            r == check_expr(old(self).env(), *e).0,
            final(self).errors@ == old(self).errors@ + expect_rule(old(self).env(), *expected, *e, context),
            final(self).scopes == old(self).scopes,
            final(self).function == old(self).function,
            final(self).program == old(self).program,
    {
        let ghost start = self.errors@;
        let r = self.check_expr(e);
        match &r {
            Ok(got) => {
                if !expected.same(got) {
                    let at = e.span();
                    self.error(TypeError::Mismatch(expected.copy(), got.copy()), at, context);
                    assert(start + expect_rule(old(self).env(), *expected, *e, context) =~= self.errors@);
                }
            },
            Err(_) => {},
        }
        r
    }

    fn ret(&mut self, e: &Expr) -> (r: Result<Type, TypeError>)
        requires
            old(self).function is Some,
        ensures
            r == expect_result(old(self).env(), old(self).function->Some_0, *e),
            final(self).errors@ == old(self).errors@ + expect_rule(
                old(self).env(),
                old(self).function->Some_0,
                *e,
                Context::Return,
            ),
            final(self).scopes == old(self).scopes,
            final(self).function == old(self).function,
            final(self).program == old(self).program,
    {
        let expected = match &self.function {
            Some(t) => t.copy(),
            None => Type::Void,
        };
        let got = match self.expect(&expected, e, Context::Return) {
            Ok(g) => g,
            Err(x) => return Err(x),
        };
        if expected.same(&got) {
            Ok(got)
        } else {
            Err(TypeError::Mismatch(expected, got))
        }
    }

    fn var(&mut self, v: &VarDecl) -> (r: Result<Type, TypeError>)
        requires
            old(self).scopes.len() > 0,
        ensures
            r == declared_result(old(self).env(), v.ty, v.expr),
            final(self).env() == stmt_rule(old(self).env(), Stmt::Var(*v), Type::Void).0,
            final(self).errors@ == old(self).errors@ + stmt_rule(old(self).env(), Stmt::Var(*v), Type::Void).1,
            final(self).env().len() == old(self).env().len(),
            final(self).env().drop_last() == old(self).env().drop_last(),
            final(self).function == old(self).function,
            final(self).program == old(self).program,
    {
        let expected = Type::from_name(&v.ty.name);
        match self.expect(&expected, &v.expr, Context::Initializer) {
            Ok(_) => {
                self.scope_mut(v.name.name.clone(), Binding::Variable(v.ty.copy()));
                Ok(expected)
            },
            Err(x) => {
                Err(x)
            },
        }
    }

    fn assign(&mut self, a: &Assign) -> (r: Result<Type, TypeError>)
        ensures
            r == stmt_result(old(self).env(), Stmt::Assign(*a), Type::Void),
            final(self).errors@ == old(self).errors@ + stmt_rule(old(self).env(), Stmt::Assign(*a), Type::Void).1,
            final(self).scopes == old(self).scopes,
            final(self).function == old(self).function,
            final(self).program == old(self).program,
    {
        let ghost start = self.errors@;
        let expected = match self.check_expr(&a.target) {
            Ok(t) => t,
            Err(x) => return Err(x),
        };
        let r = self.expect(&expected, &a.expr, Context::Assignment);
        assert(start + stmt_rule(old(self).env(), Stmt::Assign(*a), Type::Void).1 =~= self.errors@);
        match r {
            Ok(_) => Ok(Type::Void),
            Err(x) => Err(x),
        }
    }

    /// Checks one statement of a function body.
    fn stmt(&mut self, s: &Stmt) -> (r: Result<Type, TypeError>)
        requires
            old(self).function is Some,
            old(self).scopes.len() > 0,
        ensures
            r == stmt_result(old(self).env(), *s, old(self).function->Some_0),
            final(self).env() == stmt_rule(old(self).env(), *s, old(self).function->Some_0).0,
            final(self).errors@ == old(self).errors@ + stmt_rule(
                old(self).env(),
                *s,
                old(self).function->Some_0,
            ).1,
            final(self).env().len() == old(self).env().len(),
            final(self).env().drop_last() == old(self).env().drop_last(),
            final(self).scopes.len() == old(self).scopes.len(),
            final(self).function == old(self).function,
            final(self).program == old(self).program,
    {
        match s {
            Stmt::Return(e) => self.ret(e),
            Stmt::Expr(e) => self.check_expr(e),
            Stmt::Var(v) => self.var(v),
            Stmt::Assign(a) => self.assign(a),
        }
    }

    fn function(&mut self, f: &FuncDecl) -> (r: Result<Type, TypeError>)
        ensures
            r == Ok::<Type, TypeError>(Type::Void),
            final(self).errors@ == old(self).errors@ + function_rule(old(self).env(), *f),
            final(self).env() == old(self).env(),
            final(self).function is None,
            final(self).program == old(self).program,
    {
        let ghost env = self.env();
        let ghost start = self.errors@;
        if is_word(&f.name.name, "main") {
            match &f.ty {
                Some(t) => {
                    let ty = Type::from_name(&t.name);
                    if !ty.same(&Type::Void) {
                        self.error(TypeError::MainReturn(ty), t.span, Context::Main);
                    }
                },
                None => {},
            }
        }
        let ghost after_main = self.errors@;
        assert(after_main =~= start + main_rule(*f));
        self.begin_scope();
        assert(param_scope(*f).subrange(0, 0) =~= Seq::empty());
        let mut k: usize = 0;
        while k < f.params.len()
            invariant
                k <= f.params.len(),
                self.errors@ == after_main,
                self.program == old(self).program,
                self.scopes.len() == env.len() + 1,
                self.env() == env.push(param_scope(*f).subrange(0, k as int)),
            decreases f.params.len() - k,
        {
            let sig = Signature { params: copy_params(&f.params), ty: copy_opt_ident(&f.ty) };
            self.scope_mut(f.params[k].name.name.clone(), Binding::Function(sig));
            assert(param_scope(*f).subrange(0, k + 1) =~= param_scope(*f).subrange(0, k as int).push(
                (f.params@[k as int].name.name, BindingView::Function { params: f.params@, ty: f.ty }),
            ));
            assert(self.env() =~= env.push(param_scope(*f).subrange(0, k + 1)));
            k += 1;
        }
        let ghost inner = env.push(param_scope(*f));
        assert(param_scope(*f).subrange(0, f.params@.len() as int) =~= param_scope(*f));
        let ret = return_type_of(&f.ty);
        self.function = Some(ret);
        assert(after_main + Seq::<Diagnostic>::empty() =~= after_main);
        let mut i: usize = 0;
        while i < f.body.len()
            invariant
                i <= f.body.len(),
                self.program == old(self).program,
                self.function == Some(return_type(f.ty)),
                self.scopes.len() == env.len() + 1,
                self.env().len() == env.len() + 1,
                self.env().drop_last() == env,
                self.env() == body_rule(inner, f.body@, return_type(f.ty), i as int).0,
                self.errors@ == after_main + body_rule(inner, f.body@, return_type(f.ty), i as int).1,
            decreases f.body.len() - i,
        {
            let _ = self.stmt(&f.body[i]);
            assert(after_main + body_rule(inner, f.body@, return_type(f.ty), i as int).1
                + stmt_rule(body_rule(inner, f.body@, return_type(f.ty), i as int).0, f.body@[i as int], return_type(f.ty)).1
                =~= after_main + body_rule(inner, f.body@, return_type(f.ty), i + 1).1);
            i += 1;
        }
        self.end_scope();
        self.function = None;
        assert(start + function_rule(env, *f) =~= self.errors@);
        Ok(Type::Void)
    }

    fn constant(&mut self, c: &ConstantDecl) -> (r: Result<Type, TypeError>)
        ensures
            r == declared_result(old(self).env(), c.ty, c.expr),
            final(self).errors@ == old(self).errors@ + expect_rule(old(self).env(), type_named(c.ty.name), c.expr, Context::Initializer),
            final(self).scopes == old(self).scopes,
            final(self).function == old(self).function,
            final(self).program == old(self).program,
    {
        let expected = Type::from_name(&c.ty.name);
        match self.expect(&expected, &c.expr, Context::Initializer) {
            Ok(_) => Ok(expected),
            Err(x) => Err(x),
        }
    }

    /// Checks one top-level declaration.
    fn decl(&mut self, d: &Decl) -> (r: Result<Type, TypeError>)
        ensures
            r == decl_result(old(self).env(), *d),
            final(self).errors@ == old(self).errors@ + decl_rule(old(self).env(), *d),
            final(self).env() == old(self).env(),
            final(self).program == old(self).program,
    {
        match d {
            Decl::Function(f) => self.function(f),
            Decl::Constant(c) => self.constant(c),
            Decl::Record(_) => {
                assert(old(self).errors@ + Seq::<Diagnostic>::empty() =~= self.errors@);
                Ok(Type::Void)
            },
        }
    }
}

} // verus!
