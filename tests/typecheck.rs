use kyanite_core::ast::{
    Access, Assign, Binary, BinaryOp, Call, ConstantDecl, Decl, Expr, Field, FieldInit, FuncDecl,
    Ident, Init, Param, RecordDecl, Span, Stmt, Type, Unary, UnaryOp, VarDecl,
};
use kyanite_core::builtins::Builtins;
use kyanite_core::rules::{Context, Diagnostic, Expected, TypeError};
use kyanite_core::symbol::SymbolTable;
use kyanite_core::typecheck::TypeCheckPass;

fn sp(start: usize) -> Span {
    Span { start, end: start + 1 }
}

fn id(name: &str) -> Ident {
    Ident::new(name.to_string(), sp(0))
}

fn id_at(name: &str, at: usize) -> Ident {
    Ident::new(name.to_string(), sp(at))
}

fn int_lit(v: i64) -> Expr {
    Expr::Int(v, sp(0))
}

fn string(v: &str) -> Expr {
    Expr::Str(v.to_string(), sp(0))
}

fn name(n: &str) -> Expr {
    Expr::Ident(id(n))
}

fn bin(left: Expr, op: BinaryOp, right: Expr) -> Expr {
    Expr::Binary(Binary { left: Box::new(left), op, op_span: sp(7), right: Box::new(right) })
}

fn call(callee: &str, args: Vec<Expr>) -> Expr {
    Expr::Call(Call { callee: id(callee), args })
}

fn param(n: &str, ty: &str) -> Param {
    Param { name: id(n), ty: id(ty) }
}

fn func(n: &str, params: Vec<Param>, ty: Option<&str>, body: Vec<Stmt>) -> Decl {
    Decl::Function(FuncDecl { name: id(n), params, ty: ty.map(id), body })
}

fn constant(n: &str, ty: &str, expr: Expr) -> Decl {
    Decl::Constant(ConstantDecl { name: id(n), ty: id(ty), expr })
}

fn record(n: &str, fields: Vec<(&str, &str)>) -> Decl {
    Decl::Record(RecordDecl {
        name: id(n),
        fields: fields.into_iter().map(|(f, t)| Field { name: id(f), ty: id(t) }).collect(),
    })
}

fn var(n: &str, ty: &str, expr: Expr) -> Stmt {
    Stmt::Var(VarDecl { name: id(n), ty: id(ty), expr })
}

fn check(program: &Vec<Decl>) -> (Result<(), usize>, Vec<TypeError>) {
    let table = SymbolTable::from_program(program);
    let mut pass = TypeCheckPass::new(table, program);
    let r = pass.run();
    let errs: Vec<TypeError> = pass.errors().iter().map(|d: &Diagnostic| clone_err(&d.error)).collect();
    (r, errs)
}

fn clone_err(e: &TypeError) -> TypeError {
    match e {
        TypeError::Undefined(i) => TypeError::Undefined(i.copy()),
        TypeError::NotType(i, k) => TypeError::NotType(i.copy(), *k),
        TypeError::UnaryMismatch(o, t) => TypeError::UnaryMismatch(*o, t.copy()),
        TypeError::Mismatch(a, b) => TypeError::Mismatch(a.copy(), b.copy()),
        TypeError::NotProperty(i, t) => TypeError::NotProperty(i.copy(), t.copy()),
        TypeError::Arity(a, b) => TypeError::Arity(*a, *b),
        TypeError::MainReturn(t) => TypeError::MainReturn(t.copy()),
    }
}

fn point_program(extra: Vec<Stmt>) -> Vec<Decl> {
    vec![
        record("Point", vec![("x", "Int"), ("y", "Int")]),
        record("Line", vec![("start", "Point"), ("label", "Str")]),
        func("main", vec![], None, extra),
    ]
}

#[test]
fn const_initializer_mismatch() {
    let program = vec![constant("X", "Int", string("hello"))];
    let (r, errs) = check(&program);
    assert_eq!(r, Err(1));
    assert_eq!(errs.len(), 1);
    assert!(matches!(errs[0], TypeError::Mismatch(Type::Int, Type::Str)));
}

#[test]
fn call_with_too_few_arguments() {
    let add = func(
        "add",
        vec![param("a", "Int"), param("b", "Int")],
        Some("Int"),
        vec![Stmt::Return(bin(name("a"), BinaryOp::Add, name("b")))],
    );
    let main = func("main", vec![], None, vec![Stmt::Expr(call("add", vec![int_lit(1)]))]);
    let program = vec![add, main];
    let (r, errs) = check(&program);
    assert_eq!(r, Err(1));
    assert_eq!(errs.len(), 1);
    assert!(matches!(errs[0], TypeError::Arity(2, 1)));
}

#[test]
fn main_with_non_void_return_type() {
    let program = vec![func("main", vec![], Some("Int"), vec![Stmt::Expr(int_lit(3))])];
    let (r, errs) = check(&program);
    assert_eq!(r, Err(1));
    assert_eq!(errs.len(), 1);
    assert!(matches!(errs[0], TypeError::MainReturn(Type::Int)));
}

#[test]
fn main_with_void_return_type_is_fine() {
    let program = vec![func("main", vec![], Some("Void"), vec![])];
    assert_eq!(check(&program).0, Ok(()));
}

#[test]
fn well_typed_program_succeeds() {
    let add = func(
        "add",
        vec![param("a", "Int"), param("b", "Int")],
        Some("Int"),
        vec![
            var("c", "Int", bin(name("a"), BinaryOp::Mul, name("b"))),
            Stmt::Return(bin(name("c"), BinaryOp::Sub, int_lit(1))),
        ],
    );
    let main = func(
        "main",
        vec![],
        None,
        vec![
            var("s", "Int", call("add", vec![int_lit(1), int_lit(2)])),
            var("ok", "Bool", bin(name("s"), BinaryOp::Less, name("LIMIT"))),
            Stmt::Assign(Assign { target: name("s"), expr: int_lit(4) }),
            Stmt::Expr(call("println", vec![string("done")])),
        ],
    );
    let program = vec![constant("LIMIT", "Int", int_lit(10)), add, main];
    let (r, errs) = check(&program);
    assert_eq!(r, Ok(()));
    assert!(errs.is_empty());
}

#[test]
fn each_binary_mismatch_reported_once() {
    let main = func(
        "main",
        vec![],
        None,
        vec![
            Stmt::Expr(bin(int_lit(1), BinaryOp::Add, string("a"))),
            Stmt::Expr(bin(Expr::Bool(true, sp(0)), BinaryOp::Eq, int_lit(2))),
        ],
    );
    let (r, errs) = check(&vec![main]);
    assert_eq!(r, Err(2));
    assert!(matches!(errs[0], TypeError::Mismatch(Type::Int, Type::Str)));
    assert!(matches!(errs[1], TypeError::Mismatch(Type::Bool, Type::Int)));
}

#[test]
fn nested_mismatch_reports_only_innermost() {
    let inner = bin(int_lit(1), BinaryOp::Add, string("a"));
    let main = func("main", vec![], None, vec![Stmt::Expr(bin(inner, BinaryOp::Mul, int_lit(3)))]);
    let (r, _) = check(&vec![main]);
    assert_eq!(r, Err(1));
}

#[test]
fn comparison_yields_bool() {
    let main = func(
        "main",
        vec![],
        None,
        vec![var("b", "Int", bin(int_lit(1), BinaryOp::GreaterEq, int_lit(2)))],
    );
    let (_, errs) = check(&vec![main]);
    assert_eq!(errs.len(), 1);
    assert!(matches!(errs[0], TypeError::Mismatch(Type::Int, Type::Bool)));
}

#[test]
fn unknown_field_in_initializer() {
    let init = Expr::Init(Init {
        name: id("Point"),
        initializers: vec![
            FieldInit { name: id("x"), expr: string("no") },
            FieldInit { name: id_at("z", 42), expr: int_lit(1) },
            FieldInit { name: id("y"), expr: Expr::Bool(false, sp(0)) },
        ],
    });
    let program = point_program(vec![var("p", "Point", init)]);
    let (r, errs) = check(&program);
    assert_eq!(r, Err(3));
    assert!(matches!(errs[0], TypeError::Mismatch(Type::Int, Type::Str)));
    match &errs[1] {
        TypeError::NotProperty(f, Type::Record(rec)) => {
            assert_eq!(f.name, "z");
            assert_eq!(f.span, sp(42));
            assert_eq!(rec, "Point");
        },
        other => panic!("unexpected {:?}", other),
    }
    assert!(matches!(errs[2], TypeError::Mismatch(Type::Int, Type::Bool)));
}

#[test]
fn arity_error_still_checks_arguments() {
    let add = func("add", vec![param("a", "Int"), param("b", "Int")], Some("Int"), vec![]);
    let main = func(
        "main",
        vec![],
        None,
        vec![Stmt::Expr(call("add", vec![string("x"), int_lit(2), bin(int_lit(1), BinaryOp::Add, string("q"))]))],
    );
    let (r, errs) = check(&vec![add, main]);
    assert_eq!(r, Err(3));
    assert!(matches!(errs[0], TypeError::Arity(2, 3)));
    assert!(matches!(errs[1], TypeError::Mismatch(Type::Int, Type::Str)));
    assert!(matches!(errs[2], TypeError::Mismatch(Type::Int, Type::Str)));
}

#[test]
fn local_is_undefined_after_its_function() {
    let f = func("f", vec![param("p", "Int")], None, vec![var("local", "Int", int_lit(1))]);
    let g = func("g", vec![], None, vec![Stmt::Expr(name("local")), Stmt::Expr(name("p"))]);
    let (r, errs) = check(&vec![f, g]);
    assert_eq!(r, Err(2));
    assert!(matches!(&errs[0], TypeError::Undefined(i) if i.name == "local"));
    assert!(matches!(&errs[1], TypeError::Undefined(i) if i.name == "p"));
}

#[test]
fn parameters_resolve_to_their_types() {
    let f = func(
        "f",
        vec![param("s", "Str"), param("n", "Int")],
        Some("Str"),
        vec![Stmt::Return(name("n"))],
    );
    let (_, errs) = check(&vec![f]);
    assert_eq!(errs.len(), 1);
    assert!(matches!(errs[0], TypeError::Mismatch(Type::Str, Type::Int)));
}

#[test]
fn unary_operators() {
    let neg_str = Expr::Unary(Unary { op: UnaryOp::Negate, op_span: sp(0), right: Box::new(string("a")) });
    let not_int = Expr::Unary(Unary { op: UnaryOp::Invert, op_span: sp(0), right: Box::new(int_lit(1)) });
    let neg_int = Expr::Unary(Unary { op: UnaryOp::Negate, op_span: sp(0), right: Box::new(int_lit(1)) });
    let main = func(
        "main",
        vec![],
        None,
        vec![Stmt::Expr(neg_str), Stmt::Expr(not_int), var("k", "Int", neg_int)],
    );
    let (r, errs) = check(&vec![main]);
    assert_eq!(r, Err(2));
    assert!(matches!(errs[0], TypeError::UnaryMismatch(UnaryOp::Negate, Type::Str)));
    assert!(matches!(errs[1], TypeError::UnaryMismatch(UnaryOp::Invert, Type::Int)));
}

#[test]
fn calling_a_non_function() {
    let main = func("main", vec![], None, vec![Stmt::Expr(call("C", vec![]))]);
    let (_, errs) = check(&vec![constant("C", "Int", int_lit(1)), main]);
    assert_eq!(errs.len(), 1);
    assert!(matches!(&errs[0], TypeError::NotType(i, Expected::Function) if i.name == "C"));
}

#[test]
fn initializing_a_non_record() {
    let init = Expr::Init(Init { name: id("C"), initializers: vec![] });
    let main = func("main", vec![], None, vec![Stmt::Expr(init)]);
    let (_, errs) = check(&vec![constant("C", "Int", int_lit(1)), main]);
    assert_eq!(errs.len(), 1);
    assert!(matches!(&errs[0], TypeError::NotType(i, Expected::Record) if i.name == "C"));
}

#[test]
fn undefined_call_and_builtin_names() {
    let main = func(
        "main",
        vec![],
        None,
        vec![
            Stmt::Expr(call("nope", vec![])),
            Stmt::Expr(call("max", vec![int_lit(1), int_lit(2)])),
            Stmt::Expr(call("min", vec![int_lit(1), int_lit(2)])),
        ],
    );
    let (r, errs) = check(&vec![main]);
    assert_eq!(r, Err(1));
    assert!(matches!(&errs[0], TypeError::Undefined(i) if i.name == "nope"));
}

#[test]
fn access_chain_through_nested_records() {
    let line = Expr::Init(Init {
        name: id("Line"),
        initializers: vec![
            FieldInit {
                name: id("start"),
                expr: Expr::Init(Init {
                    name: id("Point"),
                    initializers: vec![
                        FieldInit { name: id("x"), expr: int_lit(1) },
                        FieldInit { name: id("y"), expr: int_lit(2) },
                    ],
                }),
            },
            FieldInit { name: id("label"), expr: string("l") },
        ],
    });
    let good = Expr::Access(Access { head: Box::new(name("l")), fields: vec![id("start"), id("x")] });
    let bad = Expr::Access(Access { head: Box::new(name("l")), fields: vec![id("start"), id_at("w", 9)] });
    let prim = Expr::Access(Access { head: Box::new(name("n")), fields: vec![id("x")] });
    let program = point_program(vec![
        var("l", "Line", line),
        var("n", "Int", good),
        Stmt::Expr(bad),
        Stmt::Expr(prim),
    ]);
    let (r, errs) = check(&program);
    assert_eq!(r, Err(2));
    match &errs[0] {
        TypeError::NotProperty(f, Type::Record(rec)) => {
            assert_eq!(f.name, "w");
            assert_eq!(rec, "Point");
        },
        other => panic!("unexpected {:?}", other),
    }
    assert!(matches!(&errs[1], TypeError::NotProperty(f, Type::Int) if f.name == "x"));
}

#[test]
fn assignment_mismatch() {
    let main = func(
        "main",
        vec![],
        None,
        vec![var("v", "Int", int_lit(1)), Stmt::Assign(Assign { target: name("v"), expr: string("s") })],
    );
    let (_, errs) = check(&vec![main]);
    assert_eq!(errs.len(), 1);
    assert!(matches!(errs[0], TypeError::Mismatch(Type::Int, Type::Str)));
}

#[test]
fn variable_bound_after_mismatched_initializer() {
    let main = func(
        "main",
        vec![],
        None,
        vec![var("v", "Int", string("s")), Stmt::Expr(bin(name("v"), BinaryOp::Add, int_lit(1)))],
    );
    let (r, _) = check(&vec![main]);
    assert_eq!(r, Err(1));
}

#[test]
fn builtins_are_bound_first() {
    let mut table = SymbolTable::new();
    let builtins = vec![func("clock", vec![], Some("Int"), vec![])];
    let _ = Builtins::new(&mut table, &builtins);
    let program = vec![func("main", vec![], None, vec![var("t", "Int", call("clock", vec![]))])];
    table.declare_each(&program);
    let mut pass = TypeCheckPass::new(table, &program);
    assert_eq!(pass.run(), Ok(()));
    assert!(pass.errors().is_empty());
}

#[test]
fn type_names_convert() {
    assert!(matches!(Type::from_name(&"Float".to_string()), Type::Float));
    assert!(matches!(Type::from_name(&"Bool".to_string()), Type::Bool));
    assert!(matches!(Type::from_name(&"Void".to_string()), Type::Void));
    assert!(matches!(Type::from_name(&"Thing".to_string()), Type::Record(n) if n == "Thing"));
    assert!(Type::Int.same(&Type::Int));
    assert!(!Type::Record("A".to_string()).same(&Type::Record("B".to_string())));
}

#[test]
fn empty_program_succeeds() {
    let (r, errs) = check(&vec![]);
    assert_eq!(r, Ok(()));
    assert!(errs.is_empty());
}

#[test]
fn diagnostics_carry_context_and_span() {
    let program = vec![
        func("f", vec![], Some("Str"), vec![Stmt::Return(int_lit(1))]),
        func(
            "main",
            vec![],
            None,
            vec![Stmt::Expr(bin(int_lit(1), BinaryOp::Div, string("a")))],
        ),
    ];
    let table = SymbolTable::from_program(&program);
    let mut pass = TypeCheckPass::new(table, &program);
    assert_eq!(pass.run(), Err(2));
    let errs = pass.errors();
    assert_eq!(errs[0].context, Context::Return);
    assert_eq!(errs[1].context, Context::Operator(BinaryOp::Div));
    assert_eq!(errs[1].span, sp(7));
}

#[test]
fn unknown_field_expression_is_not_checked() {
    let init = Expr::Init(Init {
        name: id("Point"),
        initializers: vec![
            FieldInit { name: id_at("z", 5), expr: name("missing") },
            FieldInit { name: id("x"), expr: int_lit(1) },
            FieldInit { name: id("y"), expr: int_lit(2) },
        ],
    });
    let program = point_program(vec![var("p", "Point", init)]);
    let (r, errs) = check(&program);
    assert_eq!(r, Err(1));
    assert!(matches!(&errs[0], TypeError::NotProperty(f, Type::Record(rec)) if f.name == "z" && rec == "Point"));
}

#[test]
fn return_mismatch_reported_once_and_body_continues() {
    let f = func(
        "f",
        vec![],
        Some("Int"),
        vec![Stmt::Return(string("s")), Stmt::Return(Expr::Bool(true, sp(0))), Stmt::Return(int_lit(3))],
    );
    let (r, errs) = check(&vec![f]);
    assert_eq!(r, Err(2));
    assert!(matches!(errs[0], TypeError::Mismatch(Type::Int, Type::Str)));
    assert!(matches!(errs[1], TypeError::Mismatch(Type::Int, Type::Bool)));
}
