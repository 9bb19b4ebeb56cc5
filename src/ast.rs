//! The parsed program that the pass consumes, and the semantic types.
use vstd::prelude::*;

verus! {

/// A range of source positions, used to anchor diagnostics.
#[derive(Clone, Copy, Debug, PartialEq, Eq, Structural)]
pub struct Span {
    pub start: usize,
    pub end: usize,
}

/// An identifier token: its text and where it stands.
#[derive(Debug)]
pub struct Ident {
    pub name: String,
    pub span: Span,
}

impl Ident {
    pub fn new(name: String, span: Span) -> (r: Ident)
        ensures
            r.name == name,
            r.span == span,
    {
        Ident { name, span }
    }

    /// A copy equal to `self`.
    pub fn copy(&self) -> (r: Ident)
        ensures
            r == *self,
    {
        Ident { name: self.name.clone(), span: self.span }
    }
}

/// Copies an optional identifier.
pub fn copy_opt_ident(o: &Option<Ident>) -> (r: Option<Ident>)
    ensures
        r == *o,
{
    match o {
        Some(i) => Some(i.copy()),
        None => None,
    }
}

#[derive(Clone, Copy, Debug, PartialEq, Eq, Structural)]
pub enum BinaryOp {
    Add,
    Sub,
    Mul,
    Div,
    Eq,
    NotEq,
    Less,
    LessEq,
    Greater,
    GreaterEq,
}

impl BinaryOp {
    /// `+ - * /`: these yield the operand type, the others yield `Bool`.
    pub open spec fn is_arithmetic(self) -> bool {
        matches!(self, BinaryOp::Add | BinaryOp::Sub | BinaryOp::Mul | BinaryOp::Div)
    }
}

#[derive(Clone, Copy, Debug, PartialEq, Eq, Structural)]
pub enum UnaryOp {
    Negate,
    Invert,
}

#[derive(Debug)]
pub struct Binary {
    pub left: Box<Expr>,
    pub op: BinaryOp,
    /// Where the operator stands.
    pub op_span: Span,
    pub right: Box<Expr>,
}

#[derive(Debug)]
pub struct Unary {
    pub op: UnaryOp,
    pub op_span: Span,
    pub right: Box<Expr>,
}

/// A call; the callee is a bare name.
#[derive(Debug)]
pub struct Call {
    pub callee: Ident,
    pub args: Vec<Expr>,
}

/// A member access chain `head.f1.f2...`.
#[derive(Debug)]
pub struct Access {
    pub head: Box<Expr>,
    pub fields: Vec<Ident>,
}

/// One `field: expr` of a record initializer.
#[derive(Debug)]
pub struct FieldInit {
    pub name: Ident,
    pub expr: Expr,
}

/// A record initializer `Name { field: expr, ... }`.
#[derive(Debug)]
pub struct Init {
    pub name: Ident,
    pub initializers: Vec<FieldInit>,
}

#[derive(Debug)]
pub enum Expr {
    Binary(Binary),
    Unary(Unary),
    Call(Call),
    Ident(Ident),
    Access(Access),
    Init(Init),
    Bool(bool, Span),
    Int(i64, Span),
    /// A floating-point literal, kept as its source text.
    Float(String, Span),
    Str(String, Span),
}

impl Expr {
    pub open spec fn spec_span(self) -> Span
        decreases self,
    {
        match self {
            Expr::Binary(b) => b.op_span,
            Expr::Unary(u) => u.op_span,
            Expr::Call(c) => c.callee.span,
            Expr::Ident(i) => i.span,
            Expr::Access(a) => a.head.spec_span(),
            Expr::Init(i) => i.name.span,
            Expr::Bool(_, s) => s,
            Expr::Int(_, s) => s,
            Expr::Float(_, s) => s,
            Expr::Str(_, s) => s,
        }
    }

    /// The span a diagnostic about this expression points at.
    pub fn span(&self) -> (r: Span)
        ensures
            r == self.spec_span(),
        decreases self,
    {
        match self {
            Expr::Binary(b) => b.op_span,
            Expr::Unary(u) => u.op_span,
            Expr::Call(c) => c.callee.span,
            Expr::Ident(i) => i.span,
            Expr::Access(a) => a.head.span(),
            Expr::Init(i) => i.name.span,
            Expr::Bool(_, s) => *s,
            Expr::Int(_, s) => *s,
            Expr::Float(_, s) => *s,
            Expr::Str(_, s) => *s,
        }
    }
}

#[derive(Debug)]
pub struct VarDecl {
    pub name: Ident,
    pub ty: Ident,
    pub expr: Expr,
}

#[derive(Debug)]
pub struct Assign {
    pub target: Expr,
    pub expr: Expr,
}

#[derive(Debug)]
pub enum Stmt {
    Return(Expr),
    Expr(Expr),
    Var(VarDecl),
    Assign(Assign),
}

#[derive(Debug)]
pub struct Param {
    pub name: Ident,
    pub ty: Ident,
}

impl Param {
    pub fn copy(&self) -> (r: Param)
        ensures
            r == *self,
    {
        Param { name: self.name.copy(), ty: self.ty.copy() }
    }
}

#[derive(Debug)]
pub struct Field {
    pub name: Ident,
    pub ty: Ident,
}

impl Field {
    pub fn copy(&self) -> (r: Field)
        ensures
            r == *self,
    {
        Field { name: self.name.copy(), ty: self.ty.copy() }
    }
}

#[derive(Debug)]
pub struct FuncDecl {
    pub name: Ident,
    pub params: Vec<Param>,
    /// The declared return type; absent means `Void`.
    pub ty: Option<Ident>,
    pub body: Vec<Stmt>,
}

#[derive(Debug)]
pub struct ConstantDecl {
    pub name: Ident,
    pub ty: Ident,
    pub expr: Expr,
}

#[derive(Debug)]
pub struct RecordDecl {
    pub name: Ident,
    pub fields: Vec<Field>,
}

#[derive(Debug)]
pub enum Decl {
    Function(FuncDecl),
    Constant(ConstantDecl),
    Record(RecordDecl),
}

/// A semantic type.
#[derive(Debug)]
pub enum Type {
    Void,
    Bool,
    Int,
    Float,
    Str,
    Record(String),
}

/// Two types are the same when they are the same primitive, or records of the same name.
pub open spec fn same_type(a: Type, b: Type) -> bool {
    match (a, b) {
        (Type::Void, Type::Void) => true,
        (Type::Bool, Type::Bool) => true,
        (Type::Int, Type::Int) => true,
        (Type::Float, Type::Float) => true,
        (Type::Str, Type::Str) => true,
        (Type::Record(x), Type::Record(y)) => x@ == y@,
        _ => false,
    }
}

/// The semantic type that a type annotation names: a primitive name gives the
/// primitive, any other name a record reference.
pub open spec fn type_named(n: String) -> Type {
    if n@ == "Void"@ {
        Type::Void
    } else if n@ == "Bool"@ {
        Type::Bool
    } else if n@ == "Int"@ {
        Type::Int
    } else if n@ == "Float"@ {
        Type::Float
    } else if n@ == "Str"@ {
        Type::Str
    } else {
        Type::Record(n)
    }
}

/// Whether `s` holds exactly the text `w`.
pub fn is_word(s: &String, w: &str) -> (r: bool)
    ensures
        r == (s@ == w@),
{
    let o = w.to_owned();
    *s == o
}

impl Type {
    /// Converts a type annotation into a semantic type.
    pub fn from_name(n: &String) -> (r: Type)
        ensures
            r == type_named(*n),
    {
        if is_word(n, "Void") {
            Type::Void
        } else if is_word(n, "Bool") {
            Type::Bool
        } else if is_word(n, "Int") {
            Type::Int
        } else if is_word(n, "Float") {
            Type::Float
        } else if is_word(n, "Str") {
            Type::Str
        } else {
            Type::Record(n.clone())
        }
    }

    /// A copy equal to `self`.
    pub fn copy(&self) -> (r: Type)
        ensures
            r == *self,
    {
        match self {
            Type::Void => Type::Void,
            Type::Bool => Type::Bool,
            Type::Int => Type::Int,
            Type::Float => Type::Float,
            Type::Str => Type::Str,
            Type::Record(n) => Type::Record(n.clone()),
        }
    }

    /// Structural type equality.
    pub fn same(&self, o: &Type) -> (r: bool)
        ensures
            r == same_type(*self, *o),
    {
        match (self, o) {
            (Type::Void, Type::Void) => true,
            (Type::Bool, Type::Bool) => true,
            (Type::Int, Type::Int) => true,
            (Type::Float, Type::Float) => true,
            (Type::Str, Type::Str) => true,
            (Type::Record(x), Type::Record(y)) => *x == *y,
            _ => false,
        }
    }
}

} // verus!
