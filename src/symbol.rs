//! Bindings, scopes and the scope stack.
use vstd::prelude::*;
use crate::ast::{copy_opt_ident, Decl, Field, Ident, Param};

verus! {

/// What a function name, or a parameter name inside its body, stands for.
#[derive(Debug)]
pub struct Signature {
    pub params: Vec<Param>,
    pub ty: Option<Ident>,
}

/// The resolved meaning of a name.
#[derive(Debug)]
pub enum Binding {
    Function(Signature),
    /// A variable, with its declared type annotation.
    Variable(Ident),
    /// A constant, with its declared type annotation.
    Constant(Ident),
    /// A record, with its declared fields.
    Record(Vec<Field>),
}

/// The mathematical form of a binding.
pub enum BindingView {
    Function { params: Seq<Param>, ty: Option<Ident> },
    Variable(Ident),
    Constant(Ident),
    Record(Seq<Field>),
}

impl View for Binding {
    type V = BindingView;

    open spec fn view(&self) -> BindingView {
        match self {
            Binding::Function(s) => BindingView::Function { params: s.params@, ty: s.ty },
            Binding::Variable(t) => BindingView::Variable(*t),
            Binding::Constant(t) => BindingView::Constant(*t),
            Binding::Record(fs) => BindingView::Record(fs@),
        }
    }
}

/// Copies a list of parameters.
pub fn copy_params(v: &Vec<Param>) -> (r: Vec<Param>)
    ensures
        r@ == v@,
{
    let mut r: Vec<Param> = Vec::new();
    let mut i: usize = 0;
    while i < v.len()
        invariant
            i <= v.len(),
            r@ == v@.subrange(0, i as int),
        decreases v.len() - i,
    {
        r.push(v[i].copy());
        i += 1;
    }
    assert(r@ =~= v@);
    r
}

/// Copies a list of record fields.
pub fn copy_fields(v: &Vec<Field>) -> (r: Vec<Field>)
    ensures
        r@ == v@,
{
    let mut r: Vec<Field> = Vec::new();
    let mut i: usize = 0;
    while i < v.len()
        invariant
            i <= v.len(),
            r@ == v@.subrange(0, i as int),
        decreases v.len() - i,
    {
        r.push(v[i].copy());
        i += 1;
    }
    assert(r@ =~= v@);
    r
}

impl Binding {
    /// The binding a top-level declaration gives its name.
    pub fn of_decl(d: &Decl) -> (r: Binding)
        ensures
            r@ == decl_binding(*d),
    {
        match d {
            Decl::Function(f) => Binding::Function(
                Signature { params: copy_params(&f.params), ty: copy_opt_ident(&f.ty) },
            ),
            Decl::Constant(c) => Binding::Constant(c.ty.copy()),
            Decl::Record(r) => Binding::Record(copy_fields(&r.fields)),
        }
    }
}

/// The binding that a declaration gives its own name.
pub open spec fn decl_binding(d: Decl) -> BindingView {
    match d {
        Decl::Function(f) => BindingView::Function { params: f.params@, ty: f.ty },
        Decl::Constant(c) => BindingView::Constant(c.ty),
        Decl::Record(r) => BindingView::Record(r.fields@),
    }
}

/// The name a declaration introduces.
pub open spec fn decl_name(d: Decl) -> String {
    match d {
        Decl::Function(f) => f.name.name,
        Decl::Constant(c) => c.name.name,
        Decl::Record(r) => r.name.name,
    }
}

#[derive(Debug)]
pub struct Entry {
    pub name: String,
    pub binding: Binding,
}

/// One scope: a mapping from names to bindings. A later entry for a name
/// replaces an earlier one.
#[derive(Debug)]
pub struct SymbolTable {
    pub entries: Vec<Entry>,
}

/// A scope as a sequence of (name, binding) pairs, later pairs taking precedence.
pub type ScopeView = Seq<(String, BindingView)>;

/// The scope stack, innermost last.
pub type Env = Seq<ScopeView>;

impl View for SymbolTable {
    type V = ScopeView;

    open spec fn view(&self) -> ScopeView {
        self.entries@.map_values(|e: Entry| (e.name, e.binding@))
    }
}

/// Looks a name up in one scope: the latest entry for it.
pub open spec fn scope_lookup(s: ScopeView, name: Seq<char>) -> Option<BindingView>
    decreases s.len(),
{
    if s.len() == 0 {
        None
    } else if s.last().0@ == name {
        Some(s.last().1)
    } else {
        scope_lookup(s.drop_last(), name)
    }
}

/// Looks a name up in the scope stack, from the innermost scope outwards.
pub open spec fn lookup(env: Env, name: Seq<char>) -> Option<BindingView>
    decreases env.len(),
{
    if env.len() == 0 {
        None
    } else {
        match scope_lookup(env.last(), name) {
            Some(b) => Some(b),
            None => lookup(env.drop_last(), name),
        }
    }
}

/// Inserts into the innermost scope.
pub open spec fn declare_local(env: Env, name: String, b: BindingView) -> Env
    recommends
        env.len() > 0,
{
    env.update(env.len() - 1, env.last().push((name, b)))
}

impl SymbolTable {
    pub fn new() -> (r: SymbolTable)
        ensures
            r@ == Seq::<(String, BindingView)>::empty(),
    {
        let r = SymbolTable { entries: Vec::new() };
        assert(r@ =~= Seq::<(String, BindingView)>::empty());
        r
    }

    /// Binds `name` in this scope, replacing any earlier binding of it here.
    pub fn insert(&mut self, name: String, binding: Binding)
        ensures
            final(self)@ == old(self)@.push((name, binding@)),
    {
        proof {
            let ghost e = Entry { name, binding };
            assert(self.entries@.push(e).map_values(|e: Entry| (e.name, e.binding@))
                =~= self@.push((name, binding@)));
        }
        self.entries.push(Entry { name, binding });
    }

    /// The binding of `name` in this scope.
    pub fn get(&self, name: &String) -> (r: Option<&Binding>)
        ensures
            match r {
                Some(b) => scope_lookup(self@, name@) == Some(b@),
                None => scope_lookup(self@, name@) is None,
            },
    {
        let mut i = self.entries.len();
        assert(self@.subrange(0, i as int) =~= self@);
        while i > 0
            invariant
                i <= self.entries.len(),
                scope_lookup(self@, name@) == scope_lookup(self@.subrange(0, i as int), name@),
            decreases i,
        {
            let ghost s = self@.subrange(0, i as int);
            assert(s.drop_last() =~= self@.subrange(0, i - 1));
            if self.entries[i - 1].name == *name {
                return Some(&self.entries[i - 1].binding);
            }
            i -= 1;
        }
        None
    }

    /// Binds the name of a top-level declaration to it.
    pub fn declare(&mut self, d: &Decl)
        ensures
            final(self)@ == old(self)@.push((decl_name(*d), decl_binding(*d))),
    {
        let name = match d {
            Decl::Function(f) => f.name.name.clone(),
            Decl::Constant(c) => c.name.name.clone(),
            Decl::Record(r) => r.name.name.clone(),
        };
        self.insert(name, Binding::of_decl(d));
    }

    /// A global scope holding every declaration of `program`.
    pub fn from_program(program: &Vec<Decl>) -> (r: SymbolTable)
        ensures
            r@ == declare_all(Seq::empty(), program@),
    {
        let mut r = SymbolTable::new();
        r.declare_each(program);
        r
    }

    /// Binds, in order, the name of each declaration of `program`.
    pub fn declare_each(&mut self, program: &Vec<Decl>)
        ensures
            final(self)@ == declare_all(old(self)@, program@),
    {
        let ghost start = self@;
        let mut i: usize = 0;
        while i < program.len()
            invariant
                i <= program.len(),
                self@ == declare_all(start, program@.subrange(0, i as int)),
            decreases program.len() - i,
        {
            assert(program@.subrange(0, i + 1).drop_last() =~= program@.subrange(0, i as int));
            self.declare(&program[i]);
            i += 1;
        }
        assert(program@.subrange(0, i as int) =~= program@);
    }
}

/// A scope after binding the names of `decls` in order.
pub open spec fn declare_all(s: ScopeView, decls: Seq<Decl>) -> ScopeView
    decreases decls.len(),
{
    if decls.len() == 0 {
        s
    } else {
        declare_all(s, decls.drop_last()).push((decl_name(decls.last()), decl_binding(decls.last())))
    }
}

/// Looks `name` up in a scope stack, innermost scope first.
pub fn symbol_in<'a>(scopes: &'a Vec<SymbolTable>, name: &String) -> (r: Option<&'a Binding>)
    ensures
        match r {
            Some(b) => lookup(env_of(scopes@), name@) == Some(b@),
            None => lookup(env_of(scopes@), name@) is None,
        },
{
    let mut i = scopes.len();
    assert(scopes@.subrange(0, i as int) =~= scopes@);
    while i > 0
        invariant
            i <= scopes.len(),
            lookup(env_of(scopes@), name@) == lookup(env_of(scopes@.subrange(0, i as int)), name@),
        decreases i,
    {
        let ghost s = env_of(scopes@.subrange(0, i as int));
        assert(s.drop_last() =~= env_of(scopes@.subrange(0, i - 1)));
        match scopes[i - 1].get(name) {
            Some(b) => {
                return Some(b);
            },
            None => {},
        }
        i -= 1;
    }
    None
}

/// The scope stack as a mathematical value.
pub open spec fn env_of(scopes: Seq<SymbolTable>) -> Env {
    scopes.map_values(|t: SymbolTable| t@)
}

} // verus!
