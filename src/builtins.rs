//! The support-library declarations that every program may use.
use vstd::prelude::*;
use crate::ast::Decl;
use crate::symbol::{declare_all, SymbolTable};

verus! {

/// Marks that the builtin declarations have been bound in a global scope.
pub struct Builtins {}

impl Builtins {
    /// Binds each builtin declaration in `table`, in order, before any user
    /// declaration is added to it.
    pub fn new(table: &mut SymbolTable, decls: &Vec<Decl>) -> (r: Builtins)
        ensures
            final(table)@ == declare_all(old(table)@, decls@),
    {
        table.declare_each(decls);
        Builtins {}
    }
}

} // verus!
