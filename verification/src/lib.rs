//! A C-to-term transpiler for an e-graph super-optimiser.
//!
//! C function bodies are transpiled to terms of a small s-expression language
//! whose rewrite rules the optimiser applies.
pub mod assigned;
pub mod algebra;
pub mod ast;
pub mod balance;
pub mod bindings;
pub mod explain;
pub mod laws;
pub mod semantics;
pub mod text;
pub mod rules;
pub mod transpile;

use vstd::prelude::*;

use crate::ast::{ExternalDeclaration, TranslationUnit, function_bodies, unit_supported};
use crate::bindings::names;
use crate::semantics::function_term;

verus! {

/// The terms of the functions of a C file: one per function definition, in
/// order, each transpiled from an empty environment.
pub open spec fn unit_terms(unit: TranslationUnit) -> Seq<Seq<char>> {
    function_bodies(unit.0@).map_values(|body| function_term(body))
}

/// Transpiles every function definition of `ast`, in order.
pub fn transpile(ast: TranslationUnit) -> (definitions: Vec<String>)
    requires
        unit_supported(ast),
    ensures
        names(definitions@) == unit_terms(ast),
{
    let mut definitions: Vec<String> = Vec::new();
    let mut i: usize = 0;
    while i < ast.0.len()
        invariant
            i <= ast.0@.len(),
            unit_supported(ast),
            names(definitions@) == function_bodies(ast.0@.take(i as int)).map_values(
                |body| function_term(body),
            ),
        decreases ast.0@.len() - i,
    {
        assert(ast.0@.take(i + 1).drop_last() =~= ast.0@.take(i as int));
        match &ast.0[i] {
            ExternalDeclaration::FunctionDefinition(body) => {
                proof {
                    crate::ast::lemma_function_bodies_prefix(ast.0@, i as int + 1);
                    let k = function_bodies(ast.0@.take(i as int)).len() as int;
                    assert(function_bodies(ast.0@.take(i + 1))[k] == *body);
                    assert(stmt_supported_at(ast, k));
                }
                let term = crate::transpile::transpile(body);
                let ghost before = definitions@;
                definitions.push(term);
                assert(names(definitions@) =~= names(before).push(term@));
                assert(names(definitions@) =~= function_bodies(ast.0@.take(i + 1)).map_values(
                    |body| function_term(body),
                ));
            },
            _ => {
                assert(names(definitions@) =~= function_bodies(ast.0@.take(i + 1)).map_values(
                    |body| function_term(body),
                ));
            },
        }
        i = i + 1;
    }
    assert(ast.0@.take(ast.0@.len() as int) =~= ast.0@);
    definitions
}

spec fn stmt_supported_at(unit: TranslationUnit, k: int) -> bool {
    crate::ast::stmt_supported(function_bodies(unit.0@)[k])
}

/// The cost model of extraction: every node costs one unit, except
/// `ignore`, which is free.
pub struct CCostFunction;

impl CCostFunction {
    /// The cost of a node, given whether it is the `ignore` node.
    pub fn node_cost(&mut self, is_ignore: bool) -> (cost: u64)
        ensures
            cost == (if is_ignore {
                0u64
            } else {
                1u64
            }),
    {
        if is_ignore {
            0
        } else {
            1
        }
    }
}

} // verus!
