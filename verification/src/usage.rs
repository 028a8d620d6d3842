//! Finding every read of one local binding inside an expression.
//!
//! A binding is identified by the span of its declaring pattern, never by
//! name, so a shadowing binding in a nested scope is a different binding.

use vstd::prelude::*;
use crate::ast::{Assignment, CallArg, Pattern, Statement, TypedExpr};
use crate::span::SrcSpan;

verus! {

/// The references to the binding declared at `decl` inside `e`, in source
/// order. The search looks into block statements, pipeline steps, function
/// literal bodies, list elements and tails, call arguments, operands of
/// binary operators and tuple elements. Every other kind of expression is
/// taken to hold no reference.
pub open spec fn usages(decl: SrcSpan, e: TypedExpr) -> Seq<TypedExpr>
    decreases e, 0nat,
{
    match e {
        TypedExpr::Var { .. } => if e.spec_definition_location() == Some(decl) {
            seq![e]
        } else {
            Seq::empty()
        },
        TypedExpr::Block { statements, .. } => usages_in_statements(
            decl,
            statements@,
            statements@.len(),
        ),
        TypedExpr::Pipeline { assignments, finally, .. } => usages_in_assignments(
            decl,
            assignments@,
            assignments@.len(),
        ) + usages(decl, *finally),
        TypedExpr::Fn { body, .. } => usages_in_statements(decl, body@, body@.len()),
        TypedExpr::List { elements, tail, .. } => usages_in_exprs(
            decl,
            elements@,
            elements@.len(),
        ) + (match tail {
            Some(t) => usages(decl, *t),
            None => Seq::empty(),
        }),
        TypedExpr::Call { args, .. } => usages_in_args(decl, args@, args@.len()),
        TypedExpr::BinOp { left, right, .. } => usages(decl, *left) + usages(decl, *right),
        TypedExpr::Tuple { elems, .. } => usages_in_exprs(decl, elems@, elems@.len()),
        _ => Seq::empty(),
    }
}

/// The references inside one statement: in the expression of an expression
/// statement, in the value of an assignment, none in a `use`.
pub open spec fn usages_in_statement(decl: SrcSpan, s: Statement) -> Seq<TypedExpr>
    decreases s, 0nat,
{
    match s {
        Statement::Expression(e) => usages(decl, e),
        Statement::Assignment(a) => usages(decl, *a.value),
        Statement::Use(_) => Seq::empty(),
    }
}

/// The references inside the first `n` of `stmts`.
pub open spec fn usages_in_statements(decl: SrcSpan, stmts: Seq<Statement>, n: nat) -> Seq<
    TypedExpr,
>
    decreases stmts, n,
{
    if n == 0 || n > stmts.len() {
        Seq::empty()
    } else {
        usages_in_statements(decl, stmts, (n - 1) as nat) + usages_in_statement(
            decl,
            stmts[n - 1],
        )
    }
}

/// The references inside the values of the first `n` of `steps`.
pub open spec fn usages_in_assignments(decl: SrcSpan, steps: Seq<Assignment>, n: nat) -> Seq<
    TypedExpr,
>
    decreases steps, n,
{
    if n == 0 || n > steps.len() {
        Seq::empty()
    } else {
        usages_in_assignments(decl, steps, (n - 1) as nat) + usages(decl, *steps[n - 1].value)
    }
}

/// The references inside the first `n` of `exprs`.
pub open spec fn usages_in_exprs(decl: SrcSpan, exprs: Seq<TypedExpr>, n: nat) -> Seq<TypedExpr>
    decreases exprs, n,
{
    if n == 0 || n > exprs.len() {
        Seq::empty()
    } else {
        usages_in_exprs(decl, exprs, (n - 1) as nat) + usages(decl, exprs[n - 1])
    }
}

/// The references inside the values of the first `n` of `args`.
pub open spec fn usages_in_args(decl: SrcSpan, args: Seq<CallArg>, n: nat) -> Seq<TypedExpr>
    decreases args, n,
{
    if n == 0 || n > args.len() {
        Seq::empty()
    } else {
        usages_in_args(decl, args, (n - 1) as nat) + usages(decl, args[n - 1].value)
    }
}

/// The references inside the statements of a function body.
pub open spec fn usages_in_body(decl: SrcSpan, body: Seq<Statement>) -> Seq<TypedExpr> {
    usages_in_statements(decl, body, body.len())
}

/// The nodes that a sequence of borrowed nodes points at.
pub open spec fn nodes_of(refs: Seq<&TypedExpr>) -> Seq<TypedExpr> {
    refs.map_values(|r: &TypedExpr| *r)
}

/// The search never finds too much: whatever it finds in `e` is a
/// reference to the binding declared at `decl`.
pub proof fn lemma_usages_are_references(decl: SrcSpan, e: TypedExpr)
    ensures
        forall|i: int|
            0 <= i < usages(decl, e).len() ==> (#[trigger] usages(
                decl,
                e,
            )[i]).spec_definition_location() == Some(decl),
    decreases e, 0nat,
{
    match e {
        TypedExpr::Block { statements, .. } => {
            lemma_statement_usages_are_references(decl, statements@, statements@.len());
        },
        TypedExpr::Pipeline { assignments, finally, .. } => {
            lemma_assignment_usages_are_references(decl, assignments@, assignments@.len());
            lemma_usages_are_references(decl, *finally);
        },
        TypedExpr::Fn { body, .. } => {
            lemma_statement_usages_are_references(decl, body@, body@.len());
        },
        TypedExpr::List { elements, tail, .. } => {
            lemma_expr_usages_are_references(decl, elements@, elements@.len());
            match tail {
                Some(t) => {
                    lemma_usages_are_references(decl, *t);
                },
                None => {},
            }
        },
        TypedExpr::Call { args, .. } => {
            lemma_arg_usages_are_references(decl, args@, args@.len());
        },
        TypedExpr::BinOp { left, right, .. } => {
            lemma_usages_are_references(decl, *left);
            lemma_usages_are_references(decl, *right);
        },
        TypedExpr::Tuple { elems, .. } => {
            lemma_expr_usages_are_references(decl, elems@, elems@.len());
        },
        _ => {},
    }
}

/// Whatever the search finds in the statements of a body is a reference to
/// the binding declared at `decl`.
pub proof fn lemma_statement_usages_are_references(decl: SrcSpan, stmts: Seq<Statement>, n: nat)
    ensures
        forall|i: int|
            0 <= i < usages_in_statements(decl, stmts, n).len() ==> (
            #[trigger] usages_in_statements(decl, stmts, n)[i]).spec_definition_location() == Some(
                decl,
            ),
    decreases stmts, n,
{
    if n > 0 && n <= stmts.len() {
        lemma_statement_usages_are_references(decl, stmts, (n - 1) as nat);
        match stmts[n - 1] {
            Statement::Expression(e) => {
                lemma_usages_are_references(decl, e);
            },
            Statement::Assignment(a) => {
                lemma_usages_are_references(decl, *a.value);
            },
            Statement::Use(_) => {},
        }
        let before = usages_in_statements(decl, stmts, (n - 1) as nat);
        let here = usages_in_statement(decl, stmts[n - 1]);
        assert forall|i: int| 0 <= i < (before + here).len() implies (#[trigger] (before
            + here)[i]).spec_definition_location() == Some(decl) by {
            if i >= before.len() {
                assert((before + here)[i] == here[i - before.len()]);
            } else {
                assert((before + here)[i] == before[i]);
            }
        }
    }
}

proof fn lemma_assignment_usages_are_references(decl: SrcSpan, steps: Seq<Assignment>, n: nat)
    ensures
        forall|i: int|
            0 <= i < usages_in_assignments(decl, steps, n).len() ==> (
            #[trigger] usages_in_assignments(decl, steps, n)[i]).spec_definition_location() == Some(
                decl,
            ),
    decreases steps, n,
{
    if n > 0 && n <= steps.len() {
        lemma_assignment_usages_are_references(decl, steps, (n - 1) as nat);
        lemma_usages_are_references(decl, *steps[n - 1].value);
    }
}

proof fn lemma_expr_usages_are_references(decl: SrcSpan, exprs: Seq<TypedExpr>, n: nat)
    ensures
        forall|i: int|
            0 <= i < usages_in_exprs(decl, exprs, n).len() ==> (#[trigger] usages_in_exprs(
                decl,
                exprs,
                n,
            )[i]).spec_definition_location() == Some(decl),
    decreases exprs, n,
{
    if n > 0 && n <= exprs.len() {
        lemma_expr_usages_are_references(decl, exprs, (n - 1) as nat);
        lemma_usages_are_references(decl, exprs[n - 1]);
    }
}

proof fn lemma_arg_usages_are_references(decl: SrcSpan, args: Seq<CallArg>, n: nat)
    ensures
        forall|i: int|
            0 <= i < usages_in_args(decl, args, n).len() ==> (#[trigger] usages_in_args(
                decl,
                args,
                n,
            )[i]).spec_definition_location() == Some(decl),
    decreases args, n,
{
    if n > 0 && n <= args.len() {
        lemma_arg_usages_are_references(decl, args, (n - 1) as nat);
        lemma_usages_are_references(decl, args[n - 1].value);
    }
}

/// Appends to `out` the references to the binding declared at `decl` that
/// `expr` holds.
fn collect_usages<'a>(decl: SrcSpan, expr: &'a TypedExpr, out: &mut Vec<&'a TypedExpr>)
    ensures
        nodes_of(final(out)@) == nodes_of(old(out)@) + usages(decl, *expr),
    decreases *expr, 0nat,
{
    let ghost before = nodes_of(out@);
    match expr {
        TypedExpr::Var { .. } => {
            match expr.definition_location() {
                Some(location) => {
                    if location.same(decl) {
                        out.push(expr);
                        assert(nodes_of(out@) =~= before + seq![*expr]);
                    }
                },
                None => {},
            }
            assert(nodes_of(out@) =~= before + usages(decl, *expr));
        },
        TypedExpr::Block { statements, .. } => {
            collect_in_statements(decl, statements, out);
        },
        TypedExpr::Pipeline { assignments, finally, .. } => {
            let mut i: usize = 0;
            while i < assignments.len()
                invariant
                    i <= assignments.len(),
                    nodes_of(out@) == before + usages_in_assignments(
                        decl,
                        assignments@,
                        i as nat,
                    ),
                    decreases_to!(*expr => assignments@),
                decreases assignments.len() - i,
            {
                collect_usages(decl, &assignments[i].value, out);
                i += 1;
                assert(nodes_of(out@) =~= before + usages_in_assignments(
                    decl,
                    assignments@,
                    i as nat,
                ));
            }
            collect_usages(decl, finally, out);
            assert(nodes_of(out@) =~= before + usages(decl, *expr));
        },
        TypedExpr::Fn { body, .. } => {
            collect_in_statements(decl, body, out);
        },
        TypedExpr::List { elements, tail, .. } => {
            collect_in_exprs(decl, elements, out);
            match tail {
                Some(t) => {
                    collect_usages(decl, t, out);
                },
                None => {},
            }
            assert(nodes_of(out@) =~= before + usages(decl, *expr));
        },
        TypedExpr::Call { args, .. } => {
            let mut i: usize = 0;
            while i < args.len()
                invariant
                    i <= args.len(),
                    nodes_of(out@) == before + usages_in_args(decl, args@, i as nat),
                    decreases_to!(*expr => args@),
                decreases args.len() - i,
            {
                collect_usages(decl, &args[i].value, out);
                i += 1;
                assert(nodes_of(out@) =~= before + usages_in_args(decl, args@, i as nat));
            }
        },
        TypedExpr::BinOp { left, right, .. } => {
            collect_usages(decl, left, out);
            collect_usages(decl, right, out);
            assert(nodes_of(out@) =~= before + usages(decl, *expr));
        },
        TypedExpr::Tuple { elems, .. } => {
            collect_in_exprs(decl, elems, out);
        },
        _ => {
            assert(nodes_of(out@) =~= before + usages(decl, *expr));
        },
    }
}

/// Appends to `out` the references that the statements hold.
fn collect_in_statements<'a>(
    decl: SrcSpan,
    statements: &'a Vec<Statement>,
    out: &mut Vec<&'a TypedExpr>,
)
    ensures
        nodes_of(final(out)@) == nodes_of(old(out)@) + usages_in_statements(
            decl,
            statements@,
            statements@.len(),
        ),
    decreases *statements, 1nat,
{
    let ghost before = nodes_of(out@);
    let mut i: usize = 0;
    assert(nodes_of(out@) =~= before + usages_in_statements(decl, statements@, 0));
    while i < statements.len()
        invariant
            i <= statements.len(),
            nodes_of(out@) == before + usages_in_statements(decl, statements@, i as nat),
        decreases statements.len() - i,
    {
        let ghost so_far = nodes_of(out@);
        match &statements[i] {
            Statement::Expression(e) => {
                collect_usages(decl, e, out);
            },
            Statement::Assignment(a) => {
                collect_usages(decl, &a.value, out);
            },
            Statement::Use(_) => {},
        }
        assert(nodes_of(out@) =~= so_far + usages_in_statement(decl, statements@[i as int]));
        i += 1;
        assert(nodes_of(out@) =~= before + usages_in_statements(decl, statements@, i as nat));
    }
}

/// Appends to `out` the references that the expressions hold.
fn collect_in_exprs<'a>(decl: SrcSpan, exprs: &'a Vec<TypedExpr>, out: &mut Vec<&'a TypedExpr>)
    ensures
        nodes_of(final(out)@) == nodes_of(old(out)@) + usages_in_exprs(
            decl,
            exprs@,
            exprs@.len(),
        ),
    decreases *exprs, 1nat,
{
    let ghost before = nodes_of(out@);
    let mut i: usize = 0;
    assert(nodes_of(out@) =~= before + usages_in_exprs(decl, exprs@, 0));
    while i < exprs.len()
        invariant
            i <= exprs.len(),
            nodes_of(out@) == before + usages_in_exprs(decl, exprs@, i as nat),
        decreases exprs.len() - i,
    {
        collect_usages(decl, &exprs[i], out);
        i += 1;
        assert(nodes_of(out@) =~= before + usages_in_exprs(decl, exprs@, i as nat));
    }
}

/// Every reference inside `expr` to the binding that `pattern` declares, in
/// source order.
///
/// A block always answers with its list, empty or not; any other expression
/// that holds no reference answers `None`.
pub fn usage_search<'a>(pattern: &Pattern, expr: &'a TypedExpr) -> (found: Option<
    Vec<&'a TypedExpr>,
>)
    ensures
        found is None <==> usages(pattern.spec_location(), *expr).len() == 0 && !(expr is Block),
        found matches Some(refs) ==> nodes_of(refs@) == usages(pattern.spec_location(), *expr),
{
    let mut refs: Vec<&'a TypedExpr> = Vec::new();
    assert(nodes_of(refs@) =~= Seq::empty());
    collect_usages(pattern.location(), expr, &mut refs);
    assert(nodes_of(refs@) =~= usages(pattern.spec_location(), *expr));
    let is_block = match expr {
        TypedExpr::Block { .. } => true,
        _ => false,
    };
    if refs.len() == 0 && !is_block {
        None
    } else {
        Some(refs)
    }
}

/// Every reference inside the statements of a function body to the
/// binding that `pattern` declares, in source order.
pub fn body_usages<'a>(pattern: &Pattern, body: &'a Vec<Statement>) -> (refs: Vec<&'a TypedExpr>)
    ensures
        nodes_of(refs@) == usages_in_body(pattern.spec_location(), body@),
{
    let mut refs: Vec<&'a TypedExpr> = Vec::new();
    assert(nodes_of(refs@) =~= Seq::empty());
    collect_in_statements(pattern.location(), body, &mut refs);
    assert(nodes_of(refs@) =~= usages_in_body(pattern.spec_location(), body@));
    refs
}

} // verus!
