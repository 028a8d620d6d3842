//! Finding the node under the cursor.
//!
//! The search goes down from a node whose span holds the offset into its
//! children, in source order, and answers with the innermost node found.
//! The children of a node are those that the usage search looks into:
//! block statements, pipeline steps, function literal bodies, list
//! elements and tails, call arguments, operands and tuple elements.

use vstd::prelude::*;
use crate::ast::{Assignment, CallArg, Definition, Function, Located, Module, Statement, TypedExpr};
use crate::span::SrcSpan;

verus! {

/// The innermost node of `e` whose span holds offset `o`.
pub open spec fn locate<'a>(e: &'a TypedExpr, o: u32) -> Option<Located<'a>>
    decreases *e, 0nat,
{
    if !e.spec_location().spec_contains(o) {
        None
    } else {
        let inner = match e {
            TypedExpr::Block { statements, .. } => locate_in_statements(
                statements@,
                o,
                statements@.len(),
            ),
            TypedExpr::Pipeline { assignments, finally, .. } => match locate_in_assignments(
                assignments@,
                o,
                assignments@.len(),
            ) {
                Some(found) => Some(found),
                None => locate(&**finally, o),
            },
            TypedExpr::Fn { body, .. } => locate_in_statements(body@, o, body@.len()),
            TypedExpr::List { elements, tail, .. } => match locate_in_exprs(
                elements@,
                o,
                elements@.len(),
            ) {
                Some(found) => Some(found),
                None => match tail {
                    Some(t) => locate(&**t, o),
                    None => None,
                },
            },
            TypedExpr::Call { args, .. } => locate_in_args(args@, o, args@.len()),
            TypedExpr::BinOp { left, right, .. } => match locate(&**left, o) {
                Some(found) => Some(found),
                None => locate(&**right, o),
            },
            TypedExpr::Tuple { elems, .. } => locate_in_exprs(elems@, o, elems@.len()),
            _ => None,
        };
        match inner {
            Some(found) => Some(found),
            None => Some(Located::Expression(e)),
        }
    }
}

/// The innermost node of statement `s` whose span holds offset `o`: a node
/// of its expression, a node of the value of an assignment, or else the
/// statement itself.
pub open spec fn locate_in_statement<'a>(s: &'a Statement, o: u32) -> Option<Located<'a>>
    decreases *s, 0nat,
{
    match s {
        Statement::Expression(e) => locate(e, o),
        Statement::Assignment(a) => if a.location.spec_contains(o) {
            match locate(&*a.value, o) {
                Some(found) => Some(found),
                None => Some(Located::Statement(s)),
            }
        } else {
            None
        },
        Statement::Use(u) => if u.location.spec_contains(o) {
            Some(Located::Statement(s))
        } else {
            None
        },
    }
}

/// What the first of the first `n` statements that holds the offset gives.
pub open spec fn locate_in_statements<'a>(stmts: Seq<Statement>, o: u32, n: nat) -> Option<
    Located<'a>,
>
    decreases stmts, n,
{
    if n == 0 || n > stmts.len() {
        None
    } else {
        match locate_in_statements(stmts, o, (n - 1) as nat) {
            Some(found) => Some(found),
            None => locate_in_statement(&stmts[n - 1], o),
        }
    }
}

/// What the value of the first of the first `n` steps that holds the
/// offset gives.
pub open spec fn locate_in_assignments<'a>(steps: Seq<Assignment>, o: u32, n: nat) -> Option<
    Located<'a>,
>
    decreases steps, n,
{
    if n == 0 || n > steps.len() {
        None
    } else {
        match locate_in_assignments(steps, o, (n - 1) as nat) {
            Some(found) => Some(found),
            None => locate(&*steps[n - 1].value, o),
        }
    }
}

/// What the first of the first `n` expressions that holds the offset gives.
pub open spec fn locate_in_exprs<'a>(exprs: Seq<TypedExpr>, o: u32, n: nat) -> Option<
    Located<'a>,
>
    decreases exprs, n,
{
    if n == 0 || n > exprs.len() {
        None
    } else {
        match locate_in_exprs(exprs, o, (n - 1) as nat) {
            Some(found) => Some(found),
            None => locate(&exprs[n - 1], o),
        }
    }
}

/// What the value of the first of the first `n` arguments that holds the
/// offset gives.
pub open spec fn locate_in_args<'a>(args: Seq<CallArg>, o: u32, n: nat) -> Option<Located<'a>>
    decreases args, n,
{
    if n == 0 || n > args.len() {
        None
    } else {
        match locate_in_args(args, o, (n - 1) as nat) {
            Some(found) => Some(found),
            None => locate(&args[n - 1].value, o),
        }
    }
}

/// The span of a node.
pub open spec fn located_span(node: Located) -> SrcSpan {
    match node {
        Located::Expression(e) => e.spec_location(),
        Located::Statement(s) => s.spec_location(),
    }
}

/// Whether the search for offset `o`, begun at `node` itself, ends at
/// `node`: no node inside it holds the offset.
pub open spec fn rests_at(node: Located, o: u32) -> bool {
    match node {
        Located::Expression(e) => locate(e, o) == Some(node),
        Located::Statement(s) => locate_in_statement(s, o) == Some(node),
    }
}

/// What the search is for: a node whose span holds the offset, with no
/// node inside it that does.
pub open spec fn is_innermost_at(node: Located, o: u32) -> bool {
    located_span(node).spec_contains(o) && rests_at(node, o)
}

/// The search in an expression finds a node exactly where the span of the
/// expression holds the offset, and the node it finds is an innermost one.
pub proof fn lemma_locate_finds_innermost(e: &TypedExpr, o: u32)
    ensures
        locate(e, o) is Some <==> e.spec_location().spec_contains(o),
        locate(e, o) matches Some(node) ==> is_innermost_at(node, o),
    decreases *e, 0nat,
{
    if e.spec_location().spec_contains(o) {
        match e {
            TypedExpr::Block { statements, .. } => {
                lemma_locate_in_statements(statements@, o, statements@.len());
            },
            TypedExpr::Pipeline { assignments, finally, .. } => {
                lemma_locate_in_assignments(assignments@, o, assignments@.len());
                lemma_locate_finds_innermost(&**finally, o);
            },
            TypedExpr::Fn { body, .. } => {
                lemma_locate_in_statements(body@, o, body@.len());
            },
            TypedExpr::List { elements, tail, .. } => {
                lemma_locate_in_exprs(elements@, o, elements@.len());
                match tail {
                    Some(t) => {
                        lemma_locate_finds_innermost(&**t, o);
                    },
                    None => {},
                }
            },
            TypedExpr::Call { args, .. } => {
                lemma_locate_in_args(args@, o, args@.len());
            },
            TypedExpr::BinOp { left, right, .. } => {
                lemma_locate_finds_innermost(&**left, o);
                lemma_locate_finds_innermost(&**right, o);
            },
            TypedExpr::Tuple { elems, .. } => {
                lemma_locate_in_exprs(elems@, o, elems@.len());
            },
            _ => {},
        }
    }
}

/// The node that the search finds in a statement is an innermost one.
pub proof fn lemma_locate_in_statement(s: &Statement, o: u32)
    ensures
        locate_in_statement(s, o) matches Some(node) ==> is_innermost_at(node, o),
    decreases *s, 0nat,
{
    match s {
        Statement::Expression(e) => {
            lemma_locate_finds_innermost(e, o);
        },
        Statement::Assignment(a) => {
            lemma_locate_finds_innermost(&*a.value, o);
        },
        Statement::Use(_) => {},
    }
}

/// The node that the search finds among statements is an innermost one.
pub proof fn lemma_locate_in_statements(stmts: Seq<Statement>, o: u32, n: nat)
    ensures
        locate_in_statements(stmts, o, n) matches Some(node) ==> is_innermost_at(node, o),
    decreases stmts, n,
{
    if n > 0 && n <= stmts.len() {
        lemma_locate_in_statements(stmts, o, (n - 1) as nat);
        lemma_locate_in_statement(&stmts[n - 1], o);
    }
}

proof fn lemma_locate_in_assignments(steps: Seq<Assignment>, o: u32, n: nat)
    ensures
        locate_in_assignments(steps, o, n) matches Some(node) ==> is_innermost_at(node, o),
    decreases steps, n,
{
    if n > 0 && n <= steps.len() {
        lemma_locate_in_assignments(steps, o, (n - 1) as nat);
        lemma_locate_finds_innermost(&*steps[n - 1].value, o);
    }
}

proof fn lemma_locate_in_exprs(exprs: Seq<TypedExpr>, o: u32, n: nat)
    ensures
        locate_in_exprs(exprs, o, n) matches Some(node) ==> is_innermost_at(node, o),
    decreases exprs, n,
{
    if n > 0 && n <= exprs.len() {
        lemma_locate_in_exprs(exprs, o, (n - 1) as nat);
        lemma_locate_finds_innermost(&exprs[n - 1], o);
    }
}

proof fn lemma_locate_in_args(args: Seq<CallArg>, o: u32, n: nat)
    ensures
        locate_in_args(args, o, n) matches Some(node) ==> is_innermost_at(node, o),
    decreases args, n,
{
    if n > 0 && n <= args.len() {
        lemma_locate_in_args(args, o, (n - 1) as nat);
        lemma_locate_finds_innermost(&args[n - 1].value, o);
    }
}

/// The innermost node among `statements` whose span holds the offset.
fn find_in_statements<'a>(statements: &'a Vec<Statement>, byte_index: u32) -> (found: Option<
    Located<'a>,
>)
    ensures
        found == locate_in_statements(statements@, byte_index, statements@.len()),
    decreases *statements, 1nat,
{
    let mut i: usize = 0;
    while i < statements.len()
        invariant
            i <= statements.len(),
            locate_in_statements(statements@, byte_index, i as nat) is None,
        decreases statements.len() - i,
    {
        let found = statements[i].find_node(byte_index);
        if found.is_some() {
            proof {
                lemma_first_statement(statements@, byte_index, (i + 1) as nat, statements@.len());
            }
            return found;
        }
        i += 1;
    }
    None
}

/// The innermost node among `exprs` whose span holds the offset.
fn find_in_exprs<'a>(exprs: &'a Vec<TypedExpr>, byte_index: u32) -> (found: Option<Located<'a>>)
    ensures
        found == locate_in_exprs(exprs@, byte_index, exprs@.len()),
    decreases *exprs, 1nat,
{
    let mut i: usize = 0;
    while i < exprs.len()
        invariant
            i <= exprs.len(),
            locate_in_exprs(exprs@, byte_index, i as nat) is None,
        decreases exprs.len() - i,
    {
        let found = exprs[i].find_node(byte_index);
        if found.is_some() {
            proof {
                lemma_first_expr(exprs@, byte_index, (i + 1) as nat, exprs@.len());
            }
            return found;
        }
        i += 1;
    }
    None
}

/// A later statement does not change what an earlier one gave.
proof fn lemma_first_statement(stmts: Seq<Statement>, o: u32, mid: nat, to: nat)
    requires
        mid <= to <= stmts.len(),
        locate_in_statements(stmts, o, mid) is Some,
    ensures
        locate_in_statements(stmts, o, to) == locate_in_statements(stmts, o, mid),
    decreases to - mid,
{
    if mid < to {
        lemma_first_statement(stmts, o, mid, (to - 1) as nat);
    }
}

/// A later step does not change what an earlier one gave.
proof fn lemma_first_assignment(steps: Seq<Assignment>, o: u32, mid: nat, to: nat)
    requires
        mid <= to <= steps.len(),
        locate_in_assignments(steps, o, mid) is Some,
    ensures
        locate_in_assignments(steps, o, to) == locate_in_assignments(steps, o, mid),
    decreases to - mid,
{
    if mid < to {
        lemma_first_assignment(steps, o, mid, (to - 1) as nat);
    }
}

/// A later expression does not change what an earlier one gave.
proof fn lemma_first_expr(exprs: Seq<TypedExpr>, o: u32, mid: nat, to: nat)
    requires
        mid <= to <= exprs.len(),
        locate_in_exprs(exprs, o, mid) is Some,
    ensures
        locate_in_exprs(exprs, o, to) == locate_in_exprs(exprs, o, mid),
    decreases to - mid,
{
    if mid < to {
        lemma_first_expr(exprs, o, mid, (to - 1) as nat);
    }
}

/// A later argument does not change what an earlier one gave.
proof fn lemma_first_arg(args: Seq<CallArg>, o: u32, mid: nat, to: nat)
    requires
        mid <= to <= args.len(),
        locate_in_args(args, o, mid) is Some,
    ensures
        locate_in_args(args, o, to) == locate_in_args(args, o, mid),
    decreases to - mid,
{
    if mid < to {
        lemma_first_arg(args, o, mid, (to - 1) as nat);
    }
}

impl TypedExpr {
    /// The innermost node of this expression whose span holds
    /// `byte_index`, or `None` where the span of the expression does not
    /// hold it.
    pub fn find_node(&self, byte_index: u32) -> (found: Option<Located<'_>>)
        ensures
            found == locate(self, byte_index),
        decreases *self, 0nat,
    {
        if !self.location().contains(byte_index) {
            return None;
        }
        let inner = match self {
            TypedExpr::Block { statements, .. } => find_in_statements(statements, byte_index),
            TypedExpr::Pipeline { assignments, finally, .. } => {
                let mut i: usize = 0;
                let mut found: Option<Located<'_>> = None;
                while i < assignments.len() && found.is_none()
                    invariant
                        i <= assignments.len(),
                        found == locate_in_assignments(assignments@, byte_index, i as nat),
                        decreases_to!(*self => assignments@),
                    decreases assignments.len() - i,
                {
                    found = assignments[i].value.find_node(byte_index);
                    i += 1;
                }
                proof {
                    if found is Some {
                        lemma_first_assignment(
                            assignments@,
                            byte_index,
                            i as nat,
                            assignments@.len(),
                        );
                    }
                }
                match found {
                    Some(f) => Some(f),
                    None => finally.find_node(byte_index),
                }
            },
            TypedExpr::Fn { body, .. } => find_in_statements(body, byte_index),
            TypedExpr::List { elements, tail, .. } => match find_in_exprs(elements, byte_index) {
                Some(f) => Some(f),
                None => match tail {
                    Some(t) => t.find_node(byte_index),
                    None => None,
                },
            },
            TypedExpr::Call { args, .. } => {
                let mut i: usize = 0;
                let mut found: Option<Located<'_>> = None;
                while i < args.len() && found.is_none()
                    invariant
                        i <= args.len(),
                        found == locate_in_args(args@, byte_index, i as nat),
                        decreases_to!(*self => args@),
                    decreases args.len() - i,
                {
                    found = args[i].value.find_node(byte_index);
                    i += 1;
                }
                proof {
                    if found is Some {
                        lemma_first_arg(args@, byte_index, i as nat, args@.len());
                    }
                }
                found
            },
            TypedExpr::BinOp { left, right, .. } => match left.find_node(byte_index) {
                Some(f) => Some(f),
                None => right.find_node(byte_index),
            },
            TypedExpr::Tuple { elems, .. } => find_in_exprs(elems, byte_index),
            _ => None,
        };
        match inner {
            Some(f) => Some(f),
            None => Some(Located::Expression(self)),
        }
    }
}

impl Statement {
    /// The innermost node of this statement whose span holds `byte_index`.
    pub fn find_node(&self, byte_index: u32) -> (found: Option<Located<'_>>)
        ensures
            found == locate_in_statement(self, byte_index),
        decreases *self, 0nat,
    {
        match self {
            Statement::Expression(e) => e.find_node(byte_index),
            Statement::Assignment(a) => {
                if a.location.contains(byte_index) {
                    match a.value.find_node(byte_index) {
                        Some(f) => Some(f),
                        None => Some(Located::Statement(self)),
                    }
                } else {
                    None
                }
            },
            Statement::Use(u) => {
                if u.location.contains(byte_index) {
                    Some(Located::Statement(self))
                } else {
                    None
                }
            },
        }
    }
}

/// The function among the first `n` definitions that offset `o` lies in:
/// the first whose span holds it.
pub open spec fn enclosing_function(defs: Seq<Definition>, o: u32, n: nat) -> Option<Function>
    decreases n,
{
    if n == 0 || n > defs.len() {
        None
    } else {
        match enclosing_function(defs, o, (n - 1) as nat) {
            Some(f) => Some(f),
            None => match defs[n - 1] {
                Definition::Function(f) => if f.location.spec_contains(o) {
                    Some(f)
                } else {
                    None
                },
                _ => None,
            },
        }
    }
}

/// The node of a module under offset `o`: the innermost node that holds it
/// in the body of the function that it lies in.
pub open spec fn locate_in_module<'a>(defs: Seq<Definition>, o: u32) -> Option<Located<'a>> {
    match enclosing_function(defs, o, defs.len()) {
        Some(f) => locate_in_statements(f.body@, o, f.body@.len()),
        None => None,
    }
}

/// A later definition does not change which function was found.
proof fn lemma_first_function(defs: Seq<Definition>, o: u32, mid: nat, to: nat)
    requires
        mid <= to <= defs.len(),
        enclosing_function(defs, o, mid) is Some,
    ensures
        enclosing_function(defs, o, to) == enclosing_function(defs, o, mid),
    decreases to - mid,
{
    if mid < to {
        lemma_first_function(defs, o, mid, (to - 1) as nat);
    }
}

impl Module {
    /// The top-level function that `byte_index` lies in.
    pub fn find_enclosing_function(&self, byte_index: u32) -> (found: Option<&Function>)
        ensures
            found is Some <==> enclosing_function(
                self.definitions@,
                byte_index,
                self.definitions@.len(),
            ) is Some,
            found matches Some(f) ==> enclosing_function(
                self.definitions@,
                byte_index,
                self.definitions@.len(),
            ) == Some(*f),
    {
        let mut i: usize = 0;
        while i < self.definitions.len()
            invariant
                i <= self.definitions.len(),
                enclosing_function(self.definitions@, byte_index, i as nat) is None,
            decreases self.definitions.len() - i,
        {
            match &self.definitions[i] {
                Definition::Function(f) => {
                    if f.location.contains(byte_index) {
                        proof {
                            lemma_first_function(
                                self.definitions@,
                                byte_index,
                                (i + 1) as nat,
                                self.definitions@.len(),
                            );
                        }
                        return Some(f);
                    }
                },
                _ => {},
            }
            i += 1;
        }
        None
    }

    /// The innermost node of the module whose span holds `byte_index`.
    pub fn find_node(&self, byte_index: u32) -> (found: Option<Located<'_>>)
        ensures
            found == locate_in_module(self.definitions@, byte_index),
    {
        match self.find_enclosing_function(byte_index) {
            Some(f) => find_in_statements(&f.body, byte_index),
            None => None,
        }
    }
}

} // verus!
