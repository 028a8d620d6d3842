//! Writing an expression back as source text.
//!
//! Rendering is best effort. Literals, names, lists, tuples, calls and
//! function literals whose body is one renderable expression have a text.
//! A binary operation has none, because the tree does not record the
//! parentheses that its operands were written with; blocks, pipelines and
//! negations have none either. An expression with a part that has no text
//! has no text.

use vstd::prelude::*;
use vstd::string::StringExecFns;
use crate::ast::{CallArg, Statement, TypedExpr};

verus! {

/// The source text of `e`, if it has one.
pub open spec fn render(e: TypedExpr) -> Option<Seq<char>>
    decreases e, 0nat,
{
    match e {
        TypedExpr::Int { value, .. } => Some(value@),
        TypedExpr::Str { value, .. } => Some("\""@ + value@ + "\""@),
        TypedExpr::Var { name, .. } => Some(name@),
        TypedExpr::ModuleSelect { module_alias, label, .. } => Some(
            module_alias@ + "."@ + label@,
        ),
        TypedExpr::Fn { params, body, .. } => if body@.len() == 1 {
            match body@[0] {
                Statement::Expression(inner) => match render(inner) {
                    Some(text) => Some(
                        "fn("@ + joined_names(params@, params@.len()) + ") { "@ + text + " }"@,
                    ),
                    None => None,
                },
                _ => None,
            }
        } else {
            None
        },
        TypedExpr::List { elements, tail, .. } => match joined_exprs(
            elements@,
            elements@.len(),
        ) {
            Some(items) => match tail {
                Some(t) => match render(*t) {
                    Some(rest) => Some(
                        "["@ + items + (if elements@.len() > 0 {
                            ", .."@
                        } else {
                            ".."@
                        }) + rest + "]"@,
                    ),
                    None => None,
                },
                None => Some("["@ + items + "]"@),
            },
            None => None,
        },
        TypedExpr::Call { fun, args, .. } => match render(*fun) {
            Some(callee) => match joined_args(args@, 0, args@.len()) {
                Some(list) => Some(callee + "("@ + list + ")"@),
                None => None,
            },
            None => None,
        },
        TypedExpr::Tuple { elems, .. } => match joined_exprs(elems@, elems@.len()) {
            Some(items) => Some("#("@ + items + ")"@),
            None => None,
        },
        _ => None,
    }
}

/// The text of one call argument: its value, after its label if it has one.
pub open spec fn render_arg(a: CallArg) -> Option<Seq<char>>
    decreases a, 1nat,
{
    match render(a.value) {
        Some(text) => Some(
            match a.label {
                Some(l) => l@ + ": "@ + text,
                None => text,
            },
        ),
        None => None,
    }
}

/// The texts of the arguments from index `from` up to `to`, with a comma
/// and a space between two neighbours.
pub open spec fn joined_args(args: Seq<CallArg>, from: nat, to: nat) -> Option<Seq<char>>
    decreases args, to,
{
    if to <= from || to > args.len() {
        Some(Seq::empty())
    } else {
        match (joined_args(args, from, (to - 1) as nat), render_arg(args[to - 1])) {
            (Some(before), Some(text)) => Some(
                if to - 1 > from {
                    before + ", "@ + text
                } else {
                    before + text
                },
            ),
            _ => None,
        }
    }
}

/// The texts of the first `to` expressions, with a comma and a space
/// between two neighbours.
pub open spec fn joined_exprs(exprs: Seq<TypedExpr>, to: nat) -> Option<Seq<char>>
    decreases exprs, to,
{
    if to == 0 || to > exprs.len() {
        Some(Seq::empty())
    } else {
        match (joined_exprs(exprs, (to - 1) as nat), render(exprs[to - 1])) {
            (Some(before), Some(text)) => Some(
                if to > 1 {
                    before + ", "@ + text
                } else {
                    before + text
                },
            ),
            _ => None,
        }
    }
}

/// The first `to` names, with a comma and a space between two neighbours.
pub open spec fn joined_names(names: Seq<String>, to: nat) -> Seq<char>
    decreases to,
{
    if to == 0 || to > names.len() {
        Seq::empty()
    } else if to > 1 {
        joined_names(names, (to - 1) as nat) + ", "@ + names[to - 1]@
    } else {
        joined_names(names, (to - 1) as nat) + names[to - 1]@
    }
}

/// The text of a call of `fun` with the arguments from index `from` on.
/// From index 0 this is the text of the call itself; from index 1 it is the
/// call as a pipeline step, whose first argument the pipeline supplies.
pub open spec fn render_call(fun: TypedExpr, args: Seq<CallArg>, from: nat) -> Option<Seq<char>> {
    match (render(fun), joined_args(args, from, args.len())) {
        (Some(callee), Some(list)) => Some(callee + "("@ + list + ")"@),
        _ => None,
    }
}

/// The text of `e` as a pipeline step: a call with at least one argument,
/// written without its first argument. Anything else has no such text.
pub open spec fn render_step(e: TypedExpr) -> Option<Seq<char>> {
    match e {
        TypedExpr::Call { fun, args, .. } => if args@.len() > 0 {
            render_call(*fun, args@, 1)
        } else {
            None
        },
        _ => None,
    }
}

/// Appends the text of `expr` to `out` and answers whether it has one.
/// Where it has none, `out` is left with a partial text.
fn render_into(expr: &TypedExpr, out: &mut String) -> (ok: bool)
    ensures
        ok <==> render(*expr) is Some,
        ok ==> final(out)@ == old(out)@ + render(*expr)->0,
    decreases *expr, 0nat,
{
    let ghost before = out@;
    match expr {
        TypedExpr::Int { value, .. } => {
            out.append(value.as_str());
            true
        },
        TypedExpr::Str { value, .. } => {
            out.append("\"");
            out.append(value.as_str());
            out.append("\"");
            assert(out@ =~= before + ("\""@ + value@ + "\""@));
            true
        },
        TypedExpr::Var { name, .. } => {
            out.append(name.as_str());
            true
        },
        TypedExpr::ModuleSelect { module_alias, label, .. } => {
            out.append(module_alias.as_str());
            out.append(".");
            out.append(label.as_str());
            assert(out@ =~= before + (module_alias@ + "."@ + label@));
            true
        },
        TypedExpr::Fn { params, body, .. } => {
            if body.len() != 1 {
                return false;
            }
            match &body[0] {
                Statement::Expression(inner) => {
                    out.append("fn(");
                    let mut i: usize = 0;
                    while i < params.len()
                        invariant
                            i <= params.len(),
                            out@ == before + "fn("@ + joined_names(params@, i as nat),
                        decreases params.len() - i,
                    {
                        if i > 0 {
                            out.append(", ");
                        }
                        out.append(params[i].as_str());
                        i += 1;
                        assert(out@ =~= before + "fn("@ + joined_names(params@, i as nat));
                    }
                    out.append(") { ");
                    if !render_into(inner, out) {
                        return false;
                    }
                    out.append(" }");
                    assert(out@ =~= before + render(*expr)->0);
                    true
                },
                _ => false,
            }
        },
        TypedExpr::List { elements, tail, .. } => {
            out.append("[");
            if !render_exprs_into(elements, out) {
                return false;
            }
            match tail {
                Some(t) => {
                    if elements.len() > 0 {
                        out.append(", ..");
                    } else {
                        out.append("..");
                    }
                    if !render_into(t, out) {
                        return false;
                    }
                },
                None => {},
            }
            out.append("]");
            assert(out@ =~= before + render(*expr)->0);
            true
        },
        TypedExpr::Call { fun, args, .. } => {
            if !render_into(fun, out) {
                return false;
            }
            out.append("(");
            if !render_args_into(args, 0, out) {
                return false;
            }
            out.append(")");
            assert(out@ =~= before + render(*expr)->0);
            true
        },
        TypedExpr::Tuple { elems, .. } => {
            out.append("#(");
            if !render_exprs_into(elems, out) {
                return false;
            }
            out.append(")");
            assert(out@ =~= before + render(*expr)->0);
            true
        },
        _ => false,
    }
}

/// Appends the texts of the arguments from index `from` on, separated.
fn render_args_into(args: &Vec<CallArg>, from: usize, out: &mut String) -> (ok: bool)
    ensures
        ok <==> joined_args(args@, from as nat, args@.len()) is Some,
        ok ==> final(out)@ == old(out)@ + joined_args(args@, from as nat, args@.len())->0,
    decreases *args, 1nat,
{
    let ghost before = out@;
    if from >= args.len() {
        assert(out@ =~= before + Seq::empty());
        return true;
    }
    let mut i: usize = from;
    assert(out@ =~= before + joined_args(args@, from as nat, i as nat)->0);
    while i < args.len()
        invariant
            from <= i <= args.len(),
            joined_args(args@, from as nat, i as nat) is Some,
            out@ == before + joined_args(args@, from as nat, i as nat)->0,
        decreases args.len() - i,
    {
        if i > from {
            out.append(", ");
        }
        let ghost item_start = out@;
        match &args[i].label {
            Some(l) => {
                out.append(l.as_str());
                out.append(": ");
            },
            None => {},
        }
        let ok = render_into(&args[i].value, out);
        if !ok {
            proof {
                assert(render_arg(args@[i as int]) is None);
                lemma_joined_args_none(args@, from as nat, (i + 1) as nat, args@.len());
            }
            return false;
        }
        assert(out@ =~= item_start + render_arg(args@[i as int])->0);
        i += 1;
        assert(out@ =~= before + joined_args(args@, from as nat, i as nat)->0);
    }
    true
}

/// Appends the texts of the expressions, separated.
fn render_exprs_into(exprs: &Vec<TypedExpr>, out: &mut String) -> (ok: bool)
    ensures
        ok <==> joined_exprs(exprs@, exprs@.len()) is Some,
        ok ==> final(out)@ == old(out)@ + joined_exprs(exprs@, exprs@.len())->0,
    decreases *exprs, 1nat,
{
    let ghost before = out@;
    let mut i: usize = 0;
    assert(out@ =~= before + joined_exprs(exprs@, 0)->0);
    while i < exprs.len()
        invariant
            i <= exprs.len(),
            joined_exprs(exprs@, i as nat) is Some,
            out@ == before + joined_exprs(exprs@, i as nat)->0,
        decreases exprs.len() - i,
    {
        if i > 0 {
            out.append(", ");
        }
        let ok = render_into(&exprs[i], out);
        if !ok {
            proof {
                lemma_joined_exprs_none(exprs@, (i + 1) as nat, exprs@.len());
            }
            return false;
        }
        i += 1;
        assert(out@ =~= before + joined_exprs(exprs@, i as nat)->0);
    }
    true
}

/// A list of arguments has no text once a shorter one has none.
proof fn lemma_joined_args_none(args: Seq<CallArg>, from: nat, mid: nat, to: nat)
    requires
        from < mid <= to <= args.len(),
        joined_args(args, from, mid) is None,
    ensures
        joined_args(args, from, to) is None,
    decreases to - mid,
{
    if mid < to {
        lemma_joined_args_none(args, from, mid, (to - 1) as nat);
    }
}

/// A list of expressions has no text once a shorter one has none.
proof fn lemma_joined_exprs_none(exprs: Seq<TypedExpr>, mid: nat, to: nat)
    requires
        0 < mid <= to <= exprs.len(),
        joined_exprs(exprs, mid) is None,
    ensures
        joined_exprs(exprs, to) is None,
    decreases to - mid,
{
    if mid < to {
        lemma_joined_exprs_none(exprs, mid, (to - 1) as nat);
    }
}

impl TypedExpr {
    /// The source text of the expression, or `None` where it has none.
    pub fn to_string(&self) -> (text: Option<String>)
        ensures
            text is Some <==> render(*self) is Some,
            text matches Some(t) ==> render(*self) == Some(t@),
    {
        let mut out = String::new();
        if render_into(self, &mut out) {
            assert(out@ =~= render(*self)->0);
            Some(out)
        } else {
            None
        }
    }

    /// The text of the expression as a pipeline step: a call with at least
    /// one argument, written without its first argument.
    pub fn to_step_string(&self) -> (text: Option<String>)
        ensures
            text is Some <==> render_step(*self) is Some,
            text matches Some(t) ==> render_step(*self) == Some(t@),
    {
        match self {
            TypedExpr::Call { fun, args, .. } => {
                if args.len() == 0 {
                    return None;
                }
                let mut out = String::new();
                if !render_into(fun, &mut out) {
                    return None;
                }
                out.append("(");
                if !render_args_into(args, 1, &mut out) {
                    return None;
                }
                out.append(")");
                assert(out@ =~= render_step(*self)->0);
                Some(out)
            },
            _ => None,
        }
    }
}

} // verus!
