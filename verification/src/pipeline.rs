//! Rewriting a chain of nested calls as a pipeline.
//!
//! `c(b(a(x, p), q), r)` threads one value through three calls by way of
//! their first arguments. As a pipeline the same program reads
//! `x |> a(p) |> b(q) |> c(r)`.

use vstd::prelude::*;
use vstd::string::StringExecFns;
use vstd::utf8::encode_utf8;
use crate::ast::{CallArg, Located, Module, Statement, TypedExpr};
use crate::code_action::{
    actions_view, CodeAction, CodeActionBuilder, CodeActionDataView, CodeActionHandler,
    CodeActionKind, CodeActionParams, CodeActionParamsView, CodeActionView, ResolveStrategy,
};
use crate::edit::{edits_view, span_in_text, substitution, TextEdit, TextEditView};
use crate::position::{position_at, PositionIndex};
use crate::render::{joined_args, render, render_call, render_step};
use crate::span::SrcSpan;
use crate::usage::nodes_of;

verus! {

/// Whether `e` is the placeholder that stands, inside a pipeline that was
/// already taken apart, for the value piped into a call.
pub open spec fn is_pipe_placeholder(e: TypedExpr) -> bool {
    e matches TypedExpr::Var { name, .. } && name@ == "_pipe"@
}

/// The value of the first argument of `e`, where `e` is a call with
/// arguments.
pub open spec fn first_argument(e: TypedExpr) -> Option<TypedExpr> {
    match e {
        TypedExpr::Call { args, .. } => if args@.len() > 0 {
            Some(args@[0].value)
        } else {
            None
        },
        _ => None,
    }
}

/// Whether `e` can be a link of a chain: a call with at least one argument
/// whose first argument is not the pipe placeholder.
pub open spec fn is_link(e: TypedExpr) -> bool {
    first_argument(e) matches Some(first) && !is_pipe_placeholder(first)
}

/// The chain of calls that begins at `e`, outermost call first: `e` itself
/// if it is a link, then the chain of its first argument.
pub open spec fn call_chain(e: TypedExpr) -> Seq<TypedExpr>
    decreases e,
{
    match e {
        TypedExpr::Call { args, .. } => if args@.len() > 0 && !is_pipe_placeholder(
            args@[0].value,
        ) {
            seq![e] + call_chain(args@[0].value)
        } else {
            Seq::empty()
        },
        _ => Seq::empty(),
    }
}

/// The expression reached from `e` by stepping `n` times into a first
/// argument, if the steps can be made.
pub open spec fn descend(e: TypedExpr, n: nat) -> Option<TypedExpr>
    decreases n,
{
    if n == 0 {
        Some(e)
    } else {
        match descend(e, (n - 1) as nat) {
            Some(outer) => first_argument(outer),
            None => None,
        }
    }
}

/// Whether `e` is the pipe placeholder.
fn is_placeholder(e: &TypedExpr) -> (yes: bool)
    ensures
        yes == is_pipe_placeholder(*e),
{
    match e {
        TypedExpr::Var { name, .. } => *name == String::from_str("_pipe"),
        _ => false,
    }
}

/// Appends to `call_chain` the chain of calls that begins at
/// `call_expression`, outermost call first.
pub fn detect_call_chain<'a>(call_expression: &'a TypedExpr, call_chain: &mut Vec<&'a TypedExpr>)
    ensures
        nodes_of(final(call_chain)@) == nodes_of(old(call_chain)@) + self::call_chain(
            *call_expression,
        ),
    decreases *call_expression,
{
    let ghost before = nodes_of(call_chain@);
    match call_expression {
        TypedExpr::Call { args, .. } => {
            if args.len() > 0 {
                let arg = &args[0];
                if is_placeholder(&arg.value) {
                    assert(nodes_of(call_chain@) =~= before + self::call_chain(*call_expression));
                    return;
                }
                call_chain.push(call_expression);
                assert(nodes_of(call_chain@) =~= before + seq![*call_expression]);
                detect_call_chain(&arg.value, call_chain);
                assert(nodes_of(call_chain@) =~= before + self::call_chain(*call_expression));
            } else {
                assert(nodes_of(call_chain@) =~= before + self::call_chain(*call_expression));
            }
        },
        _ => {
            assert(nodes_of(call_chain@) =~= before + self::call_chain(*call_expression));
        },
    }
}

/// Stepping once and then `n` times is stepping `n` times and then once.
proof fn lemma_descend_shift(e: TypedExpr, n: nat)
    ensures
        descend(e, n + 1) == match first_argument(e) {
            Some(first) => descend(first, n),
            None => None,
        },
    decreases n,
{
    reveal_with_fuel(descend, 2);
    if n > 0 {
        lemma_descend_shift(e, (n - 1) as nat);
    }
}

/// The chain that begins at `e` holds the calls met on the way down
/// through first arguments, as far as each is a link, and no more: where
/// the first `n` are links and the next is not, its length is `n`.
pub proof fn lemma_chain_ends_before(e: TypedExpr, n: nat)
    requires
        forall|i: nat| i < n ==> (#[trigger] descend(e, i) matches Some(c) && is_link(c)),
        !(descend(e, n) matches Some(c) && is_link(c)),
    ensures
        call_chain(e).len() == n,
        forall|i: nat| i < n ==> descend(e, i) == Some(#[trigger] call_chain(e)[i as int]),
    decreases n,
{
    if n == 0 {
        assert(descend(e, 0) == Some(e));
    } else {
        assert(descend(e, 0) matches Some(c) && is_link(c));
        let first = first_argument(e)->0;
        assert forall|i: nat| i < n - 1 implies (#[trigger] descend(first, i) matches Some(c)
            && is_link(c)) by {
            lemma_descend_shift(e, i);
            assert(descend(e, i + 1) matches Some(c) && is_link(c));
        }
        lemma_descend_shift(e, (n - 1) as nat);
        lemma_chain_ends_before(first, (n - 1) as nat);
        assert(call_chain(e) =~= seq![e] + call_chain(first));
        assert forall|i: nat| i < n implies descend(e, i) == Some(
            #[trigger] call_chain(e)[i as int],
        ) by {
            if i > 0 {
                lemma_descend_shift(e, (i - 1) as nat);
                assert(call_chain(e)[i as int] == call_chain(first)[i - 1]);
            }
        }
    }
}

/// A chain never grows past a call whose first argument is the pipe
/// placeholder: where `n` links lead down to such a call, the chain is
/// those `n` links.
pub proof fn lemma_chain_stops_at_placeholder(e: TypedExpr, n: nat)
    requires
        forall|i: nat| i < n ==> (#[trigger] descend(e, i) matches Some(c) && is_link(c)),
        descend(e, n) matches Some(c) && first_argument(c) matches Some(first)
            && is_pipe_placeholder(first),
    ensures
        call_chain(e).len() == n,
        forall|i: nat| i < n ==> descend(e, i) == Some(#[trigger] call_chain(e)[i as int]),
{
    lemma_chain_ends_before(e, n);
}

/// What a pipeline is made of: the text of the value that enters it, the
/// span of the expression that it replaces, and the texts of its steps in
/// the order in which the value passes them.
#[derive(Debug)]
pub struct PipelineParts {
    pub input: String,
    pub location: SrcSpan,
    pub calls: Vec<String>,
}

/// The value of the parts of a pipeline.
pub ghost struct PipelinePlan {
    pub input: Seq<char>,
    pub location: SrcSpan,
    pub calls: Seq<Seq<char>>,
}

impl View for PipelineParts {
    type V = PipelinePlan;

    open spec fn view(&self) -> PipelinePlan {
        PipelinePlan {
            input: self.input@,
            location: self.location,
            calls: self.calls@.map_values(|s: String| s@),
        }
    }
}

/// The texts of the `n` innermost calls of `chain` as pipeline steps,
/// innermost first. `chain` runs from the outermost call to the innermost.
/// An entry that is no call with arguments gives no step; a call whose
/// step has no text leaves the whole without one.
pub open spec fn step_texts(chain: Seq<TypedExpr>, n: nat) -> Option<Seq<Seq<char>>>
    decreases n,
{
    if n == 0 || n > chain.len() {
        Some(Seq::empty())
    } else {
        match step_texts(chain, (n - 1) as nat) {
            Some(inner) => {
                let call = chain[chain.len() - n];
                if first_argument(call) is Some {
                    match render_step(call) {
                        Some(text) => Some(inner.push(text)),
                        None => None,
                    }
                } else {
                    Some(inner)
                }
            },
            None => None,
        }
    }
}

/// The pipeline that stands for `chain`, which runs from the outermost
/// call to the innermost. Its input is the first argument of the innermost
/// call, it replaces the outermost call, and each call is one step. There
/// is none where the chain is empty or a text is missing.
pub open spec fn plan_of(chain: Seq<TypedExpr>) -> Option<PipelinePlan> {
    if chain.len() == 0 {
        None
    } else {
        match first_argument(chain.last()) {
            Some(first) => match (render(first), step_texts(chain, chain.len())) {
                (Some(input), Some(calls)) => Some(
                    PipelinePlan { input, location: chain[0].spec_location(), calls },
                ),
                _ => None,
            },
            None => None,
        }
    }
}

/// A chain of steps has no texts once its inner part has none.
proof fn lemma_step_texts_none(chain: Seq<TypedExpr>, mid: nat, to: nat)
    requires
        mid <= to <= chain.len(),
        step_texts(chain, mid) is None,
    ensures
        step_texts(chain, to) is None,
    decreases to - mid,
{
    if mid < to {
        lemma_step_texts_none(chain, mid, (to - 1) as nat);
    }
}

/// Turns a chain of calls, outermost first, into the parts of the pipeline
/// that stands for it. Answers `None` for an empty chain and where the
/// input or a step has no text.
pub fn convert_call_chain_to_pipeline(call_chain: Vec<&TypedExpr>) -> (parts: Option<
    PipelineParts,
>)
    ensures
        parts is Some <==> plan_of(nodes_of(call_chain@)) is Some,
        parts matches Some(p) ==> plan_of(nodes_of(call_chain@)) == Some(p@),
{
    let ghost chain = nodes_of(call_chain@);
    let len = call_chain.len();
    if len == 0 {
        return None;
    }
    let last_call = call_chain[len - 1];
    assert(*last_call == chain.last());
    let input = match last_call {
        TypedExpr::Call { args, .. } => {
            if args.len() == 0 {
                return None;
            }
            match args[0].value.to_string() {
                Some(text) => text,
                None => {
                    return None;
                },
            }
        },
        _ => {
            return None;
        },
    };
    let mut calls: Vec<String> = Vec::new();
    let mut n: usize = 0;
    assert(calls@.map_values(|s: String| s@) =~= Seq::<Seq<char>>::empty());
    while n < len
        invariant
            n <= len == call_chain@.len(),
            chain == nodes_of(call_chain@),
            step_texts(chain, n as nat) == Some(calls@.map_values(|s: String| s@)),
        decreases len - n,
    {
        let call = call_chain[len - 1 - n];
        assert(*call == chain[chain.len() - (n + 1)]);
        let ghost inner = calls@.map_values(|s: String| s@);
        let reducible = match call {
            TypedExpr::Call { args, .. } => args.len() > 0,
            _ => false,
        };
        if reducible {
            match call.to_step_string() {
                Some(text) => {
                    calls.push(text);
                    assert(calls@.map_values(|s: String| s@) =~= inner.push(text@));
                },
                None => {
                    proof {
                        lemma_step_texts_none(chain, (n + 1) as nat, len as nat);
                    }
                    return None;
                },
            }
        }
        n += 1;
    }
    let location = call_chain[0].location();
    assert(*call_chain@[0] == chain[0]);
    Some(PipelineParts { input, location, calls })
}

/// One step of a pipeline: a call as written after the pipe operator,
/// without the first argument that the pipeline supplies.
pub ghost struct Step {
    pub fun: TypedExpr,
    pub rest: Seq<CallArg>,
}

/// The step that `call` becomes in a pipeline.
pub open spec fn step_of(call: TypedExpr) -> Step {
    match call {
        TypedExpr::Call { fun, args, .. } => Step { fun: *fun, rest: args@.drop_first() },
        _ => Step { fun: call, rest: Seq::empty() },
    }
}

/// The steps of the pipeline that stands for `chain`, in the order in
/// which the value passes them: the innermost call first.
pub open spec fn steps_of(chain: Seq<TypedExpr>) -> Seq<Step> {
    Seq::new(chain.len(), |i: int| step_of(chain[chain.len() - 1 - i]))
}

/// Whether `e` is the nest of calls that the pipeline of `input` through
/// `steps` stands for: the last step called on what the pipeline of the
/// steps before it stands for, and on the rest of its own arguments.
pub open spec fn unfolds_to(e: TypedExpr, input: TypedExpr, steps: Seq<Step>) -> bool
    decreases steps.len(),
{
    if steps.len() == 0 {
        e == input
    } else {
        match e {
            TypedExpr::Call { fun, args, .. } => {
                &&& *fun == steps.last().fun
                &&& args@.len() > 0
                &&& args@.drop_first() == steps.last().rest
                &&& unfolds_to(args@[0].value, input, steps.drop_last())
            },
            _ => false,
        }
    }
}

/// The text of the arguments after the first is the text of the list
/// without its first argument.
proof fn lemma_joined_args_shift(args: Seq<CallArg>, to: nat)
    requires
        1 <= to <= args.len(),
    ensures
        joined_args(args, 1, to) == joined_args(args.drop_first(), 0, (to - 1) as nat),
    decreases to,
{
    if to > 1 {
        lemma_joined_args_shift(args, (to - 1) as nat);
        assert(args.drop_first()[to - 2] == args[to - 1]);
    }
}

/// The text of a step is the text of the call of its function on the rest
/// of the arguments.
pub proof fn lemma_step_text(call: TypedExpr)
    requires
        first_argument(call) is Some,
    ensures
        render_step(call) == render_call(step_of(call).fun, step_of(call).rest, 0),
{
    match call {
        TypedExpr::Call { fun, args, .. } => {
            lemma_joined_args_shift(args@, args@.len());
        },
        _ => {},
    }
}

/// Every call of a chain is a link; the first is the expression that the
/// chain begins at, and each next one is the first argument of the one
/// before.
pub proof fn lemma_chain_links(e: TypedExpr)
    ensures
        forall|i: int| 0 <= i < call_chain(e).len() ==> is_link(#[trigger] call_chain(e)[i]),
        call_chain(e).len() > 0 ==> call_chain(e)[0] == e,
        forall|i: int|
            0 <= i < call_chain(e).len() - 1 ==> first_argument(call_chain(e)[i]) == Some(
                #[trigger] call_chain(e)[i + 1],
            ),
    decreases e,
{
    if is_link(e) {
        let first = first_argument(e)->0;
        lemma_chain_links(first);
        assert(call_chain(e) =~= seq![e] + call_chain(first));
        assert forall|i: int| 0 <= i < call_chain(e).len() - 1 implies first_argument(
            call_chain(e)[i],
        ) == Some(#[trigger] call_chain(e)[i + 1]) by {
            if i > 0 {
                assert(call_chain(e)[i] == call_chain(first)[i - 1]);
                assert(call_chain(e)[i + 1] == call_chain(first)[(i - 1) + 1]);
            }
        }
    }
}

/// Where every entry of a chain is a call with arguments, every entry
/// gives a step, and the texts are those of the steps, innermost first.
proof fn lemma_step_texts_of_calls(chain: Seq<TypedExpr>, n: nat)
    requires
        n <= chain.len(),
        forall|i: int| 0 <= i < chain.len() ==> first_argument(#[trigger] chain[i]) is Some,
        step_texts(chain, n) is Some,
    ensures
        step_texts(chain, n)->0.len() == n,
        forall|i: int|
            0 <= i < n ==> render_step(chain[chain.len() - 1 - i]) == Some(
                #[trigger] step_texts(chain, n)->0[i],
            ),
    decreases n,
{
    if n > 0 {
        lemma_step_texts_of_calls(chain, (n - 1) as nat);
    }
}

/// The round trip of the pipeline rewrite. Of a chain that begins at `e`:
/// the pipeline of its input through its steps stands for `e` again, and
/// where the chain has a plan, the texts in the plan are the text of that
/// input and the texts of those steps, each written as a call on the rest
/// of its arguments.
pub proof fn lemma_pipeline_round_trip(e: TypedExpr)
    requires
        call_chain(e).len() > 0,
    ensures
        first_argument(call_chain(e).last()) is Some,
        unfolds_to(e, first_argument(call_chain(e).last())->0, steps_of(call_chain(e))),
        plan_of(call_chain(e)) matches Some(plan) ==> {
            &&& Some(plan.input) == render(first_argument(call_chain(e).last())->0)
            &&& plan.location == e.spec_location()
            &&& plan.calls.len() == call_chain(e).len()
            &&& forall|i: int|
                0 <= i < plan.calls.len() ==> Some(#[trigger] plan.calls[i]) == render_call(
                    steps_of(call_chain(e))[i].fun,
                    steps_of(call_chain(e))[i].rest,
                    0,
                )
        },
    decreases e,
{
    let chain = call_chain(e);
    let first = first_argument(e)->0;
    let inner = call_chain(first);
    lemma_chain_links(e);
    assert(chain =~= seq![e] + inner);
    let steps = steps_of(chain);
    assert(steps.last() == step_of(e));
    let input = first_argument(chain.last())->0;
    if inner.len() > 0 {
        lemma_pipeline_round_trip(first);
        assert(chain.last() == inner.last());
        assert(steps.drop_last() =~= steps_of(inner));
        assert(unfolds_to(first, input, steps.drop_last()));
    } else {
        assert(chain.last() == e);
        assert(steps.drop_last() =~= Seq::<Step>::empty());
        assert(unfolds_to(first, input, steps.drop_last()));
    }
    assert(steps.len() > 0);
    assert(unfolds_to(e, input, steps));
    if plan_of(chain) is Some {
        let plan = plan_of(chain)->0;
        lemma_step_texts_of_calls(chain, chain.len());
        assert forall|i: int| 0 <= i < plan.calls.len() implies Some(#[trigger] plan.calls[i])
            == render_call(steps[i].fun, steps[i].rest, 0) by {
            lemma_step_text(chain[chain.len() - 1 - i]);
        }
    }
}

/// `n` spaces.
pub open spec fn spaces(n: nat) -> Seq<char>
    decreases n,
{
    if n == 0 {
        Seq::empty()
    } else {
        spaces((n - 1) as nat) + " "@
    }
}

/// The lines of the first `n` steps: each indented by `indent` spaces,
/// led by the pipe operator and ended by a line end.
pub open spec fn step_lines(calls: Seq<Seq<char>>, indent: nat, n: nat) -> Seq<char>
    decreases n,
{
    if n == 0 || n > calls.len() {
        Seq::empty()
    } else {
        step_lines(calls, indent, (n - 1) as nat) + spaces(indent) + "|> "@ + calls[n - 1]
            + "\n"@
    }
}

/// The text of a pipeline: the input on the first line, then one line for
/// each step.
pub open spec fn pipeline_text(plan: PipelinePlan, indent: nat) -> Seq<char> {
    plan.input + " \n"@ + step_lines(plan.calls, indent, plan.calls.len())
}

/// The edit that puts the pipeline in the place of the expression it
/// stands for, its steps indented by `indent` spaces. There is none where
/// the span of that expression ends before it begins or reaches outside
/// the text.
pub fn create_edit(pipeline_parts: PipelineParts, line_numbers: &PositionIndex, indent: u32) -> (edit:
    Option<TextEdit>)
    ensures
        edit is Some <==> pipeline_parts.location.wf() && span_in_text(
            line_numbers@,
            pipeline_parts.location,
        ),
        edit matches Some(e) ==> e@ == substitution(
            line_numbers@,
            pipeline_parts.location,
            pipeline_text(pipeline_parts@, indent as nat),
        ),
{
    if pipeline_parts.location.start > pipeline_parts.location.end {
        return None;
    }
    let range = match line_numbers.range(
        pipeline_parts.location.start,
        pipeline_parts.location.end,
    ) {
        Ok(r) => r,
        Err(_) => {
            return None;
        },
    };
    let ghost plan = pipeline_parts@;
    let PipelineParts { input, location, calls } = pipeline_parts;
    let mut text = input;
    text.append(" \n");
    let mut n: usize = 0;
    assert(text@ =~= plan.input + " \n"@ + step_lines(plan.calls, indent as nat, 0));
    while n < calls.len()
        invariant
            n <= calls@.len(),
            plan.calls == calls@.map_values(|s: String| s@),
            text@ == plan.input + " \n"@ + step_lines(plan.calls, indent as nat, n as nat),
        decreases calls.len() - n,
    {
        let ghost line_start = text@;
        let mut k: u32 = 0;
        assert(text@ =~= line_start + spaces(0));
        while k < indent
            invariant
                k <= indent,
                text@ == line_start + spaces(k as nat),
            decreases indent - k,
        {
            text.append(" ");
            k += 1;
            assert(text@ =~= line_start + spaces(k as nat));
        }
        text.append("|> ");
        text.append(calls[n].as_str());
        text.append("\n");
        n += 1;
        assert(text@ =~= plan.input + " \n"@ + step_lines(plan.calls, indent as nat, n as nat));
    }
    Some(TextEdit { range, new_text: text })
}

/// The call that a pipeline rewrite of `node` would start from: the node
/// itself if it is a call, the value of an assignment if that is a call.
pub open spec fn pipeline_target(node: Located) -> Option<TypedExpr> {
    match node {
        Located::Expression(e) => if *e is Call {
            Some(*e)
        } else {
            None
        },
        Located::Statement(s) => match *s {
            Statement::Assignment(a) => if *a.value is Call {
                Some(*a.value)
            } else {
                None
            },
            _ => None,
        },
    }
}

/// The edit that rewrites `call` as a pipeline in the text `bytes`: the
/// pipeline of its chain, in place of the call, with the steps indented to
/// the column at which the call begins.
pub open spec fn pipeline_edit(bytes: Seq<u8>, call: TypedExpr) -> Option<TextEditView> {
    match plan_of(call_chain(call)) {
        Some(plan) => if plan.location.wf() && span_in_text(bytes, plan.location) {
            Some(
                substitution(
                    bytes,
                    plan.location,
                    pipeline_text(
                        plan,
                        position_at(bytes, plan.location.start as int).character as nat,
                    ),
                ),
            )
        } else {
            None
        },
        None => None,
    }
}

/// The title of the pipeline rewrite.
pub open spec fn pipeline_title() -> Seq<char> {
    "Apply Pipeline Rewrite"@
}

/// The pipeline rewrite offered at `node`, if one is. None is offered for
/// a chain of fewer than two calls. Listed eagerly, the action carries its
/// edit and its handle, and is not offered where the edit cannot be made;
/// listed lazily, it carries the handle alone.
pub open spec fn pipeline_action(
    bytes: Seq<u8>,
    params: CodeActionParamsView,
    eager: bool,
    node: Located,
) -> Option<CodeActionView> {
    match pipeline_target(node) {
        Some(call) => if call_chain(call).len() < 2 {
            None
        } else if eager {
            match pipeline_edit(bytes, call) {
                Some(edit) => Some(
                    CodeActionView {
                        title: pipeline_title(),
                        kind: Some(CodeActionKind::RefactorRewrite),
                        edit: Some(Map::empty().insert(params.uri, seq![edit])),
                        is_preferred: Some(true),
                        data: Some(
                            CodeActionDataView {
                                id: CodeActionHandler::pipeline.spec_id(),
                                code_action_params: params,
                            },
                        ),
                    },
                ),
                None => None,
            }
        } else {
            Some(
                CodeActionView {
                    title: pipeline_title(),
                    kind: Some(CodeActionKind::RefactorRewrite),
                    edit: None,
                    is_preferred: Some(true),
                    data: Some(
                        CodeActionDataView {
                            id: CodeActionHandler::pipeline.spec_id(),
                            code_action_params: params,
                        },
                    ),
                },
            )
        },
        None => None,
    }
}

/// The pipeline rewrites offered at the first `n` of `nodes`, in order.
pub open spec fn pipeline_actions_upto(
    bytes: Seq<u8>,
    params: CodeActionParamsView,
    eager: bool,
    nodes: Seq<Located>,
    n: nat,
) -> Seq<CodeActionView>
    decreases n,
{
    if n == 0 || n > nodes.len() {
        Seq::empty()
    } else {
        let before = pipeline_actions_upto(bytes, params, eager, nodes, (n - 1) as nat);
        match pipeline_action(bytes, params, eager, nodes[n - 1]) {
            Some(action) => before.push(action),
            None => before,
        }
    }
}

/// The pipeline rewrites offered at `nodes` of a module whose source text
/// is `code`. A text too long for the offsets gets none.
pub open spec fn pipeline_actions(
    code: Seq<char>,
    params: CodeActionParamsView,
    eager: bool,
    nodes: Seq<Located>,
) -> Seq<CodeActionView> {
    if encode_utf8(code).len() > u32::MAX {
        Seq::empty()
    } else {
        pipeline_actions_upto(encode_utf8(code), params, eager, nodes, nodes.len())
    }
}

/// The call that a pipeline rewrite of `node` would start from.
fn target_of<'a>(node: &Located<'a>) -> (call: Option<&'a TypedExpr>)
    ensures
        call is Some <==> pipeline_target(*node) is Some,
        call matches Some(c) ==> pipeline_target(*node) == Some(*c),
{
    match node {
        Located::Expression(e) => match e {
            TypedExpr::Call { .. } => Some(*e),
            _ => None,
        },
        Located::Statement(s) => match s {
            Statement::Assignment(a) => match &*a.value {
                TypedExpr::Call { .. } => Some(&*a.value),
                _ => None,
            },
            _ => None,
        },
    }
}

/// The edit that rewrites `call`, whose chain is `chain`, as a pipeline.
fn edit_for(call: &TypedExpr, chain: Vec<&TypedExpr>, line_numbers: &PositionIndex) -> (edit:
    Option<TextEdit>)
    requires
        nodes_of(chain@) == call_chain(*call),
    ensures
        edit is Some <==> pipeline_edit(line_numbers@, *call) is Some,
        edit matches Some(e) ==> pipeline_edit(line_numbers@, *call) == Some(e@),
{
    let parts = match convert_call_chain_to_pipeline(chain) {
        Some(parts) => parts,
        None => {
            return None;
        },
    };
    let indent = match line_numbers.position(parts.location.start) {
        Ok(p) => p.character,
        Err(_) => {
            return None;
        },
    };
    create_edit(parts, line_numbers, indent)
}

/// Appends to `actions` the pipeline rewrite of each of `nodes` that has
/// one: of a call, and of an assignment whose value is a call, where the
/// chain of that call holds two calls or more.
pub fn convert_to_pipeline(
    module: &Module,
    params: &CodeActionParams,
    actions: &mut Vec<CodeAction>,
    strategy: ResolveStrategy,
    nodes: &Vec<Located<'_>>,
)
    ensures
        actions_view(final(actions)@) == actions_view(old(actions)@) + pipeline_actions(
            module.code@,
            params@,
            strategy.spec_is_eager(),
            nodes@,
        ),
{
    let ghost before = actions_view(actions@);
    let line_numbers = match PositionIndex::new(module.code.as_str()) {
        Some(index) => index,
        None => {
            assert(actions_view(actions@) =~= before + Seq::empty());
            return;
        },
    };
    let ghost bytes = line_numbers@;
    let eager = strategy.is_eager();
    let mut i: usize = 0;
    assert(actions_view(actions@) =~= before + pipeline_actions_upto(
        bytes,
        params@,
        eager,
        nodes@,
        0,
    ));
    while i < nodes.len()
        invariant
            i <= nodes@.len(),
            bytes == line_numbers@,
            actions_view(actions@) == before + pipeline_actions_upto(
                bytes,
                params@,
                eager,
                nodes@,
                i as nat,
            ),
        decreases nodes.len() - i,
    {
        let found = pipeline_action_at(&nodes[i], params, eager, &line_numbers);
        match found {
            Some(action) => {
                action.push_to(actions);
            },
            None => {},
        }
        i += 1;
        assert(actions_view(actions@) =~= before + pipeline_actions_upto(
            bytes,
            params@,
            eager,
            nodes@,
            i as nat,
        ));
    }
}

/// The pipeline rewrite offered at `node`, ready to be pushed.
fn pipeline_action_at(
    node: &Located<'_>,
    params: &CodeActionParams,
    eager: bool,
    line_numbers: &PositionIndex,
) -> (found: Option<CodeActionBuilder>)
    ensures
        found is Some <==> pipeline_action(line_numbers@, params@, eager, *node) is Some,
        found matches Some(b) ==> pipeline_action(line_numbers@, params@, eager, *node) == Some(
            b@,
        ),
{
    let call = match target_of(node) {
        Some(call) => call,
        None => {
            return None;
        },
    };
    let mut chain: Vec<&TypedExpr> = Vec::new();
    assert(nodes_of(chain@) =~= Seq::empty());
    detect_call_chain(call, &mut chain);
    assert(nodes_of(chain@) =~= call_chain(*call));
    assert(chain@.len() == nodes_of(chain@).len());
    if chain.len() < 2 {
        return None;
    }
    let builder = CodeActionBuilder::new("Apply Pipeline Rewrite").kind(
        CodeActionKind::RefactorRewrite,
    );
    if eager {
        let edit = match edit_for(call, chain, line_numbers) {
            Some(edit) => edit,
            None => {
                return None;
            },
        };
        let mut edits: Vec<TextEdit> = Vec::new();
        edits.push(edit);
        assert(edits_view(edits@) =~= seq![edit@]);
        Some(
            builder.changes(params.uri.clone(), edits).data(
                CodeActionHandler::pipeline.id(),
                params.clone(),
            ).preferred(true),
        )
    } else {
        Some(builder.data(CodeActionHandler::pipeline.id(), params.clone()).preferred(true))
    }
}

} // verus!
