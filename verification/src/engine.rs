//! From a request to its actions.
//!
//! The start of the requested range is turned into a byte offset, the
//! node under it is found, and each refactoring is asked for its action at
//! that node.

use vstd::prelude::*;
use vstd::utf8::encode_utf8;
use crate::ast::{Definition, Located, Module};
use crate::code_action::{
    actions_view, CodeAction, CodeActionData, CodeActionDataView, CodeActionHandler,
    CodeActionParams, CodeActionParamsView, CodeActionView, ResolveStrategy,
};
use crate::inline::{inline_action, inline_local_variable};
use crate::locate::locate_in_module;
use crate::pipeline::{convert_to_pipeline, pipeline_actions};
use crate::position::{offset_at, OutOfRange, PositionIndex};

verus! {

/// The nodes that a request at offset `o` is about: the node under the
/// offset, if there is one.
pub open spec fn nodes_at<'a>(defs: Seq<Definition>, o: u32) -> Seq<Located<'a>> {
    match locate_in_module(defs, o) {
        Some(node) => seq![node],
        None => Seq::empty(),
    }
}

/// The byte offset at which a request on a text begins, if the start of
/// its range names a place in the text.
pub open spec fn request_offset(code: Seq<char>, params: CodeActionParamsView) -> Option<u32> {
    if encode_utf8(code).len() > u32::MAX {
        None
    } else {
        offset_at(encode_utf8(code), params.range.start)
    }
}

/// The actions for a request that begins at offset `o`: the pipeline
/// rewrite first, then the inlining.
pub open spec fn actions_at(
    code: Seq<char>,
    defs: Seq<Definition>,
    params: CodeActionParamsView,
    eager: bool,
    o: u32,
) -> Seq<CodeActionView> {
    let rewrites = pipeline_actions(code, params, eager, nodes_at(defs, o));
    match inline_action(code, defs, params) {
        Some(action) => rewrites.push(action),
        None => rewrites,
    }
}

/// The nodes that a request at `byte_index` is about.
fn nodes_under(module: &Module, byte_index: u32) -> (nodes: Vec<Located<'_>>)
    ensures
        nodes@ == nodes_at(module.definitions@, byte_index),
{
    let mut nodes: Vec<Located<'_>> = Vec::new();
    match module.find_node(byte_index) {
        Some(node) => {
            nodes.push(node);
        },
        None => {},
    }
    assert(nodes@ =~= nodes_at(module.definitions@, byte_index));
    nodes
}

/// The byte offset at which the request begins.
fn offset_of(module: &Module, params: &CodeActionParams) -> (offset: Result<u32, OutOfRange>)
    ensures
        offset == match request_offset(module.code@, params@) {
            Some(o) => Ok::<u32, OutOfRange>(o),
            None => Err::<u32, OutOfRange>(OutOfRange),
        },
{
    match PositionIndex::new(module.code.as_str()) {
        Some(index) => index.byte_offset(params.range.start.line, params.range.start.character),
        None => Err(OutOfRange),
    }
}

/// The actions that the module offers for a request.
///
/// Fails where the start of the requested range names no place in the
/// source text; a request that names a place where nothing can be done
/// succeeds with no action.
pub fn code_actions(module: &Module, params: &CodeActionParams, strategy: ResolveStrategy) -> (result:
    Result<Vec<CodeAction>, OutOfRange>)
    ensures
        result is Ok <==> request_offset(module.code@, params@) is Some,
        result matches Ok(actions) ==> actions_view(actions@) == actions_at(
            module.code@,
            module.definitions@,
            params@,
            strategy.spec_is_eager(),
            request_offset(module.code@, params@)->0,
        ),
{
    let byte_index = match offset_of(module, params) {
        Ok(o) => o,
        Err(e) => {
            return Err(e);
        },
    };
    let nodes = nodes_under(module, byte_index);
    let mut actions: Vec<CodeAction> = Vec::new();
    assert(actions_view(actions@) =~= Seq::empty());
    convert_to_pipeline(module, params, &mut actions, strategy, &nodes);
    assert(actions_view(actions@) =~= pipeline_actions(
        module.code@,
        params@,
        strategy.spec_is_eager(),
        nodes@,
    ));
    inline_local_variable(module, params, &mut actions);
    Ok(actions)
}

/// The action that a handle stands for: what the computation it names
/// offers, listed eagerly, for the request it holds. The first action, if
/// there are several; none where the handle names no computation or the
/// request begins at no place in the text.
pub open spec fn resolved_action(
    code: Seq<char>,
    defs: Seq<Definition>,
    data: CodeActionDataView,
) -> Option<CodeActionView> {
    match (
        CodeActionHandler::spec_from_id(data.id),
        request_offset(code, data.code_action_params),
    ) {
        (Some(CodeActionHandler::pipeline), Some(o)) => {
            let rewrites = pipeline_actions(code, data.code_action_params, true, nodes_at(defs, o));
            if rewrites.len() > 0 {
                Some(rewrites[0])
            } else {
                None
            }
        },
        (Some(CodeActionHandler::inline_localvar), Some(_)) => inline_action(
            code,
            defs,
            data.code_action_params,
        ),
        _ => None,
    }
}

/// Computes the action that a handle stands for, edits and all, by doing
/// again on the same request what an eager listing would have done.
pub fn resolve_code_action(module: &Module, data: &CodeActionData) -> (action: Option<CodeAction>)
    ensures
        action is Some <==> resolved_action(module.code@, module.definitions@, data@) is Some,
        action matches Some(a) ==> resolved_action(module.code@, module.definitions@, data@)
            == Some(a@),
{
    let handler = match CodeActionHandler::from_id(&data.id) {
        Some(handler) => handler,
        None => {
            return None;
        },
    };
    let params = &data.code_action_params;
    let byte_index = match offset_of(module, params) {
        Ok(o) => o,
        Err(_) => {
            return None;
        },
    };
    let mut actions: Vec<CodeAction> = Vec::new();
    assert(actions_view(actions@) =~= Seq::empty());
    match handler {
        CodeActionHandler::pipeline => {
            let nodes = nodes_under(module, byte_index);
            convert_to_pipeline(module, params, &mut actions, ResolveStrategy::Eager, &nodes);
            assert(actions_view(actions@) =~= pipeline_actions(
                module.code@,
                params@,
                true,
                nodes@,
            ));
        },
        CodeActionHandler::inline_localvar => {
            inline_local_variable(module, params, &mut actions);
        },
        CodeActionHandler::defer_calc => {
            return None;
        },
    }
    assert(actions@.len() == actions_view(actions@).len());
    if actions.len() == 0 {
        return None;
    }
    let ghost listed = actions_view(actions@);
    let first = actions.swap_remove(0);
    assert(first@ == listed[0]);
    Some(first)
}

} // verus!
