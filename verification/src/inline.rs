//! Inlining a local binding: putting the text of its value in the place
//! of a reference to it.
//!
//! Asked for at the declaration, every reference gets the value and the
//! declaration goes. Asked for at one reference, that reference gets the
//! value, and the declaration goes only if it was the last one.

use vstd::prelude::*;
use vstd::utf8::{encode_utf8, valid_utf8};
use crate::ast::{Assignment, Definition, Function, Located, Module, Pattern, Statement, TypedExpr};
use crate::code_action::{
    actions_view, CodeAction, CodeActionBuilder, CodeActionKind, CodeActionParams,
    CodeActionParamsView, CodeActionView,
};
use crate::edit::{
    compose_edits, composed, edits_view, lemma_composed_is_ordered, ordered_edits,
    replacements_view, substitution, Replacement, ReplacementView, TextEdit, TextEditView,
};
use crate::locate::{enclosing_function, locate_in_module};
use crate::position::{offset_at, PositionIndex};
use crate::render::render;
use crate::span::SrcSpan;
use crate::usage::{body_usages, nodes_of, usages_in_body};

verus! {

/// The wish to remove `span`.
pub open spec fn removal(span: SrcSpan) -> ReplacementView {
    ReplacementView { span, text: Seq::empty() }
}

/// The edit that removes `span`.
pub open spec fn deletion(bytes: Seq<u8>, span: SrcSpan) -> TextEditView {
    substitution(bytes, span, Seq::empty())
}

/// The wishes to put `text` in the place of each of `sites`.
pub open spec fn replacements_at(sites: Seq<TypedExpr>, text: Seq<char>) -> Seq<ReplacementView> {
    Seq::new(sites.len(), |i: int| ReplacementView { span: sites[i].spec_location(), text })
}

/// The edits that inline the binding of `a` at every reference in `body`:
/// the declaration is removed and each reference replaced by the text of
/// the value, in this order. There are none where the binding is not
/// referred to, where its value has no text, and where the edits cannot be
/// made together.
pub open spec fn inline_let_edits(bytes: Seq<u8>, a: Assignment, body: Seq<Statement>) -> Option<
    Seq<TextEditView>,
> {
    let sites = usages_in_body(a.pattern.spec_location(), body);
    if sites.len() == 0 {
        None
    } else {
        match render(*a.value) {
            Some(text) => composed(bytes, seq![removal(a.location)] + replacements_at(sites, text)),
            None => None,
        }
    }
}

/// The edits that inline, at the reference `e` alone, the binding that
/// assignment `a` declares. With exactly one reference to the binding in
/// `body` the declaration is removed and `e` replaced; otherwise only `e`
/// is replaced, and the declaration stays.
pub open spec fn inline_at_reference(
    bytes: Seq<u8>,
    e: TypedExpr,
    a: Assignment,
    body: Seq<Statement>,
) -> Option<Seq<TextEditView>> {
    match render(*a.value) {
        Some(text) => {
            let replaced = ReplacementView { span: e.spec_location(), text };
            if usages_in_body(a.pattern.spec_location(), body).len() == 1 {
                composed(bytes, seq![removal(a.location), replaced])
            } else {
                composed(bytes, seq![replaced])
            }
        },
        None => None,
    }
}

/// The assignment that declares the local variable which `e` refers to:
/// the statement found at the start of the declaring pattern.
pub open spec fn declaration_of(e: TypedExpr, defs: Seq<Definition>) -> Option<Assignment> {
    match e.spec_definition_location() {
        Some(decl) => match locate_in_module(defs, decl.start) {
            Some(Located::Statement(s)) => match *s {
                Statement::Assignment(a) => Some(a),
                _ => None,
            },
            _ => None,
        },
        None => None,
    }
}

/// The edits that inline at the reference `e`, if `e` refers to a local
/// variable whose declaration is found.
pub open spec fn inline_usage_edits(
    bytes: Seq<u8>,
    e: TypedExpr,
    body: Seq<Statement>,
    defs: Seq<Definition>,
) -> Option<Seq<TextEditView>> {
    match declaration_of(e, defs) {
        Some(a) => inline_at_reference(bytes, e, a, body),
        None => None,
    }
}

/// Inlines at the reference `e` the local variable that it refers to.
/// `f` is the function that holds the reference.
pub fn inline_usage(e: &TypedExpr, f: &Function, line_numbers: &PositionIndex, module: &Module) -> (edits:
    Option<Vec<TextEdit>>)
    ensures
        edits is Some <==> inline_usage_edits(line_numbers@, *e, f.body@, module.definitions@)
            is Some,
        edits matches Some(list) ==> inline_usage_edits(
            line_numbers@,
            *e,
            f.body@,
            module.definitions@,
        ) == Some(edits_view(list@)),
{
    let decl = match e.definition_location() {
        Some(decl) => decl,
        None => {
            return None;
        },
    };
    let let_assignment = match module.find_node(decl.start) {
        Some(Located::Statement(Statement::Assignment(a))) => a,
        _ => {
            return None;
        },
    };
    assert(declaration_of(*e, module.definitions@) == Some(*let_assignment));
    let text = match let_assignment.value.to_string() {
        Some(text) => text,
        None => {
            return None;
        },
    };
    let usages = body_usages(&let_assignment.pattern, &f.body);
    assert(usages@.len() == nodes_of(usages@).len());
    let delete_let = usages.len() == 1;
    let mut replacements: Vec<Replacement> = Vec::new();
    if delete_let {
        replacements.push(Replacement { span: let_assignment.location, text: String::new() });
    }
    replacements.push(Replacement { span: e.location(), text });
    proof {
        let replaced = ReplacementView { span: e.spec_location(), text: text@ };
        if delete_let {
            assert(replacements_view(replacements@) =~= seq![
                removal(let_assignment.location),
                replaced,
            ]);
        } else {
            assert(replacements_view(replacements@) =~= seq![replaced]);
        }
    }
    compose_edits(line_numbers, &replacements)
}

/// Inlines the binding of `assignment` at every reference to it in `f`,
/// and removes the declaration.
pub fn inline_let(assignment: &Assignment, f: &Function, line_numbers: &PositionIndex) -> (edits:
    Option<Vec<TextEdit>>)
    ensures
        edits is Some <==> inline_let_edits(line_numbers@, *assignment, f.body@) is Some,
        edits matches Some(list) ==> inline_let_edits(line_numbers@, *assignment, f.body@)
            == Some(edits_view(list@)),
{
    let usages = body_usages(&assignment.pattern, &f.body);
    let ghost sites = usages_in_body(assignment.pattern.spec_location(), f.body@);
    assert(usages@.len() == nodes_of(usages@).len());
    if usages.len() == 0 {
        return None;
    }
    let value_to_inline = match assignment.value.to_string() {
        Some(text) => text,
        None => {
            return None;
        },
    };
    let mut replacements: Vec<Replacement> = Vec::new();
    replacements.push(Replacement { span: assignment.location, text: String::new() });
    let mut i: usize = 0;
    while i < usages.len()
        invariant
            i <= usages@.len(),
            nodes_of(usages@) == sites,
            replacements@.len() == i + 1,
            replacements@[0]@ == removal(assignment.location),
            forall|k: int|
                0 <= k < i ==> (#[trigger] replacements@[k + 1])@ == (ReplacementView {
                    span: sites[k].spec_location(),
                    text: value_to_inline@,
                }),
        decreases usages.len() - i,
    {
        assert(*usages@[i as int] == sites[i as int]);
        replacements.push(
            Replacement { span: usages[i].location(), text: value_to_inline.clone() },
        );
        i += 1;
    }
    proof {
        let expected = seq![removal(assignment.location)] + replacements_at(
            sites,
            value_to_inline@,
        );
        assert(sites.len() == usages@.len());
        assert forall|j: int| 0 <= j < expected.len() implies replacements_view(
            replacements@,
        )[j] == expected[j] by {
            if j > 0 {
                assert(replacements@[(j - 1) + 1]@ == expected[j]);
            }
        }
        assert(replacements_view(replacements@) =~= expected);
    }
    compose_edits(line_numbers, &replacements)
}

/// The edits that inline the local variable under offset `o`: at one
/// reference where the node found there is an expression, at every
/// reference where it is an assignment to a plain variable.
pub open spec fn inline_edits(bytes: Seq<u8>, defs: Seq<Definition>, o: u32) -> Option<
    Seq<TextEditView>,
> {
    match enclosing_function(defs, o, defs.len()) {
        Some(f) => match locate_in_module(defs, o) {
            Some(Located::Expression(e)) => inline_usage_edits(bytes, *e, f.body@, defs),
            Some(Located::Statement(s)) => match *s {
                Statement::Assignment(a) => if a.pattern is Variable {
                    inline_let_edits(bytes, a, f.body@)
                } else {
                    None
                },
                _ => None,
            },
            None => None,
        },
        None => None,
    }
}

/// The title of the inlining action.
pub open spec fn inline_title() -> Seq<char> {
    "Inline Variable Refactor"@
}

/// The inlining action offered for a request on a module with source text
/// `code`, if one is: the edits for the node under the start of the
/// requested range. None is offered where that start names no place in
/// the text.
pub open spec fn inline_action(
    code: Seq<char>,
    defs: Seq<Definition>,
    params: CodeActionParamsView,
) -> Option<CodeActionView> {
    let bytes = encode_utf8(code);
    if bytes.len() > u32::MAX {
        None
    } else {
        match offset_at(bytes, params.range.start) {
            Some(o) => match inline_edits(bytes, defs, o) {
                Some(edits) => Some(
                    CodeActionView {
                        title: inline_title(),
                        kind: Some(CodeActionKind::RefactorInline),
                        edit: Some(Map::empty().insert(params.uri, edits)),
                        is_preferred: Some(true),
                        data: None,
                    },
                ),
                None => None,
            },
            None => None,
        }
    }
}

/// The edits that inline the local variable under `byte_index`.
fn edits_at(module: &Module, line_numbers: &PositionIndex, byte_index: u32) -> (edits: Option<
    Vec<TextEdit>,
>)
    ensures
        edits is Some <==> inline_edits(line_numbers@, module.definitions@, byte_index) is Some,
        edits matches Some(list) ==> inline_edits(line_numbers@, module.definitions@, byte_index)
            == Some(edits_view(list@)),
{
    let f = match module.find_enclosing_function(byte_index) {
        Some(f) => f,
        None => {
            return None;
        },
    };
    match module.find_node(byte_index) {
        Some(Located::Expression(e)) => inline_usage(e, f, line_numbers, module),
        Some(Located::Statement(Statement::Assignment(a))) => match &a.pattern {
            Pattern::Variable { .. } => inline_let(a, f, line_numbers),
            _ => None,
        },
        _ => None,
    }
}

/// Appends to `actions` the inlining action for the node under the start
/// of the requested range, if there is one.
pub fn inline_local_variable(
    module: &Module,
    params: &CodeActionParams,
    actions: &mut Vec<CodeAction>,
)
    ensures
        actions_view(final(actions)@) == match inline_action(
            module.code@,
            module.definitions@,
            params@,
        ) {
            Some(action) => actions_view(old(actions)@).push(action),
            None => actions_view(old(actions)@),
        },
{
    let line_numbers = match PositionIndex::new(module.code.as_str()) {
        Some(index) => index,
        None => {
            return;
        },
    };
    let byte_index = match line_numbers.byte_offset(
        params.range.start.line,
        params.range.start.character,
    ) {
        Ok(o) => o,
        Err(_) => {
            return;
        },
    };
    match edits_at(module, &line_numbers, byte_index) {
        Some(edits) => {
            CodeActionBuilder::new("Inline Variable Refactor").kind(
                CodeActionKind::RefactorInline,
            ).changes(params.uri.clone(), edits).preferred(true).push_to(actions);
        },
        None => {},
    }
}

/// Inlining at a reference to a binding that is referred to once removes
/// the declaration and replaces the reference: two edits, in that order.
pub proof fn lemma_inline_single_usage(
    bytes: Seq<u8>,
    e: TypedExpr,
    a: Assignment,
    body: Seq<Statement>,
)
    requires
        usages_in_body(a.pattern.spec_location(), body).len() == 1,
        inline_at_reference(bytes, e, a, body) is Some,
    ensures
        render(*a.value) is Some,
        inline_at_reference(bytes, e, a, body) == Some(
            seq![
                deletion(bytes, a.location),
                substitution(bytes, e.spec_location(), render(*a.value)->0),
            ],
        ),
{
}

/// Inlining at a reference to a binding that is referred to more than once
/// leaves the declaration alone: the one edit replaces the reference.
pub proof fn lemma_inline_one_of_many_usages(
    bytes: Seq<u8>,
    e: TypedExpr,
    a: Assignment,
    body: Seq<Statement>,
)
    requires
        usages_in_body(a.pattern.spec_location(), body).len() > 1,
        inline_at_reference(bytes, e, a, body) is Some,
    ensures
        render(*a.value) is Some,
        inline_at_reference(bytes, e, a, body) == Some(
            seq![substitution(bytes, e.spec_location(), render(*a.value)->0)],
        ),
{
}

/// The edits of an inlining never overlap, and they come in ascending
/// order: an editor can apply them one after the other.
pub proof fn lemma_inline_edits_are_ordered(bytes: Seq<u8>, defs: Seq<Definition>, o: u32)
    requires
        valid_utf8(bytes),
        bytes.len() <= u32::MAX,
        inline_edits(bytes, defs, o) is Some,
    ensures
        ordered_edits(inline_edits(bytes, defs, o)->0),
{
    let f = enclosing_function(defs, o, defs.len())->0;
    match locate_in_module(defs, o) {
        Some(Located::Expression(e)) => {
            let a = declaration_of(*e, defs)->0;
            let text = render(*a.value)->0;
            let replaced = ReplacementView { span: e.spec_location(), text };
            if usages_in_body(a.pattern.spec_location(), f.body@).len() == 1 {
                lemma_composed_is_ordered(bytes, seq![removal(a.location), replaced]);
            } else {
                lemma_composed_is_ordered(bytes, seq![replaced]);
            }
        },
        Some(Located::Statement(s)) => {
            match *s {
                Statement::Assignment(a) => {
                    let sites = usages_in_body(a.pattern.spec_location(), f.body@);
                    let text = render(*a.value)->0;
                    lemma_composed_is_ordered(
                        bytes,
                        seq![removal(a.location)] + replacements_at(sites, text),
                    );
                },
                _ => {},
            }
        },
        None => {},
    }
}

/// A binding that nothing refers to is not inlined: asked for at its
/// declaration, no action is offered.
pub proof fn lemma_unused_binding_gets_no_action(
    code: Seq<char>,
    defs: Seq<Definition>,
    params: CodeActionParamsView,
    a: Assignment,
    f: Function,
)
    requires
        encode_utf8(code).len() <= u32::MAX,
        offset_at(encode_utf8(code), params.range.start) matches Some(o) && enclosing_function(
            defs,
            o,
            defs.len(),
        ) == Some(f) && (locate_in_module(defs, o) matches Some(Located::Statement(s)) && *s
            == Statement::Assignment(a)),
        usages_in_body(a.pattern.spec_location(), f.body@).len() == 0,
    ensures
        inline_let_edits(encode_utf8(code), a, f.body@) is None,
        inline_action(code, defs, params) is None,
{
}

} // verus!
