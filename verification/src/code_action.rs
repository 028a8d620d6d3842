//! Code actions and the builder that assembles them.
//!
//! An action carries its edits, or the handle from which they can be
//! computed again on demand, or both.

use vstd::prelude::*;
use vstd::string::StringExecFns;
use crate::edit::{edits_view, TextEdit, TextEditView, WorkspaceEdit};
use crate::position::Range;

verus! {

/// The category of an action, as editors group them.
#[derive(Clone, Copy, Debug, PartialEq, Eq, Structural)]
pub enum CodeActionKind {
    /// `refactor.rewrite`
    RefactorRewrite,
    /// `refactor.inline`
    RefactorInline,
}

impl CodeActionKind {
    /// The name of the category.
    pub fn as_str(self) -> (name: &'static str)
        ensures
            name@ == match self {
                CodeActionKind::RefactorRewrite => "refactor.rewrite"@,
                CodeActionKind::RefactorInline => "refactor.inline"@,
            },
    {
        match self {
            CodeActionKind::RefactorRewrite => "refactor.rewrite",
            CodeActionKind::RefactorInline => "refactor.inline",
        }
    }
}

/// How the edits of an action reach the editor: with the action, or later
/// and only when the editor asks for them.
#[derive(Clone, Copy, Debug, PartialEq, Eq, Structural)]
pub enum ResolveStrategy {
    Eager,
    Lazy,
}

impl ResolveStrategy {
    pub open spec fn spec_is_eager(self) -> bool {
        self == ResolveStrategy::Eager
    }

    #[verifier::when_used_as_spec(spec_is_eager)]
    pub fn is_eager(self) -> (eager: bool)
        ensures
            eager == self.spec_is_eager(),
    {
        match self {
            ResolveStrategy::Eager => true,
            ResolveStrategy::Lazy => false,
        }
    }
}

/// A request for the actions at a range of a document.
#[derive(Debug)]
pub struct CodeActionParams {
    pub uri: String,
    pub range: Range,
}

/// The value of a request.
pub ghost struct CodeActionParamsView {
    pub uri: Seq<char>,
    pub range: Range,
}

impl View for CodeActionParams {
    type V = CodeActionParamsView;

    open spec fn view(&self) -> CodeActionParamsView {
        CodeActionParamsView { uri: self.uri@, range: self.range }
    }
}

impl Clone for CodeActionParams {
    fn clone(&self) -> (copy: Self)
        ensures
            copy@ == self@,
    {
        CodeActionParams { uri: self.uri.clone(), range: self.range }
    }
}

/// The handle of a deferred action: which computation to replay, and the
/// request to replay it on.
#[derive(Debug)]
pub struct CodeActionData {
    pub id: String,
    pub code_action_params: CodeActionParams,
}

/// The value of a handle.
pub ghost struct CodeActionDataView {
    pub id: Seq<char>,
    pub code_action_params: CodeActionParamsView,
}

impl View for CodeActionData {
    type V = CodeActionDataView;

    open spec fn view(&self) -> CodeActionDataView {
        CodeActionDataView { id: self.id@, code_action_params: self.code_action_params@ }
    }
}

/// The computations that a handle can name.
#[allow(non_camel_case_types)]
#[derive(Clone, Copy, Debug, PartialEq, Eq, Structural)]
pub enum CodeActionHandler {
    defer_calc,
    pipeline,
    inline_localvar,
}

impl CodeActionHandler {
    /// The identifier that names the computation in a handle.
    pub open spec fn spec_id(self) -> Seq<char> {
        match self {
            CodeActionHandler::defer_calc => "defer_calc"@,
            CodeActionHandler::pipeline => "pipeline"@,
            CodeActionHandler::inline_localvar => "inline_localvar"@,
        }
    }

    /// The identifier that names the computation in a handle.
    pub fn id(self) -> (id: String)
        ensures
            id@ == self.spec_id(),
    {
        match self {
            CodeActionHandler::defer_calc => String::from_str("defer_calc"),
            CodeActionHandler::pipeline => String::from_str("pipeline"),
            CodeActionHandler::inline_localvar => String::from_str("inline_localvar"),
        }
    }

    /// The computation that `id` names: the first whose identifier it is.
    pub open spec fn spec_from_id(id: Seq<char>) -> Option<CodeActionHandler> {
        if id == CodeActionHandler::defer_calc.spec_id() {
            Some(CodeActionHandler::defer_calc)
        } else if id == CodeActionHandler::pipeline.spec_id() {
            Some(CodeActionHandler::pipeline)
        } else if id == CodeActionHandler::inline_localvar.spec_id() {
            Some(CodeActionHandler::inline_localvar)
        } else {
            None
        }
    }

    /// The computation that `id` names, if it names one.
    pub fn from_id(id: &String) -> (handler: Option<CodeActionHandler>)
        ensures
            handler == Self::spec_from_id(id@),
    {
        if *id == CodeActionHandler::defer_calc.id() {
            Some(CodeActionHandler::defer_calc)
        } else if *id == CodeActionHandler::pipeline.id() {
            Some(CodeActionHandler::pipeline)
        } else if *id == CodeActionHandler::inline_localvar.id() {
            Some(CodeActionHandler::inline_localvar)
        } else {
            None
        }
    }
}

/// Each computation is the one that its own identifier names.
pub proof fn lemma_handler_id_round_trip(handler: CodeActionHandler)
    ensures
        CodeActionHandler::spec_from_id(handler.spec_id()) == Some(handler),
{
    reveal_strlit("defer_calc");
    reveal_strlit("pipeline");
    reveal_strlit("inline_localvar");
    assert("defer_calc"@.len() == 10);
    assert("pipeline"@.len() == 8);
    assert("inline_localvar"@.len() == 15);
}

/// One suggestion to the editor.
#[derive(Debug)]
pub struct CodeAction {
    pub title: String,
    pub kind: Option<CodeActionKind>,
    pub edit: Option<WorkspaceEdit>,
    pub is_preferred: Option<bool>,
    pub data: Option<CodeActionData>,
}

/// The value of an action.
pub ghost struct CodeActionView {
    pub title: Seq<char>,
    pub kind: Option<CodeActionKind>,
    pub edit: Option<Map<Seq<char>, Seq<TextEditView>>>,
    pub is_preferred: Option<bool>,
    pub data: Option<CodeActionDataView>,
}

impl View for CodeAction {
    type V = CodeActionView;

    open spec fn view(&self) -> CodeActionView {
        CodeActionView {
            title: self.title@,
            kind: self.kind,
            edit: match self.edit {
                Some(e) => Some(e@),
                None => None,
            },
            is_preferred: self.is_preferred,
            data: match self.data {
                Some(d) => Some(d@),
                None => None,
            },
        }
    }
}

/// The values of a sequence of actions.
pub open spec fn actions_view(actions: Seq<CodeAction>) -> Seq<CodeActionView> {
    actions.map_values(|a: CodeAction| a@)
}

/// The edits that an action has after it is given `edits` for `uri`: those
/// it had, with the edits of that document replaced.
pub open spec fn with_changes(
    edit: Option<Map<Seq<char>, Seq<TextEditView>>>,
    uri: Seq<char>,
    edits: Seq<TextEditView>,
) -> Map<Seq<char>, Seq<TextEditView>> {
    match edit {
        Some(changes) => changes.insert(uri, edits),
        None => Map::empty().insert(uri, edits),
    }
}

/// Assembles one action, field by field.
#[derive(Debug)]
pub struct CodeActionBuilder {
    action: CodeAction,
}

impl View for CodeActionBuilder {
    type V = CodeActionView;

    /// The action as built so far.
    closed spec fn view(&self) -> CodeActionView {
        self.action@
    }
}

impl CodeActionBuilder {
    /// An action with a title and nothing else.
    pub fn new(title: &str) -> (builder: Self)
        ensures
            builder@ == (CodeActionView {
                title: title@,
                kind: None,
                edit: None,
                is_preferred: None,
                data: None,
            }),
    {
        Self {
            action: CodeAction {
                title: String::from_str(title),
                kind: None,
                edit: None,
                is_preferred: None,
                data: None,
            },
        }
    }

    /// Sets the category.
    pub fn kind(self, kind: CodeActionKind) -> (builder: Self)
        ensures
            builder@ == (CodeActionView { kind: Some(kind), ..self@ }),
    {
        let mut action = self.action;
        action.kind = Some(kind);
        Self { action }
    }

    /// Gives the action `edits` for document `uri`, in place of any edits
    /// it had for that document.
    pub fn changes(self, uri: String, edits: Vec<TextEdit>) -> (builder: Self)
        ensures
            builder@ == (CodeActionView {
                edit: Some(with_changes(self@.edit, uri@, edits_view(edits@))),
                ..self@
            }),
    {
        let mut action = self.action;
        let mut edit = match action.edit.take() {
            Some(e) => e,
            None => WorkspaceEdit::new(),
        };
        edit.insert(uri, edits);
        action.edit = Some(edit);
        Self { action }
    }

    /// Marks the action as the preferred one, or as not preferred.
    pub fn preferred(self, is_preferred: bool) -> (builder: Self)
        ensures
            builder@ == (CodeActionView { is_preferred: Some(is_preferred), ..self@ }),
    {
        let mut action = self.action;
        action.is_preferred = Some(is_preferred);
        Self { action }
    }

    /// Attaches the handle from which the edits can be computed later.
    pub fn data(self, id: String, code_action_params: CodeActionParams) -> (builder: Self)
        ensures
            builder@ == (CodeActionView {
                data: Some(CodeActionDataView { id: id@, code_action_params: code_action_params@ }),
                ..self@
            }),
    {
        let mut action = self.action;
        action.data = Some(CodeActionData { id, code_action_params });
        Self { action }
    }

    /// Appends the finished action to `actions`.
    pub fn push_to(self, actions: &mut Vec<CodeAction>)
        ensures
            actions_view(final(actions)@) == actions_view(old(actions)@).push(self@),
    {
        actions.push(self.action);
        assert(actions_view(actions@) =~= actions_view(old(actions)@).push(self@));
    }

    /// Completes the action in one of its two modes: with the edits, when
    /// `resolve` is set, or else with the handle that stands for them.
    pub fn resolve(
        self,
        resolve: bool,
        uri: String,
        edits: Vec<TextEdit>,
        id: String,
        code_action_params: CodeActionParams,
    ) -> (builder: Self)
        ensures
            resolve ==> builder@ == (CodeActionView {
                edit: Some(with_changes(self@.edit, uri@, edits_view(edits@))),
                ..self@
            }),
            !resolve ==> builder@ == (CodeActionView {
                data: Some(CodeActionDataView { id: id@, code_action_params: code_action_params@ }),
                ..self@
            }),
    {
        if resolve {
            self.changes(uri, edits)
        } else {
            self.data(id, code_action_params)
        }
    }
}

} // verus!
