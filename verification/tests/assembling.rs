use pipeline_actions::code_action::{
    CodeAction, CodeActionBuilder, CodeActionKind, CodeActionParams, ResolveStrategy,
};
use pipeline_actions::diagnostic::{
    title_line, Colour, Diagnostic, LabelStyle, ProjectErrorDiagnostic, Severity,
};
use pipeline_actions::edit::{compose_edits, Replacement, TextEdit, WorkspaceEdit};
use pipeline_actions::position::{Position, PositionIndex, Range};
use pipeline_actions::span::SrcSpan;

fn range(from: u32, to: u32) -> Range {
    Range {
        start: Position { line: 0, character: from },
        end: Position { line: 0, character: to },
    }
}

fn edit(from: u32, to: u32, text: &str) -> TextEdit {
    TextEdit { range: range(from, to), new_text: text.to_string() }
}

fn request() -> CodeActionParams {
    CodeActionParams { uri: "file:///a".to_string(), range: range(1, 2) }
}

fn built(builder: CodeActionBuilder) -> CodeAction {
    let mut actions = Vec::new();
    builder.push_to(&mut actions);
    assert_eq!(actions.len(), 1);
    actions.pop().unwrap()
}

#[test]
fn new_action_has_a_title_and_nothing_else() {
    let action = built(CodeActionBuilder::new("Title"));
    assert_eq!(action.title, "Title");
    assert!(action.kind.is_none());
    assert!(action.edit.is_none());
    assert!(action.is_preferred.is_none());
    assert!(action.data.is_none());
}

#[test]
fn builder_sets_each_field() {
    let action = built(
        CodeActionBuilder::new("Title")
            .kind(CodeActionKind::RefactorInline)
            .preferred(false)
            .data("handle".to_string(), request())
            .changes("file:///a".to_string(), vec![edit(0, 1, "x")]),
    );
    assert_eq!(action.title, "Title");
    assert_eq!(action.kind, Some(CodeActionKind::RefactorInline));
    assert_eq!(action.is_preferred, Some(false));
    let data = action.data.unwrap();
    assert_eq!(data.id, "handle");
    assert_eq!(data.code_action_params.uri, "file:///a");
    assert_eq!(data.code_action_params.range, range(1, 2));
    let edits = action.edit.unwrap();
    assert_eq!(edits.get("file:///a").unwrap().len(), 1);
    assert_eq!(edits.get("file:///a").unwrap()[0].new_text, "x");
}

#[test]
fn changes_replace_the_edits_of_a_document() {
    let action = built(
        CodeActionBuilder::new("Title")
            .changes("a".to_string(), vec![edit(0, 1, "first")])
            .changes("b".to_string(), vec![edit(0, 1, "other"), edit(2, 3, "more")])
            .changes("a".to_string(), vec![edit(5, 6, "second")]),
    );
    let edits = action.edit.unwrap();
    assert_eq!(edits.documents().len(), 2);
    assert_eq!(edits.get("a").unwrap().len(), 1);
    assert_eq!(edits.get("a").unwrap()[0].new_text, "second");
    assert_eq!(edits.get("b").unwrap().len(), 2);
    assert!(edits.get("c").is_none());
}

#[test]
fn push_to_appends() {
    let mut actions = Vec::new();
    CodeActionBuilder::new("one").push_to(&mut actions);
    CodeActionBuilder::new("two").push_to(&mut actions);
    assert_eq!(actions.len(), 2);
    assert_eq!(actions[0].title, "one");
    assert_eq!(actions[1].title, "two");
}

#[test]
fn resolve_attaches_the_edits_or_the_handle() {
    let eager = built(CodeActionBuilder::new("Title").resolve(
        true,
        "a".to_string(),
        vec![edit(0, 1, "x")],
        "handle".to_string(),
        request(),
    ));
    assert!(eager.data.is_none());
    assert_eq!(eager.edit.unwrap().get("a").unwrap()[0].new_text, "x");

    let deferred = built(CodeActionBuilder::new("Title").resolve(
        false,
        "a".to_string(),
        vec![edit(0, 1, "x")],
        "handle".to_string(),
        request(),
    ));
    assert!(deferred.edit.is_none());
    assert_eq!(deferred.data.unwrap().id, "handle");
}

#[test]
fn workspace_edit_keeps_one_entry_for_each_document() {
    let mut edits = WorkspaceEdit::new();
    assert!(edits.documents().is_empty());
    edits.insert("a".to_string(), vec![edit(0, 1, "x")]);
    edits.insert("b".to_string(), Vec::new());
    edits.insert("a".to_string(), Vec::new());
    assert_eq!(edits.documents().len(), 2);
    assert_eq!(edits.documents()[0].uri, "a");
    assert!(edits.get("a").unwrap().is_empty());
    assert!(edits.get("b").unwrap().is_empty());
    assert!(edits.get("").is_none());
}

#[test]
fn kinds_and_strategies() {
    assert_eq!(CodeActionKind::RefactorRewrite.as_str(), "refactor.rewrite");
    assert_eq!(CodeActionKind::RefactorInline.as_str(), "refactor.inline");
    assert!(ResolveStrategy::Eager.is_eager());
    assert!(!ResolveStrategy::Lazy.is_eager());
}

#[test]
fn request_clone_is_the_same_request() {
    let params = request();
    let copy = params.clone();
    assert_eq!(copy.uri, params.uri);
    assert_eq!(copy.range, params.range);
}

#[test]
fn severity_words_and_colours() {
    assert_eq!(Severity::Bug.kind(), "bug");
    assert_eq!(Severity::Error.kind(), "error");
    assert_eq!(Severity::Warning.kind(), "warning");
    assert_eq!(Severity::Note.kind(), "note");
    assert_eq!(Severity::Help.kind(), "help");
    assert_eq!(Severity::Bug.colour(), Colour::Red);
    assert_eq!(Severity::Error.colour(), Colour::Red);
    assert_eq!(Severity::Warning.colour(), Colour::Yellow);
    assert_eq!(Severity::Note.colour(), Colour::Blue);
    assert_eq!(Severity::Help.colour(), Colour::Blue);
}

#[test]
fn title_line_of_a_diagnostic() {
    assert_eq!(title_line("Unknown variable"), ": Unknown variable\n\n");
    assert_eq!(title_line(""), ": \n\n");
}

#[test]
fn diagnostic_in_its_general_form() {
    let d = Diagnostic {
        file: "src/app.gleam".to_string(),
        location: SrcSpan::new(3, 9),
        src: "let x = y".to_string(),
        title: "Unknown variable".to_string(),
        label: "not in scope".to_string(),
    };
    let general = d.into_multi_line();
    assert_eq!(general.file, "src/app.gleam");
    assert_eq!(general.src, "let x = y");
    assert_eq!(general.title, "Unknown variable");
    assert_eq!(general.labels.len(), 1);
    assert_eq!(general.labels[0].style, LabelStyle::Primary);
    assert_eq!(general.labels[0].location, SrcSpan::new(3, 9));
    assert_eq!(general.labels[0].label, "not in scope");
}

#[test]
fn project_error_holds_its_texts() {
    let d = ProjectErrorDiagnostic { title: "Duplicate module".to_string(), label: "x".to_string() };
    assert_eq!(d.title, "Duplicate module");
    assert_eq!(d.label, "x");
}

fn wish(start: u32, end: u32, text: &str) -> Replacement {
    Replacement { span: SrcSpan::new(start, end), text: text.to_string() }
}

#[test]
fn compose_edits_keeps_the_order_of_the_replacements() {
    let index = PositionIndex::new("let x = 1\nf(x, x)\n").unwrap();
    let edits =
        compose_edits(&index, &vec![wish(0, 9, ""), wish(12, 13, "1"), wish(15, 16, "1")]).unwrap();
    assert_eq!(edits.len(), 3);
    assert_eq!(edits[0].range, range(0, 9));
    assert_eq!(edits[0].new_text, "");
    let second_line = |from: u32, to: u32| Range {
        start: Position { line: 1, character: from },
        end: Position { line: 1, character: to },
    };
    assert_eq!(edits[1].range, second_line(2, 3));
    assert_eq!(edits[2].range, second_line(5, 6));
    assert_eq!(edits[2].new_text, "1");
}

#[test]
fn compose_edits_of_nothing_is_nothing() {
    let index = PositionIndex::new("abc").unwrap();
    assert!(compose_edits(&index, &Vec::new()).unwrap().is_empty());
}

#[test]
fn compose_edits_lets_neighbours_touch() {
    let index = PositionIndex::new("abcdef").unwrap();
    let edits = compose_edits(&index, &vec![wish(0, 3, "x"), wish(3, 3, "y"), wish(3, 6, "z")]);
    assert_eq!(edits.unwrap().len(), 3);
}

#[test]
fn compose_edits_refuses_what_would_spoil_the_text() {
    let index = PositionIndex::new("abcdef").unwrap();
    // overlapping
    assert!(compose_edits(&index, &vec![wish(0, 4, "x"), wish(3, 6, "y")]).is_none());
    // out of order
    assert!(compose_edits(&index, &vec![wish(3, 6, "y"), wish(0, 3, "x")]).is_none());
    // ending before it begins
    assert!(compose_edits(&index, &vec![wish(4, 2, "x")]).is_none());
    // reaching outside the text
    assert!(compose_edits(&index, &vec![wish(4, 7, "x")]).is_none());
    // falling inside a scalar value
    let index = PositionIndex::new("aéb").unwrap();
    assert!(compose_edits(&index, &vec![wish(0, 2, "x")]).is_none());
    assert!(compose_edits(&index, &vec![wish(0, 3, "x")]).is_some());
}
