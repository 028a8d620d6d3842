use pipeline_actions::ast::{
    Assignment, CallArg, Definition, Function, Import, Located, Module, Pattern, Statement,
    TypedExpr, ValueConstructor, ValueConstructorVariant,
};
use pipeline_actions::ast::BinOp;
use pipeline_actions::code_action::{
    CodeAction, CodeActionHandler, CodeActionKind, CodeActionParams, ResolveStrategy,
};
use pipeline_actions::edit::TextEdit;
use pipeline_actions::engine::{code_actions, resolve_code_action};
use pipeline_actions::inline::{inline_let, inline_local_variable, inline_usage};
use pipeline_actions::pipeline::{
    convert_call_chain_to_pipeline, convert_to_pipeline, create_edit, detect_call_chain,
    PipelineParts,
};
use pipeline_actions::position::{OutOfRange, Position, PositionIndex, Range};
use pipeline_actions::span::SrcSpan;
use pipeline_actions::usage::{body_usages, usage_search};

// A small reader for the part of the language that these tests are written
// in. It builds the tree that a compiler would hand to the library, with
// the span of every node and the declaration of every local variable.

struct Reader<'s> {
    src: &'s [u8],
    at: usize,
    scope: Vec<(String, SrcSpan)>,
}

fn is_name_byte(b: u8) -> bool {
    b.is_ascii_alphanumeric() || b == b'_'
}

impl<'s> Reader<'s> {
    fn new(src: &'s str) -> Self {
        Reader { src: src.as_bytes(), at: 0, scope: Vec::new() }
    }

    fn skip_space(&mut self) {
        while self.at < self.src.len() && self.src[self.at].is_ascii_whitespace() {
            self.at += 1;
        }
    }

    fn peek(&mut self) -> u8 {
        self.skip_space();
        if self.at < self.src.len() {
            self.src[self.at]
        } else {
            0
        }
    }

    fn looking_at(&mut self, text: &str) -> bool {
        self.skip_space();
        self.src[self.at..].starts_with(text.as_bytes())
    }

    fn looking_at_word(&mut self, word: &str) -> bool {
        if !self.looking_at(word) {
            return false;
        }
        let after = self.at + word.len();
        after >= self.src.len() || !is_name_byte(self.src[after])
    }

    fn expect(&mut self, text: &str) {
        if !self.looking_at(text) {
            panic!("expected {:?} at offset {}", text, self.at);
        }
        self.at += text.len();
    }

    fn name(&mut self) -> (String, SrcSpan) {
        self.skip_space();
        let start = self.at;
        while self.at < self.src.len() && is_name_byte(self.src[self.at]) {
            self.at += 1;
        }
        if start == self.at {
            panic!("expected a name at offset {}", start);
        }
        let text = String::from_utf8(self.src[start..self.at].to_vec()).unwrap();
        (text, SrcSpan::new(start as u32, self.at as u32))
    }

    fn module(&mut self, src: &str) -> Module {
        let mut definitions = Vec::new();
        while self.peek() != 0 {
            if self.looking_at_word("import") {
                let start = self.at;
                self.expect("import");
                let (module, span) = self.name();
                definitions.push(Definition::Import(Import {
                    location: SrcSpan::new(start as u32, span.end),
                    module,
                }));
            } else {
                definitions.push(Definition::Function(self.function()));
            }
        }
        Module { name: "app".to_string(), code: src.to_string(), definitions }
    }

    fn params(&mut self) -> Vec<String> {
        let mut names = Vec::new();
        self.expect("(");
        while self.peek() != b')' {
            let (name, span) = self.name();
            self.scope.push((name.clone(), span));
            names.push(name);
            if self.looking_at(":") {
                self.expect(":");
                self.skip_type();
            }
            if self.looking_at(",") {
                self.expect(",");
            }
        }
        self.expect(")");
        names
    }

    fn skip_type(&mut self) {
        let _ = self.name();
        if self.looking_at("(") {
            self.expect("(");
            while self.peek() != b')' {
                self.skip_type();
                if self.looking_at(",") {
                    self.expect(",");
                }
            }
            self.expect(")");
        }
    }

    fn function(&mut self) -> Function {
        self.skip_space();
        let start = self.at;
        if self.looking_at_word("pub") {
            self.expect("pub");
        }
        self.expect("fn");
        let (name, _) = self.name();
        let depth = self.scope.len();
        let _ = self.params();
        if self.looking_at("->") {
            self.expect("->");
            self.skip_type();
        }
        let body = self.braced_statements();
        self.scope.truncate(depth);
        Function { location: SrcSpan::new(start as u32, self.at as u32), name, body }
    }

    fn braced_statements(&mut self) -> Vec<Statement> {
        self.expect("{");
        let depth = self.scope.len();
        let mut statements = Vec::new();
        while self.peek() != b'}' {
            statements.push(self.statement());
        }
        self.expect("}");
        self.scope.truncate(depth);
        statements
    }

    fn statement(&mut self) -> Statement {
        if self.looking_at_word("let") {
            let start = self.at;
            self.expect("let");
            let (name, span) = self.name();
            self.expect("=");
            let value = self.expression();
            let end = value.location().end;
            // the binding is in scope only after its own value
            self.scope.push((name.clone(), span));
            Statement::Assignment(Assignment {
                location: SrcSpan::new(start as u32, end),
                pattern: Pattern::Variable { location: span, name },
                value: Box::new(value),
            })
        } else {
            Statement::Expression(self.expression())
        }
    }

    fn operator(&mut self) -> Option<BinOp> {
        let table = [
            ("==", BinOp::Eq),
            ("<=", BinOp::LtEq),
            (">=", BinOp::GtEq),
            ("<", BinOp::Lt),
            (">", BinOp::Gt),
            ("+", BinOp::Add),
            ("-", BinOp::Sub),
            ("*", BinOp::Mult),
        ];
        for (text, op) in table {
            if self.looking_at(text) && !self.looking_at("->") {
                self.expect(text);
                return Some(op);
            }
        }
        None
    }

    fn expression(&mut self) -> TypedExpr {
        let mut left = self.term();
        while let Some(name) = self.operator() {
            let right = self.term();
            let location = SrcSpan::new(left.location().start, right.location().end);
            left = TypedExpr::BinOp {
                location,
                name,
                left: Box::new(left),
                right: Box::new(right),
            };
        }
        left
    }

    fn items(&mut self, close: u8) -> Vec<TypedExpr> {
        let mut items = Vec::new();
        while self.peek() != close {
            items.push(self.expression());
            if self.looking_at(",") {
                self.expect(",");
            }
        }
        items
    }

    fn term(&mut self) -> TypedExpr {
        self.skip_space();
        let start = self.at;
        let first = self.peek();
        let mut expr = if first == b'[' {
            self.expect("[");
            let elements = self.items(b']');
            self.expect("]");
            TypedExpr::List {
                location: SrcSpan::new(start as u32, self.at as u32),
                elements,
                tail: None,
            }
        } else if self.looking_at("#(") {
            self.expect("#(");
            let elems = self.items(b')');
            self.expect(")");
            TypedExpr::Tuple { location: SrcSpan::new(start as u32, self.at as u32), elems }
        } else if first == b'{' {
            let statements = self.braced_statements();
            TypedExpr::Block { location: SrcSpan::new(start as u32, self.at as u32), statements }
        } else if first == b'"' {
            self.at += 1;
            let from = self.at;
            while self.src[self.at] != b'"' {
                self.at += 1;
            }
            let value = String::from_utf8(self.src[from..self.at].to_vec()).unwrap();
            self.at += 1;
            TypedExpr::Str { location: SrcSpan::new(start as u32, self.at as u32), value }
        } else if first.is_ascii_digit() {
            let (value, location) = self.name();
            TypedExpr::Int { location, value }
        } else if self.looking_at_word("fn") {
            self.expect("fn");
            let depth = self.scope.len();
            let params = self.params();
            let body = self.braced_statements();
            self.scope.truncate(depth);
            TypedExpr::Fn { location: SrcSpan::new(start as u32, self.at as u32), params, body }
        } else {
            let (name, span) = self.name();
            if self.at < self.src.len() && self.src[self.at] == b'.' {
                self.at += 1;
                let (label, label_span) = self.name();
                TypedExpr::ModuleSelect {
                    location: SrcSpan::new(span.start, label_span.end),
                    module_alias: name,
                    label,
                }
            } else {
                let variant = match self.scope.iter().rev().find(|(n, _)| *n == name) {
                    Some((_, declared)) => {
                        ValueConstructorVariant::LocalVariable { location: *declared }
                    }
                    None => ValueConstructorVariant::ModuleValue { location: SrcSpan::new(0, 0) },
                };
                TypedExpr::Var { location: span, constructor: ValueConstructor { variant }, name }
            }
        };
        while self.at < self.src.len() && self.src[self.at] == b'(' {
            self.expect("(");
            let mut args = Vec::new();
            for value in self.items(b')') {
                args.push(CallArg { label: None, location: value.location(), value });
            }
            self.expect(")");
            expr = TypedExpr::Call {
                location: SrcSpan::new(start as u32, self.at as u32),
                fun: Box::new(expr),
                args,
            };
        }
        expr
    }
}

fn read_module(src: &str) -> Module {
    Reader::new(src).module(src)
}

fn read_expression(src: &str) -> TypedExpr {
    Reader::new(src).expression()
}

fn request(start: Position, end: Position) -> CodeActionParams {
    CodeActionParams { uri: "file:///src/app.gleam".to_string(), range: Range { start, end } }
}

fn position(line: u32, character: u32) -> Position {
    Position { line, character }
}

// Applies the edits as an editor does: in ascending order of their start,
// each span moved by what the edits before it added or took away.
fn apply_edits(src: &str, edits: &Vec<TextEdit>) -> String {
    let index = PositionIndex::new(src).expect("indexed");
    let mut spans: Vec<(usize, usize, &str)> = Vec::new();
    for edit in edits {
        let start = index.byte_offset(edit.range.start.line, edit.range.start.character).unwrap();
        let end = index.byte_offset(edit.range.end.line, edit.range.end.character).unwrap();
        spans.push((start as usize, end as usize, edit.new_text.as_str()));
    }
    spans.sort_by_key(|(start, _, _)| *start);
    let mut result = src.to_string();
    let mut delta: isize = 0;
    let mut last_end = 0;
    for (start, end, text) in spans {
        assert!(start >= last_end, "edits overlap");
        last_end = end;
        let from = (start as isize + delta) as usize;
        let to = (end as isize + delta) as usize;
        result.replace_range(from..to, text);
        delta += text.len() as isize - (end - start) as isize;
    }
    result
}

fn apply_code_action(src: &str, uri: &str, action: &CodeAction) -> String {
    match &action.edit {
        Some(edit) => match edit.get(uri) {
            Some(edits) => apply_edits(src, edits),
            None => panic!("No text edit found"),
        },
        None => panic!("No workspace edit found"),
    }
}

fn find_action(src: &str, start: Position, end: Position, title: &str) -> Option<String> {
    let module = read_module(src);
    let params = request(start, end);
    let actions = code_actions(&module, &params, ResolveStrategy::Eager).expect("in range");
    actions
        .into_iter()
        .find(|action| action.title == title)
        .map(|action| apply_code_action(src, &params.uri, &action))
}

fn pipeline_rewrite(src: &str, start: Position, end: Position, expected: bool) -> String {
    match find_action(src, start, end, "Apply Pipeline Rewrite") {
        Some(text) => text,
        None => {
            if expected {
                panic!("No code action produced by the engine")
            } else {
                "No codeaction produced, check if mark is hit...".to_string()
            }
        }
    }
}

#[test]
fn test_simple() {
    let result = pipeline_rewrite(
        r#"
import list

fn main() {
  let result = list.reverse(list.zip([1,2,3], [4,5,6]))
}
"#,
        position(4, 15),
        position(4, 61),
        true,
    );
    assert_eq!(
        result,
        "\nimport list\n\nfn main() {\n  let result = [1, 2, 3] \n               |> list.zip([4, 5, 6])\n               |> list.reverse()\n\n}\n"
    );
}

#[test]
fn convert_to_pipeline_test_converting_assign_to_pipeline() {
    let result = pipeline_rewrite(
        r#"
import list

fn main() {
  let result = list.reverse(list.zip([1,2,3], [4,5,6]))
}
"#,
        position(4, 15),
        position(4, 61),
        true,
    );
    assert_eq!(
        result,
        "\nimport list\n\nfn main() {\n  let result = [1, 2, 3] \n               |> list.zip([4, 5, 6])\n               |> list.reverse()\n\n}\n"
    );
}

#[test]
fn pipeline_action_test_converting_assign_to_pipeline() {
    let result = pipeline_rewrite(
        r#"
import list

fn main() {
  let result = list.reverse(list.zip(list.reverse([1,2,3]), list.reverse([4,5,6])))
}
"#,
        position(4, 15),
        position(4, 63),
        true,
    );
    assert_eq!(
        result,
        "\nimport list\n\nfn main() {\n  let result = [1, 2, 3] \n               |> list.reverse()\n               |> list.zip(list.reverse([4, 5, 6]))\n               |> list.reverse()\n\n}\n"
    );
}

#[test]
fn test_converting_assign_to_pipeline2() {
    let result = pipeline_rewrite(
        r#"
import list

fn main() {
  let result = list.reverse(list.zip(list.reverse([1,2,3]), list.reverse([4,5,6])))
}
"#,
        position(4, 15),
        position(4, 63),
        true,
    );
    assert_eq!(
        result,
        "\nimport list\n\nfn main() {\n  let result = [1, 2, 3] \n               |> list.reverse()\n               |> list.zip(list.reverse([4, 5, 6]))\n               |> list.reverse()\n\n}\n"
    );
}

#[test]
fn test_suggest_pipeline_assignment_func_chaining_func_as_input_pipeline() {
    let result = pipeline_rewrite(
        r#"
import list

fn main() {
  let result = list.reverse(list.map(buildlist(), add1))
}

fn buildlist() -> List(Int) {
    [1, 2, 3]
}

fn add1(i: Int) -> Int{
    i + 1
}
"#,
        position(4, 15),
        position(4, 63),
        true,
    );
    assert_eq!(
        result,
        "\nimport list\n\nfn main() {\n  let result = buildlist() \n               |> list.map(add1)\n               |> list.reverse()\n\n}\n\nfn buildlist() -> List(Int) {\n    [1, 2, 3]\n}\n\nfn add1(i: Int) -> Int{\n    i + 1\n}\n"
    );
}

#[test]
fn test_conversion_to_pipeline_with_call_as_input() {
    let result = pipeline_rewrite(
        r#"
import list

fn main() {
  let result = list.reverse(list.map(buildlist(), add1))
}

fn buildlist() -> List(Int) {
    [1, 2, 3]
}

fn add1(i: Int) -> Int{
    i + 1
}
"#,
        position(4, 15),
        position(4, 63),
        true,
    );
    assert_eq!(
        result,
        "\nimport list\n\nfn main() {\n  let result = buildlist() \n               |> list.map(add1)\n               |> list.reverse()\n\n}\n\nfn buildlist() -> List(Int) {\n    [1, 2, 3]\n}\n\nfn add1(i: Int) -> Int{\n    i + 1\n}\n"
    );
}

#[test]
fn convert_to_pipeline_test_converting_expr_to_pipeline() {
    let result = pipeline_rewrite(
        r#"
import list

fn main() {
  list.reverse(list.zip(list.reverse([1,2,3]), list.reverse([4,5,6])))
}
"#,
        position(4, 2),
        position(4, 47),
        true,
    );
    assert_eq!(
        result,
        "\nimport list\n\nfn main() {\n  [1, 2, 3] \n  |> list.reverse()\n  |> list.zip(list.reverse([4, 5, 6]))\n  |> list.reverse()\n\n}\n"
    );
}

#[test]
fn pipeline_action_test_converting_expr_to_pipeline() {
    let result = pipeline_rewrite(
        r#"
import list

fn main() {
  list.reverse(list.zip(list.reverse([1,2,3]), list.reverse([4,5,6])))
}
"#,
        position(4, 2),
        position(4, 47),
        true,
    );
    assert_eq!(
        result,
        "\nimport list\n\nfn main() {\n  [1, 2, 3] \n  |> list.reverse()\n  |> list.zip(list.reverse([4, 5, 6]))\n  |> list.reverse()\n\n}\n"
    );
}

#[test]
fn test_pipeline_code_action_no_pipeline_when_no_stringification_for_expression() {
    let result = pipeline_rewrite(
        r#"
import list

fn main() {
  list.take_while(list.reverse(list.map([1,2,3], fn(x){ x + 1 })), fn(x){x<3})
}
"#,
        position(4, 2),
        position(4, 47),
        false,
    );
    assert_eq!(result, "No codeaction produced, check if mark is hit...");
}

#[test]
fn test_pipeline_code_action_no_pipeline_when_call_chain_not_bigger_than_one() {
    let result = pipeline_rewrite(
        r#"
import list

fn main() {
  list.reverse([1, 2, 3, 4, 5])
}
"#,
        position(4, 2),
        position(4, 31),
        false,
    );
    assert_eq!(result, "No codeaction produced, check if mark is hit...");
}

fn main_body(module: &Module) -> &Function {
    for definition in &module.definitions {
        if let Definition::Function(f) = definition {
            if f.name == "main" {
                return f;
            }
        }
    }
    panic!("no main")
}

fn chain_texts(src: &str) -> Vec<String> {
    let expr = read_expression(src);
    let mut chain = Vec::new();
    detect_call_chain(&expr, &mut chain);
    chain.iter().map(|call| call.to_string().unwrap()).collect()
}

#[test]
fn chain_runs_from_the_outermost_call_inwards() {
    assert_eq!(chain_texts("c(b(a(x, 1), 2), 3)"), vec![
        "c(b(a(x, 1), 2), 3)".to_string(),
        "b(a(x, 1), 2)".to_string(),
        "a(x, 1)".to_string(),
    ]);
}

#[test]
fn chain_stops_before_the_pipe_placeholder() {
    // two calls stand before the call that takes the placeholder
    assert_eq!(chain_texts("f(g(h(_pipe, 1)))").len(), 2);
    assert_eq!(chain_texts("h(_pipe, 1)").len(), 0);
    assert_eq!(chain_texts("f(g(h(x, 1)))").len(), 3);
}

#[test]
fn chain_does_not_hold_a_call_without_arguments() {
    assert_eq!(chain_texts("f(g())"), vec!["f(g())".to_string()]);
    assert_eq!(chain_texts("g()").len(), 0);
    assert_eq!(chain_texts("x").len(), 0);
}

#[test]
fn detect_call_chain_appends_to_what_is_there() {
    let first = read_expression("a(b(1))");
    let second = read_expression("c(2)");
    let mut chain = Vec::new();
    detect_call_chain(&first, &mut chain);
    detect_call_chain(&second, &mut chain);
    assert_eq!(chain.len(), 3);
    assert_eq!(chain[2].to_string().unwrap(), "c(2)");
}

#[test]
fn pipeline_parts_of_a_chain() {
    let expr = read_expression("list.reverse(list.zip([1,2,3], [4,5,6]))");
    let mut chain = Vec::new();
    detect_call_chain(&expr, &mut chain);
    let parts = convert_call_chain_to_pipeline(chain).unwrap();
    assert_eq!(parts.input, "[1, 2, 3]");
    assert_eq!(parts.location, SrcSpan::new(0, 40));
    assert_eq!(parts.calls, vec!["list.zip([4, 5, 6])".to_string(), "list.reverse()".to_string()]);
}

#[test]
fn pipeline_parts_of_an_empty_chain() {
    assert!(convert_call_chain_to_pipeline(Vec::new()).is_none());
}

#[test]
fn pipeline_parts_need_every_text() {
    let expr = read_expression("f(g(1, 2 + 3))");
    let mut chain = Vec::new();
    detect_call_chain(&expr, &mut chain);
    assert_eq!(chain.len(), 2);
    assert!(convert_call_chain_to_pipeline(chain).is_none());

    let expr = read_expression("f(g(1 + 2))");
    let mut chain = Vec::new();
    detect_call_chain(&expr, &mut chain);
    assert!(convert_call_chain_to_pipeline(chain).is_none());
}

#[test]
fn create_edit_writes_one_line_for_each_step() {
    let index = PositionIndex::new("ab\n  f(g(x))\n").unwrap();
    let parts = PipelineParts {
        input: "x".to_string(),
        location: SrcSpan::new(5, 12),
        calls: vec!["g()".to_string(), "f()".to_string()],
    };
    let edit = create_edit(parts, &index, 2).unwrap();
    assert_eq!(edit.new_text, "x \n  |> g()\n  |> f()\n");
    assert_eq!(edit.range, Range { start: position(1, 2), end: position(1, 9) });
}

#[test]
fn create_edit_without_steps_or_indent() {
    let index = PositionIndex::new("f(x)").unwrap();
    let parts =
        PipelineParts { input: "x".to_string(), location: SrcSpan::new(0, 4), calls: Vec::new() };
    assert_eq!(create_edit(parts, &index, 0).unwrap().new_text, "x \n");
    let parts = PipelineParts {
        input: "x".to_string(),
        location: SrcSpan::new(0, 4),
        calls: vec!["f()".to_string()],
    };
    assert_eq!(create_edit(parts, &index, 0).unwrap().new_text, "x \n|> f()\n");
}

#[test]
fn create_edit_refuses_a_span_outside_the_text() {
    let index = PositionIndex::new("f(x)").unwrap();
    let parts =
        PipelineParts { input: "x".to_string(), location: SrcSpan::new(0, 5), calls: Vec::new() };
    assert!(create_edit(parts, &index, 0).is_none());
}

#[test]
fn rendering_of_each_kind() {
    assert_eq!(read_expression("12").to_string().unwrap(), "12");
    assert_eq!(read_expression("\"hi\"").to_string().unwrap(), "\"hi\"");
    assert_eq!(read_expression("name").to_string().unwrap(), "name");
    assert_eq!(read_expression("list.map").to_string().unwrap(), "list.map");
    assert_eq!(read_expression("[]").to_string().unwrap(), "[]");
    assert_eq!(read_expression("[1,2]").to_string().unwrap(), "[1, 2]");
    assert_eq!(read_expression("#(1,x)").to_string().unwrap(), "#(1, x)");
    assert_eq!(read_expression("f()").to_string().unwrap(), "f()");
    assert_eq!(read_expression("f(1,[2])").to_string().unwrap(), "f(1, [2])");
    assert_eq!(read_expression("fn(a,b){f(a)}").to_string().unwrap(), "fn(a, b) { f(a) }");
    assert_eq!(read_expression("fn(){1}").to_string().unwrap(), "fn() { 1 }");
}

#[test]
fn rendering_has_no_text_for_some_kinds() {
    assert!(read_expression("1 + 2").to_string().is_none());
    assert!(read_expression("{ 1 }").to_string().is_none());
    assert!(read_expression("fn(x){ x + 1 }").to_string().is_none());
    assert!(read_expression("fn(x){ 1 2 }").to_string().is_none());
    assert!(read_expression("f(1, 2 + 3)").to_string().is_none());
    assert!(read_expression("[1, 2 + 3]").to_string().is_none());
    assert!(read_expression("#(1 + 2)").to_string().is_none());
}

#[test]
fn rendering_of_labels_and_tails() {
    let call = TypedExpr::Call {
        location: SrcSpan::new(0, 0),
        fun: Box::new(read_expression("f")),
        args: vec![
            CallArg { label: None, location: SrcSpan::new(0, 0), value: read_expression("1") },
            CallArg {
                label: Some("with".to_string()),
                location: SrcSpan::new(0, 0),
                value: read_expression("g"),
            },
        ],
    };
    assert_eq!(call.to_string().unwrap(), "f(1, with: g)");
    assert_eq!(call.to_step_string().unwrap(), "f(with: g)");
    let list = TypedExpr::List {
        location: SrcSpan::new(0, 0),
        elements: vec![read_expression("1"), read_expression("2")],
        tail: Some(Box::new(read_expression("rest"))),
    };
    assert_eq!(list.to_string().unwrap(), "[1, 2, ..rest]");
    let list = TypedExpr::List {
        location: SrcSpan::new(0, 0),
        elements: Vec::new(),
        tail: Some(Box::new(read_expression("rest"))),
    };
    assert_eq!(list.to_string().unwrap(), "[..rest]");
}

#[test]
fn step_text_drops_the_first_argument() {
    assert_eq!(read_expression("f(1, 2, 3)").to_step_string().unwrap(), "f(2, 3)");
    assert_eq!(read_expression("f(1)").to_step_string().unwrap(), "f()");
    assert!(read_expression("f()").to_step_string().is_none());
    assert!(read_expression("x").to_step_string().is_none());
    // the first argument need not have a text
    assert_eq!(read_expression("f(1 + 2, 3)").to_step_string().unwrap(), "f(3)");
}

const INLINE_SRC: &str = "
fn main() {
  let x = f(1)
  let y = 2
  let z = 3
  g(x)
  h(y, [y, #(y)])
}
";

#[test]
fn usage_search_finds_each_reference_in_order() {
    let module = read_module(INLINE_SRC);
    let body = &main_body(&module).body;
    let pattern_of = |i: usize| match &body[i] {
        Statement::Assignment(a) => &a.pattern,
        _ => panic!("no assignment"),
    };
    let last = match &body[4] {
        Statement::Expression(e) => e,
        _ => panic!("no expression"),
    };
    let found = usage_search(pattern_of(1), last).unwrap();
    let starts: Vec<u32> = found.iter().map(|e| e.location().start).collect();
    assert_eq!(starts, vec![63, 67, 72]);
    assert!(usage_search(pattern_of(0), last).is_none());
    assert!(usage_search(pattern_of(2), last).is_none());
    assert_eq!(body_usages(pattern_of(0), body).len(), 1);
    assert_eq!(body_usages(pattern_of(1), body).len(), 3);
    assert_eq!(body_usages(pattern_of(2), body).len(), 0);
}

#[test]
fn usage_search_of_a_block_answers_with_a_list() {
    let module = read_module("fn main() {\n  let x = 1\n  { 2 }\n  1 + 2\n  { x }\n}\n");
    let body = &main_body(&module).body;
    let pattern = match &body[0] {
        Statement::Assignment(a) => &a.pattern,
        _ => panic!("no assignment"),
    };
    let expression = |i: usize| match &body[i] {
        Statement::Expression(e) => e,
        _ => panic!("no expression"),
    };
    assert_eq!(usage_search(pattern, expression(1)).unwrap().len(), 0);
    assert!(usage_search(pattern, expression(2)).is_none());
    assert_eq!(usage_search(pattern, expression(3)).unwrap().len(), 1);
}

#[test]
fn usage_search_goes_by_declaration_not_by_name() {
    let module =
        read_module("fn main() {\n  let x = 1\n  f(x)\n  fn(y) {\n    let x = 2\n    g(x)\n  }\n}\n");
    let body = &main_body(&module).body;
    let pattern = match &body[0] {
        Statement::Assignment(a) => &a.pattern,
        _ => panic!("no assignment"),
    };
    let found = body_usages(pattern, body);
    assert_eq!(found.len(), 1);
    assert_eq!(found[0].location(), SrcSpan::new(28, 29));
}

#[test]
fn usage_search_looks_into_every_covered_kind() {
    let module = read_module(
        "fn main() {\n  let x = 1\n  #(x, [x], f(x), x + x, fn() { x }, { x })\n  g(x)(2)\n}\n",
    );
    let body = &main_body(&module).body;
    let pattern = match &body[0] {
        Statement::Assignment(a) => &a.pattern,
        _ => panic!("no assignment"),
    };
    // the callee of a call is not searched
    assert_eq!(body_usages(pattern, body).len(), 7);
    let negated = TypedExpr::NegateBool {
        location: SrcSpan::new(0, 0),
        value: Box::new(TypedExpr::Var {
            location: SrcSpan::new(0, 0),
            constructor: ValueConstructor {
                variant: ValueConstructorVariant::LocalVariable { location: pattern.location() },
            },
            name: "x".to_string(),
        }),
    };
    assert!(usage_search(pattern, &negated).is_none());
}

fn inline_action_text(src: &str, line: u32, character: u32) -> Option<String> {
    find_action(src, position(line, character), position(line, character), "Inline Variable Refactor")
}

#[test]
fn inline_at_the_only_usage_removes_the_declaration() {
    let result = inline_action_text(INLINE_SRC, 5, 4).unwrap();
    assert_eq!(result, "\nfn main() {\n  \n  let y = 2\n  let z = 3\n  g(f(1))\n  h(y, [y, #(y)])\n}\n");
}

#[test]
fn inline_at_one_of_many_usages_keeps_the_declaration() {
    let result = inline_action_text(INLINE_SRC, 6, 8).unwrap();
    assert_eq!(
        result,
        "\nfn main() {\n  let x = f(1)\n  let y = 2\n  let z = 3\n  g(x)\n  h(y, [2, #(y)])\n}\n"
    );
}

#[test]
fn inline_at_the_declaration_replaces_every_usage() {
    let result = inline_action_text(INLINE_SRC, 3, 2).unwrap();
    assert_eq!(
        result,
        "\nfn main() {\n  let x = f(1)\n  \n  let z = 3\n  g(x)\n  h(2, [2, #(2)])\n}\n"
    );
}

#[test]
fn inline_at_the_declaration_of_an_unused_binding_offers_nothing() {
    assert!(inline_action_text(INLINE_SRC, 4, 2).is_none());
    let module = read_module(INLINE_SRC);
    let params = request(position(4, 2), position(4, 2));
    let mut actions = Vec::new();
    inline_local_variable(&module, &params, &mut actions);
    assert!(actions.is_empty());
    let actions = code_actions(&module, &params, ResolveStrategy::Eager).unwrap();
    assert!(actions.is_empty());
}

#[test]
fn inline_needs_a_text_for_the_value() {
    let src = "fn main() {\n  let x = 1 + 2\n  g(x)\n}\n";
    assert!(inline_action_text(src, 1, 2).is_none());
    assert!(inline_action_text(src, 2, 4).is_none());
}

#[test]
fn inline_functions_on_their_own() {
    let module = read_module(INLINE_SRC);
    let index = PositionIndex::new(INLINE_SRC).unwrap();
    let f = main_body(&module);
    let assignment = |i: usize| match &f.body[i] {
        Statement::Assignment(a) => a,
        _ => panic!("no assignment"),
    };
    let edits = inline_let(assignment(1), f, &index).unwrap();
    assert_eq!(edits.len(), 4);
    assert_eq!(edits[0].new_text, "");
    assert_eq!(edits[0].range, Range { start: position(3, 2), end: position(3, 11) });
    assert_eq!(edits[1].new_text, "2");
    assert_eq!(edits[1].range, Range { start: position(6, 4), end: position(6, 5) });
    assert_eq!(edits[3].range, Range { start: position(6, 13), end: position(6, 14) });
    assert!(inline_let(assignment(2), f, &index).is_none());

    let reference = match module.find_node(63) {
        Some(Located::Expression(e)) => e,
        _ => panic!("no expression"),
    };
    let edits = inline_usage(reference, f, &index, &module).unwrap();
    assert_eq!(edits.len(), 1);
    assert_eq!(edits[0].new_text, "2");
    let call = match module.find_node(61) {
        Some(Located::Expression(e)) => e,
        _ => panic!("no expression"),
    };
    assert!(inline_usage(call, f, &index, &module).is_none());
}

#[test]
fn inline_action_is_an_inline_refactoring() {
    let module = read_module(INLINE_SRC);
    let params = request(position(5, 4), position(5, 5));
    let mut actions = Vec::new();
    inline_local_variable(&module, &params, &mut actions);
    assert_eq!(actions.len(), 1);
    assert_eq!(actions[0].title, "Inline Variable Refactor");
    assert_eq!(actions[0].kind, Some(CodeActionKind::RefactorInline));
    assert_eq!(actions[0].is_preferred, Some(true));
    assert!(actions[0].data.is_none());
    assert_eq!(actions[0].edit.as_ref().unwrap().documents().len(), 1);
}

#[test]
fn find_node_answers_with_the_innermost_node() {
    let module = read_module(INLINE_SRC);
    // on `let`: the assignment itself
    assert!(matches!(module.find_node(15), Some(Located::Statement(Statement::Assignment(_)))));
    // inside the value of the assignment: the innermost expression
    match module.find_node(25) {
        Some(Located::Expression(TypedExpr::Int { value, .. })) => assert_eq!(value, "1"),
        _ => panic!("no literal"),
    }
    // on the callee: the call, whose callee is not searched
    assert!(matches!(module.find_node(23), Some(Located::Expression(TypedExpr::Call { .. }))));
    // between two statements, and outside every function
    assert!(module.find_node(13).is_none());
    assert!(module.find_node(0).is_none());
    assert!(module.find_node(10_000).is_none());
    assert!(module.find_enclosing_function(13).is_some());
    assert!(module.find_enclosing_function(0).is_none());
    assert_eq!(module.find_enclosing_function(25).unwrap().name, "main");
}

#[test]
fn find_node_ends_where_the_span_ends() {
    let expr = read_expression("f(1)");
    assert!(expr.find_node(3).is_some());
    assert!(expr.find_node(4).is_none());
}

const PIPELINE_SRC: &str = "
import list

fn main() {
  let result = list.reverse(list.zip([1,2,3], [4,5,6]))
}
";

#[test]
fn pipeline_action_carries_its_edit_and_its_handle() {
    let module = read_module(PIPELINE_SRC);
    let params = request(position(4, 15), position(4, 61));
    let actions = code_actions(&module, &params, ResolveStrategy::Eager).unwrap();
    assert_eq!(actions.len(), 1);
    let action = &actions[0];
    assert_eq!(action.title, "Apply Pipeline Rewrite");
    assert_eq!(action.kind, Some(CodeActionKind::RefactorRewrite));
    assert_eq!(action.is_preferred, Some(true));
    let data = action.data.as_ref().unwrap();
    assert_eq!(data.id, "pipeline");
    assert_eq!(data.code_action_params.uri, params.uri);
    assert_eq!(data.code_action_params.range, params.range);
    let edits = action.edit.as_ref().unwrap().get(&params.uri).unwrap();
    assert_eq!(edits.len(), 1);
    assert_eq!(edits[0].range, Range { start: position(4, 15), end: position(4, 55) });
}

#[test]
fn pipeline_action_over_the_assignment() {
    // the cursor on `let`, not on the call
    let result =
        pipeline_rewrite(PIPELINE_SRC, position(4, 2), position(4, 5), true);
    assert_eq!(
        result,
        "\nimport list\n\nfn main() {\n  let result = [1, 2, 3] \n               |> list.zip([4, 5, 6])\n               |> list.reverse()\n\n}\n"
    );
}

#[test]
fn lazy_listing_carries_the_handle_alone() {
    let module = read_module(PIPELINE_SRC);
    let params = request(position(4, 15), position(4, 61));
    let actions = code_actions(&module, &params, ResolveStrategy::Lazy).unwrap();
    assert_eq!(actions.len(), 1);
    assert!(actions[0].edit.is_none());
    let data = actions[0].data.as_ref().unwrap();
    assert_eq!(data.id, "pipeline");

    let resolved = resolve_code_action(&module, data).unwrap();
    let eager = code_actions(&module, &params, ResolveStrategy::Eager).unwrap();
    assert_eq!(
        apply_code_action(PIPELINE_SRC, &params.uri, &resolved),
        apply_code_action(PIPELINE_SRC, &params.uri, &eager[0])
    );
    assert_eq!(resolved.title, eager[0].title);
}

#[test]
fn lazy_listing_offers_what_may_not_resolve() {
    let src = "fn main() {\n  f(g(1, 2 + 3))\n}\n";
    let module = read_module(src);
    let params = request(position(1, 2), position(1, 2));
    assert!(code_actions(&module, &params, ResolveStrategy::Eager).unwrap().is_empty());
    let listed = code_actions(&module, &params, ResolveStrategy::Lazy).unwrap();
    assert_eq!(listed.len(), 1);
    assert!(resolve_code_action(&module, listed[0].data.as_ref().unwrap()).is_none());
}

#[test]
fn resolving_each_handle() {
    let module = read_module(INLINE_SRC);
    let handle = |id: &str| pipeline_actions::code_action::CodeActionData {
        id: id.to_string(),
        code_action_params: request(position(5, 4), position(5, 5)),
    };
    let resolved = resolve_code_action(&module, &handle("inline_localvar")).unwrap();
    assert_eq!(resolved.title, "Inline Variable Refactor");
    assert!(resolve_code_action(&module, &handle("pipeline")).is_none());
    assert!(resolve_code_action(&module, &handle("defer_calc")).is_none());
    assert!(resolve_code_action(&module, &handle("something else")).is_none());
    let outside = pipeline_actions::code_action::CodeActionData {
        id: "inline_localvar".to_string(),
        code_action_params: request(position(50, 0), position(50, 0)),
    };
    assert!(resolve_code_action(&module, &outside).is_none());
}

#[test]
fn request_outside_the_text_is_out_of_range() {
    let module = read_module(PIPELINE_SRC);
    let beyond_lines = request(position(7, 0), position(7, 0));
    assert_eq!(
        code_actions(&module, &beyond_lines, ResolveStrategy::Eager).err(),
        Some(OutOfRange)
    );
    let beyond_line = request(position(1, 12), position(1, 12));
    assert_eq!(code_actions(&module, &beyond_line, ResolveStrategy::Eager).err(), Some(OutOfRange));
    // a place where nothing can be done is in range
    let on_import = request(position(1, 3), position(1, 3));
    assert!(code_actions(&module, &on_import, ResolveStrategy::Eager).unwrap().is_empty());
}

#[test]
fn convert_to_pipeline_takes_each_node_in_turn() {
    let module = read_module(
        "fn main() {\n  let a = f(g(1))\n  h(k(2))\n  m(3)\n  let b = 4\n}\n",
    );
    let body = &main_body(&module).body;
    let mut nodes = Vec::new();
    for statement in body {
        match statement {
            Statement::Expression(e) => nodes.push(Located::Expression(e)),
            _ => nodes.push(Located::Statement(statement)),
        }
    }
    let params = request(position(1, 2), position(1, 2));
    let mut actions = Vec::new();
    convert_to_pipeline(&module, &params, &mut actions, ResolveStrategy::Eager, &nodes);
    assert_eq!(actions.len(), 2);
    let texts: Vec<String> = actions
        .iter()
        .map(|a| a.edit.as_ref().unwrap().get(&params.uri).unwrap()[0].new_text.clone())
        .collect();
    assert_eq!(texts, vec![
        "1 \n          |> g()\n          |> f()\n".to_string(),
        "2 \n  |> k()\n  |> h()\n".to_string(),
    ]);
    convert_to_pipeline(&module, &params, &mut actions, ResolveStrategy::Lazy, &nodes);
    assert_eq!(actions.len(), 4);
}

#[test]
fn handler_identifiers() {
    assert_eq!(CodeActionHandler::pipeline.id(), "pipeline");
    assert_eq!(CodeActionHandler::inline_localvar.id(), "inline_localvar");
    assert_eq!(CodeActionHandler::defer_calc.id(), "defer_calc");
    assert_eq!(
        CodeActionHandler::from_id(&"pipeline".to_string()),
        Some(CodeActionHandler::pipeline)
    );
    assert_eq!(CodeActionHandler::from_id(&"Pipeline".to_string()), None);
}
