use deno_isolate::deps::analyze_dependencies;
use deno_isolate::deps::AstParser;
use deno_isolate::deps::CommentKind;
use deno_isolate::deps::DependencyNode;
use deno_isolate::deps::SourceComment;
use deno_isolate::deps::SourceSpan;
use deno_isolate::deps::SwcDiagnosticBuffer;
use deno_isolate::deps::SwcErrorBuffer;

fn span(lo: u32, hi: u32) -> SourceSpan {
    SourceSpan { lo, hi }
}

// The nodes of:
//   import { foo } from "./foo.ts";
//   export { bar } from "./foo.ts";
//   export * from "./bar.ts";
fn static_nodes() -> Vec<DependencyNode> {
    vec![
        DependencyNode::ImportDecl { src: "./foo.ts".to_string(), span: span(1, 32) },
        DependencyNode::NamedExport { source: Some("./foo.ts".to_string()), span: span(33, 64) },
        DependencyNode::ExportAll { src: "./bar.ts".to_string(), span: span(65, 90) },
    ]
}

#[test]
fn test_analyze_dependencies() {
    let dependencies = analyze_dependencies(&static_nodes(), false);
    assert_eq!(
        dependencies,
        vec!["./foo.ts".to_string(), "./foo.ts".to_string(), "./bar.ts".to_string(),]
    );
}

// The nodes above, then those of:
//   const a = await import("./fizz.ts");
//   const a = await import("./" + "buzz.ts");
fn dynamic_nodes() -> Vec<DependencyNode> {
    let mut nodes = static_nodes();
    nodes.push(DependencyNode::CallExpr {
        callee_ident: Some("import".to_string()),
        first_arg_str: Some("./fizz.ts".to_string()),
    });
    nodes.push(DependencyNode::CallExpr {
        callee_ident: Some("import".to_string()),
        first_arg_str: None,
    });
    nodes
}

#[test]
fn test_analyze_dependencies_dyn_imports() {
    let dependencies = analyze_dependencies(&dynamic_nodes(), true);
    assert_eq!(
        dependencies,
        vec![
            "./foo.ts".to_string(),
            "./foo.ts".to_string(),
            "./bar.ts".to_string(),
            "./fizz.ts".to_string(),
        ]
    );
}

#[test]
fn dynamic_imports_ignored_unless_asked() {
    let dependencies = analyze_dependencies(&dynamic_nodes(), false);
    assert_eq!(dependencies.len(), 3);
}

#[test]
fn other_calls_and_local_exports_name_nothing() {
    let nodes = vec![
        DependencyNode::CallExpr {
            callee_ident: Some("require".to_string()),
            first_arg_str: Some("./a.ts".to_string()),
        },
        DependencyNode::CallExpr { callee_ident: None, first_arg_str: Some("./b.ts".to_string()) },
        DependencyNode::NamedExport { source: None, span: span(0, 10) },
    ];
    assert!(analyze_dependencies(&nodes, true).is_empty());
    assert!(analyze_dependencies(&vec![], true).is_empty());
}

#[test]
fn diagnostics_join_with_commas() {
    let mut buf = SwcErrorBuffer::default();
    assert!(buf.diagnostics.is_empty());
    buf.emit("Unexpected token".to_string());
    buf.emit("Expected ;".to_string());
    let d = SwcDiagnosticBuffer::from(buf);
    assert_eq!(d.message(), "Unexpected token,Expected ;");
    let one = SwcDiagnosticBuffer { diagnostics: vec!["only".to_string()] };
    assert_eq!(one.message(), "only");
    let none = SwcDiagnosticBuffer { diagnostics: vec![] };
    assert_eq!(none.message(), "");
}

fn comment(text: &str, lo: u32) -> SourceComment {
    SourceComment { kind: CommentKind::Line, span: span(lo, lo + 2 + text.len() as u32), text: text.to_string() }
}

#[test]
fn span_comments_are_returned_and_kept() {
    let mut parser = AstParser::new();
    assert!(parser.get_span_comments(span(40, 60)).is_empty());
    parser.add_leading(40, vec![comment(" first", 0)]);
    parser.add_leading(40, vec![comment(" @deno-types=\"./foo.d.ts\"", 10)]);
    let got = parser.get_span_comments(span(40, 60));
    assert_eq!(got.len(), 2);
    assert_eq!(got[0].text, " first");
    assert_eq!(got[1].text, " @deno-types=\"./foo.d.ts\"");
    assert_eq!(parser.get_span_comments(span(40, 60)).len(), 2);
    assert!(parser.get_span_comments(span(41, 60)).is_empty());
    let taken = parser.take_leading_comments(40).unwrap();
    assert_eq!(taken.len(), 2);
    assert!(parser.take_leading_comments(40).is_none());
}

use deno_isolate::deps::analyze_dependencies_and_references;
use deno_isolate::deps::deno_types_comment_ok;
use deno_isolate::deps::deno_types_directives_ok;
use deno_isolate::deps::deno_types_of_comment;
use deno_isolate::deps::get_deno_types;
use deno_isolate::deps::reference_of_comment;
use deno_isolate::deps::ImportDescriptor;
use deno_isolate::deps::TsReferenceDescriptor;
use deno_isolate::deps::TsReferenceKind;

fn line(text: &str) -> SourceComment {
    comment(text, 0)
}

// The module of the original test: comments as swc keeps them (the text
// after `//`), by the position of the statement they precede.
//
//   // This comment is placed to make sure that directives are parsed
//   // even when they start on non-first line
//
//   /// <reference lib="dom" />
//   /// <reference types="./type_reference.d.ts" />
//   /// <reference path="./type_reference/dep.ts" />
//   // @deno-types="./type_definitions/foo.d.ts"
//   import { foo } from "./type_definitions/foo.js";            (at 300)
//   // @deno-types="./type_definitions/fizz.d.ts"
//   import "./type_definitions/fizz.js";                        (at 400)
//
//   /// <reference path="./type_reference/dep2.ts" />
//
//   import * as qat from "./type_definitions/qat.ts";           (at 500)
fn directives_module() -> (AstParser, Vec<DependencyNode>) {
    let mut parser = AstParser::new();
    parser.add_leading(
        300,
        vec![
            line(" This comment is placed to make sure that directives are parsed"),
            line(" even when they start on non-first line"),
            line("/ <reference lib=\"dom\" />"),
            line("/ <reference types=\"./type_reference.d.ts\" />"),
            line("/ <reference path=\"./type_reference/dep.ts\" />"),
            line(" @deno-types=\"./type_definitions/foo.d.ts\""),
        ],
    );
    parser.add_leading(400, vec![line(" @deno-types=\"./type_definitions/fizz.d.ts\"")]);
    parser.add_leading(500, vec![line("/ <reference path=\"./type_reference/dep2.ts\" />")]);
    let nodes = vec![
        DependencyNode::ImportDecl { src: "./type_definitions/foo.js".to_string(), span: span(300, 348) },
        DependencyNode::ImportDecl { src: "./type_definitions/fizz.js".to_string(), span: span(400, 436) },
        DependencyNode::ImportDecl { src: "./type_definitions/qat.ts".to_string(), span: span(500, 549) },
        DependencyNode::CallExpr { callee_ident: Some("log".to_string()), first_arg_str: None },
    ];
    (parser, nodes)
}

#[test]
fn test_analyze_dependencies_and_directives() {
    let (mut parser, nodes) = directives_module();
    assert!(deno_types_directives_ok(&parser, &nodes));
    let (imports, references) = analyze_dependencies_and_references(&mut parser, &nodes, span(300, 700));

    assert_eq!(
        imports,
        vec![
            ImportDescriptor {
                specifier: "./type_definitions/foo.js".to_string(),
                deno_types: Some("./type_definitions/foo.d.ts".to_string())
            },
            ImportDescriptor {
                specifier: "./type_definitions/fizz.js".to_string(),
                deno_types: Some("./type_definitions/fizz.d.ts".to_string())
            },
            ImportDescriptor { specifier: "./type_definitions/qat.ts".to_string(), deno_types: None },
        ]
    );

    assert_eq!(
        references,
        vec![
            TsReferenceDescriptor { specifier: "dom".to_string(), kind: TsReferenceKind::Lib },
            TsReferenceDescriptor {
                specifier: "./type_reference.d.ts".to_string(),
                kind: TsReferenceKind::Types,
            },
            TsReferenceDescriptor {
                specifier: "./type_reference/dep.ts".to_string(),
                kind: TsReferenceKind::Path,
            },
        ]
    );
    // The opening comments were taken out; the others stay.
    assert!(parser.get_span_comments(span(300, 348)).is_empty());
    assert_eq!(parser.get_span_comments(span(400, 436)).len(), 1);
}

#[test]
fn deno_types_directive_text() {
    assert_eq!(deno_types_of_comment(&" \t@deno-types=\"./a.d.ts\"".to_string()), Some("./a.d.ts".to_string()));
    assert_eq!(deno_types_of_comment(&"@deno-types='./b.d.ts'".to_string()), Some("./b.d.ts".to_string()));
    assert_eq!(deno_types_of_comment(&"@deno-types=./c.d.ts".to_string()), Some("./c.d.ts".to_string()));
    assert_eq!(deno_types_of_comment(&" just a comment = 1".to_string()), None);
    assert!(deno_types_comment_ok(&" @deno-types=\"x\"".to_string()));
    assert!(!deno_types_comment_ok(&" @deno-types=\"x\"=y".to_string()));
    assert!(!deno_types_comment_ok(&"@deno-types".to_string()));
    assert!(deno_types_comment_ok(&"a=b=c".to_string()));
}

#[test]
fn deno_types_only_from_last_comment() {
    let mut parser = AstParser::new();
    parser.add_leading(10, vec![line(" @deno-types=\"./t.d.ts\""), line(" other")]);
    assert_eq!(get_deno_types(&parser, span(10, 20)), None);
    parser.add_leading(30, vec![line(" other"), line(" @deno-types=\"./t.d.ts\"")]);
    assert_eq!(get_deno_types(&parser, span(30, 40)), Some("./t.d.ts".to_string()));
    assert_eq!(get_deno_types(&parser, span(50, 60)), None);
}

#[test]
fn malformed_deno_types_is_reported() {
    let mut parser = AstParser::new();
    parser.add_leading(10, vec![line(" @deno-types=a=b")]);
    let nodes = vec![DependencyNode::ImportDecl { src: "./m.js".to_string(), span: span(10, 30) }];
    assert!(!deno_types_directives_ok(&parser, &nodes));
}

#[test]
fn reference_directive_forms() {
    let r = reference_of_comment(&line("/ <reference types=\"./x.d.ts\"   />")).unwrap();
    assert_eq!(r, TsReferenceDescriptor { kind: TsReferenceKind::Types, specifier: "./x.d.ts".to_string() });
    let block = SourceComment { kind: CommentKind::Block, span: span(0, 30), text: "/ <reference lib=\"dom\" />".to_string() };
    assert!(reference_of_comment(&block).is_none());
    assert!(reference_of_comment(&line(" <reference lib=\"dom\" />")).is_none());
}
