//! Static dependency scanning of a module: the specifiers that its imports,
//! re-exports and literal dynamic imports name, and the comments kept beside
//! its syntax tree.
//!
//! Parsing and walking the syntax tree are done with swc by the embedder,
//! which hands every node of interest over as a [`DependencyNode`]; what is
//! decided about those nodes is decided here.
use crate::directives::after_char;
use crate::directives::after_first;
use crate::directives::chars_of;
use crate::directives::count_char;
use crate::directives::count_in;
use crate::directives::has_prefix;
use crate::directives::skip_prefix_start;
use crate::directives::skip_suffix_end;
use crate::directives::skip_ws_end;
use crate::directives::skip_ws_start;
use crate::directives::strip_quotes;
use crate::directives::strip_quotes_window;
use crate::directives::trim_end_matches;
use crate::directives::trim_end_ws;
use crate::directives::trim_start_matches;
use crate::directives::trim_start_ws;
use crate::directives::window_has_prefix;
use std::collections::HashMap;
use std::sync::Arc;
use vstd::prelude::*;

verus! {

broadcast use vstd::std_specs::hash::group_hash_axioms;

/// swc_common's source map, which the parser fills; opaque here.
#[verifier::external_type_specification]
#[verifier::external_body]
pub struct ExSourceMap(swc_common::SourceMap);

/// swc_common's span and hygiene tables, in force while a module is parsed;
/// opaque here.
#[verifier::external_type_specification]
#[verifier::external_body]
pub struct ExGlobals(swc_common::Globals);

/// Relies on `SourceMap::default` of swc_common: an empty source map.
#[verifier::external_body]
fn new_source_map() -> swc_common::SourceMap {
    swc_common::SourceMap::default()
}

/// Relies on `Globals::new` of swc_common: fresh span and hygiene tables.
#[verifier::external_body]
fn new_globals() -> swc_common::Globals {
    swc_common::Globals::new()
}

/// A byte range of the source: `lo` is where it starts.
#[derive(Clone, Copy, Debug, PartialEq, Eq, Structural)]
pub struct SourceSpan {
    pub lo: u32,
    pub hi: u32,
}

#[derive(Clone, Copy, Debug, PartialEq, Eq, Structural)]
pub enum CommentKind {
    Line,
    Block,
}

/// A comment of the source, with its text after the opening `//` or `/*`.
#[derive(Debug)]
pub struct SourceComment {
    pub kind: CommentKind,
    pub span: SourceSpan,
    pub text: String,
}

pub struct CommentView {
    pub kind: CommentKind,
    pub span: SourceSpan,
    pub text: Seq<char>,
}

impl View for SourceComment {
    type V = CommentView;

    open spec fn view(&self) -> CommentView {
        CommentView { kind: self.kind, span: self.span, text: self.text@ }
    }
}

pub open spec fn comment_views(v: Seq<SourceComment>) -> Seq<CommentView> {
    v.map_values(|c: SourceComment| c@)
}

impl SourceComment {
    pub fn copy(&self) -> (r: SourceComment)
        ensures
            r@ == self@,
    {
        SourceComment { kind: self.kind, span: self.span, text: self.text.clone() }
    }
}

pub fn copy_comments(v: &Vec<SourceComment>) -> (r: Vec<SourceComment>)
    ensures
        comment_views(r@) == comment_views(v@),
{
    let mut r: Vec<SourceComment> = Vec::new();
    let mut i: usize = 0;
    while i < v.len()
        invariant
            i <= v.len(),
            comment_views(r@) =~= comment_views(v@).take(i as int),
        decreases v.len() - i,
    {
        let c = v[i].copy();
        let ghost before = r@;
        r.push(c);
        proof {
            assert(comment_views(r@) =~= comment_views(before).push(v@[i as int]@));
            assert(comment_views(v@).take(i as int + 1) =~= comment_views(v@).take(i as int).push(
                v@[i as int]@,
            ));
        }
        i = i + 1;
    }
    proof {
        assert(comment_views(v@).take(v.len() as int) =~= comment_views(v@));
    }
    r
}

/// The diagnostics of a failed parse, by their messages.
pub struct SwcDiagnosticBuffer {
    pub diagnostics: Vec<String>,
}

pub open spec fn views(v: Seq<String>) -> Seq<Seq<char>> {
    v.map_values(|s: String| s@)
}

/// The messages joined by `,`.
pub open spec fn joined(msgs: Seq<Seq<char>>) -> Seq<char>
    decreases msgs.len(),
{
    if msgs.len() == 0 {
        seq![]
    } else if msgs.len() == 1 {
        msgs[0]
    } else {
        joined(msgs.drop_last()) + ","@ + msgs.last()
    }
}

impl SwcDiagnosticBuffer {
    /// The text of the error: every diagnostic's message, separated by `,`.
    pub fn message(&self) -> (r: String)
        ensures
            r@ == joined(views(self.diagnostics@)),
    {
        let mut r = String::new();
        let mut i: usize = 0;
        proof {
            reveal_strlit(",");
        }
        while i < self.diagnostics.len()
            invariant
                i <= self.diagnostics.len(),
                r@ == joined(views(self.diagnostics@).take(i as int)),
            decreases self.diagnostics.len() - i,
        {
            let all = Ghost(views(self.diagnostics@));
            proof {
                assert(all@.take(i as int + 1).drop_last() =~= all@.take(i as int));
                if i == 0 {
                    assert(all@.take(1) =~= seq![all@[0]]);
                }
            }
            if i > 0 {
                r.append(",");
            }
            r.append(self.diagnostics[i].as_str());
            i = i + 1;
        }
        proof {
            assert(views(self.diagnostics@).take(self.diagnostics.len() as int) =~= views(
                self.diagnostics@,
            ));
        }
        r
    }
}

/// Collects the diagnostics that the parser emits.
pub struct SwcErrorBuffer {
    pub diagnostics: Vec<String>,
}

impl SwcErrorBuffer {
    pub fn default() -> (r: Self)
        ensures
            r.diagnostics@.len() == 0,
    {
        SwcErrorBuffer { diagnostics: Vec::new() }
    }

    /// Keeps the message of one emitted diagnostic.
    pub fn emit(&mut self, message: String)
        ensures
            final(self).diagnostics@ == old(self).diagnostics@.push(message),
    {
        self.diagnostics.push(message);
    }
}

impl From<SwcErrorBuffer> for SwcDiagnosticBuffer {
    fn from(buf: SwcErrorBuffer) -> (r: SwcDiagnosticBuffer)
        ensures
            r.diagnostics == buf.diagnostics,
    {
        SwcDiagnosticBuffer { diagnostics: buf.diagnostics }
    }
}

impl vstd::std_specs::convert::FromSpecImpl<SwcErrorBuffer> for SwcDiagnosticBuffer {
    open spec fn obeys_from_spec() -> bool {
        true
    }

    open spec fn from_spec(buf: SwcErrorBuffer) -> SwcDiagnosticBuffer {
        SwcDiagnosticBuffer { diagnostics: buf.diagnostics }
    }
}

/// What parsing a module needs and leaves behind: the source map and
/// globals that swc works with, the diagnostics it emitted, and the leading
/// comments of the module by the position they precede.
pub struct AstParser {
    pub buffered_error: SwcErrorBuffer,
    pub source_map: Arc<swc_common::SourceMap>,
    pub globals: swc_common::Globals,
    pub leading_comments: HashMap<u32, Vec<SourceComment>>,
}

impl AstParser {
    pub open spec fn leading(&self) -> Map<u32, Seq<CommentView>> {
        Map::new(
            |pos: u32| self.leading_comments@.contains_key(pos),
            |pos: u32| comment_views(self.leading_comments@[pos]@),
        )
    }

    pub fn new() -> (r: Self)
        ensures
            r.buffered_error.diagnostics@.len() == 0,
            r.leading() == Map::<u32, Seq<CommentView>>::empty(),
    {
        let r = AstParser {
            buffered_error: SwcErrorBuffer::default(),
            source_map: Arc::new(new_source_map()),
            globals: new_globals(),
            leading_comments: HashMap::new(),
        };
        proof {
            assert(r.leading() =~= Map::<u32, Seq<CommentView>>::empty());
        }
        r
    }

    /// Adds comments before the position `pos`, after those already there.
    pub fn add_leading(&mut self, pos: u32, comments: Vec<SourceComment>)
        ensures
            final(self).leading() == old(self).leading().insert(
                pos,
                if old(self).leading().contains_key(pos) {
                    old(self).leading()[pos] + comment_views(comments@)
                } else {
                    comment_views(comments@)
                },
            ),
            final(self).buffered_error == old(self).buffered_error,
    {
        let ghost before = self.leading();
        let mut all = match self.leading_comments.remove(&pos) {
            Some(v) => v,
            None => Vec::new(),
        };
        let ghost prev = all@;
        let mut comments = comments;
        let ghost added = comments@;
        all.append(&mut comments);
        proof {
            assert(comment_views(all@) =~= comment_views(prev) + comment_views(added));
        }
        self.leading_comments.insert(pos, all);
        proof {
            assert(self.leading() =~= before.insert(
                pos,
                if before.contains_key(pos) {
                    before[pos] + comment_views(added)
                } else {
                    comment_views(added)
                },
            ));
        }
    }

    /// The comments right before `span`, in source order; none if there are
    /// none.  The comments stay where they are.
    pub fn get_span_comments(&self, span: SourceSpan) -> (r: Vec<SourceComment>)
        ensures
            comment_views(r@) == (if self.leading().contains_key(span.lo) {
                self.leading()[span.lo]
            } else {
                Seq::<CommentView>::empty()
            }),
    {
        match self.leading_comments.get(&span.lo) {
            Some(v) => copy_comments(v),
            None => {
                let r: Vec<SourceComment> = Vec::new();
                proof {
                    assert(comment_views(r@) =~= Seq::<CommentView>::empty());
                }
                r
            },
        }
    }

    /// Takes the comments right before the position `pos` out of the parser.
    pub fn take_leading_comments(&mut self, pos: u32) -> (r: Option<Vec<SourceComment>>)
        ensures
            match r {
                Some(v) => old(self).leading().contains_key(pos) && comment_views(v@) == old(
                    self,
                ).leading()[pos],
                None => !old(self).leading().contains_key(pos),
            },
            final(self).leading() == old(self).leading().remove(pos),
            final(self).buffered_error == old(self).buffered_error,
    {
        let ghost before = self.leading();
        let r = self.leading_comments.remove(&pos);
        proof {
            assert(self.leading() =~= before.remove(pos));
        }
        r
    }
}

/// A node of a module's syntax tree that can name a dependency, with what
/// the scan reads of it.
pub enum DependencyNode {
    /// `import ... from "src"`.
    ImportDecl { src: String, span: SourceSpan },
    /// `export { ... }`, with `from "src"` or without.
    NamedExport { source: Option<String>, span: SourceSpan },
    /// `export * from "src"`.
    ExportAll { src: String, span: SourceSpan },
    /// A call: the callee's name if the callee is a plain identifier, and the
    /// value of the first argument if it is a string literal.
    CallExpr { callee_ident: Option<String>, first_arg_str: Option<String> },
}

/// The specifier that a node names, if any.  A call names one only when
/// dynamic imports are scanned, the callee is `import` and the first argument
/// is a string literal.
pub open spec fn node_dependency(n: DependencyNode, dynamic: bool) -> Option<Seq<char>> {
    match n {
        DependencyNode::ImportDecl { src, .. } => Some(src@),
        DependencyNode::NamedExport { source, .. } => match source {
            Some(s) => Some(s@),
            None => None,
        },
        DependencyNode::ExportAll { src, .. } => Some(src@),
        DependencyNode::CallExpr { callee_ident, first_arg_str } => {
            if dynamic && callee_ident.is_some() && callee_ident.unwrap()@ == "import"@
                && first_arg_str.is_some() {
                Some(first_arg_str.unwrap()@)
            } else {
                None
            }
        },
    }
}

/// The specifiers named by the nodes, in order, duplicates kept.
pub open spec fn dependencies(nodes: Seq<DependencyNode>, dynamic: bool) -> Seq<Seq<char>>
    decreases nodes.len(),
{
    if nodes.len() == 0 {
        seq![]
    } else {
        let prev = dependencies(nodes.drop_last(), dynamic);
        match node_dependency(nodes.last(), dynamic) {
            Some(s) => prev.push(s),
            None => prev,
        }
    }
}

/// The specifier of one node, if it names one.
pub fn dependency_of(node: &DependencyNode, analyze_dynamic_imports: bool) -> (r: Option<String>)
    ensures
        match r {
            Some(s) => node_dependency(*node, analyze_dynamic_imports) == Some(s@),
            None => node_dependency(*node, analyze_dynamic_imports).is_none(),
        },
{
    match node {
        DependencyNode::ImportDecl { src, .. } => Some(src.clone()),
        DependencyNode::NamedExport { source, .. } => match source {
            Some(s) => Some(s.clone()),
            None => None,
        },
        DependencyNode::ExportAll { src, .. } => Some(src.clone()),
        DependencyNode::CallExpr { callee_ident, first_arg_str } => {
            if !analyze_dynamic_imports {
                return None;
            }
            let import_name = "import".to_string();
            proof {
                reveal_strlit("import");
            }
            match callee_ident {
                Some(name) => {
                    if *name != import_name {
                        return None;
                    }
                },
                None => {
                    return None;
                },
            }
            match first_arg_str {
                Some(s) => Some(s.clone()),
                None => None,
            }
        },
    }
}

/// The unresolved import specifiers of a module, given the nodes of its
/// syntax tree in source order: those of static imports, of re-exports with
/// a source, and (when asked for) of dynamic imports with a string literal
/// specifier.  Duplicates are kept.
pub fn analyze_dependencies(nodes: &Vec<DependencyNode>, analyze_dynamic_imports: bool) -> (r: Vec<
    String,
>)
    ensures
        views(r@) == dependencies(nodes@, analyze_dynamic_imports),
{
    let mut r: Vec<String> = Vec::new();
    let mut i: usize = 0;
    while i < nodes.len()
        invariant
            i <= nodes.len(),
            views(r@) == dependencies(nodes@.take(i as int), analyze_dynamic_imports),
        decreases nodes.len() - i,
    {
        proof {
            assert(nodes@.take(i as int + 1).drop_last() =~= nodes@.take(i as int));
            assert(nodes@.take(i as int + 1).last() == nodes@[i as int]);
        }
        match dependency_of(&nodes[i], analyze_dynamic_imports) {
            Some(s) => {
                proof {
                    assert(views(r@.push(s)) =~= views(r@).push(s@));
                }
                r.push(s);
            },
            None => {},
        }
        i = i + 1;
    }
    proof {
        assert(nodes@.take(nodes.len() as int) =~= nodes@);
    }
    r
}

/// The specifier that a `@deno-types="..."` comment names; `None` for any
/// other comment.
pub open spec fn deno_types_of(text: Seq<char>) -> Option<Seq<char>> {
    let c = trim_start_ws(text);
    if has_prefix(c, "@deno-types"@) {
        Some(strip_quotes(after_char(c, '=')))
    } else {
        None
    }
}

/// A `@deno-types` comment holds exactly one `=`.
pub open spec fn deno_types_well_formed(text: Seq<char>) -> bool {
    let c = trim_start_ws(text);
    has_prefix(c, "@deno-types"@) ==> count_char(c, '=') == 1
}

/// The text of the last comment right before `pos`, if there is one.
pub open spec fn last_comment_text(leading: Map<u32, Seq<CommentView>>, pos: u32) -> Option<
    Seq<char>,
> {
    if leading.contains_key(pos) && leading[pos].len() > 0 {
        Some(leading[pos].last().text)
    } else {
        None
    }
}

pub proof fn lemma_last_comment(
    leading: Map<u32, Seq<CommentView>>,
    pos: u32,
    comments: Seq<SourceComment>,
)
    requires
        comment_views(comments) == (if leading.contains_key(pos) {
            leading[pos]
        } else {
            Seq::<CommentView>::empty()
        }),
    ensures
        last_comment_text(leading, pos) == (if comments.len() > 0 {
            Some(comments.last().text@)
        } else {
            None
        }),
{
    assert(comment_views(comments).len() == comments.len());
    if comments.len() > 0 {
        assert(comment_views(comments).last() == comments.last()@);
    }
}

pub open spec fn span_deno_types(leading: Map<u32, Seq<CommentView>>, pos: u32) -> Option<
    Seq<char>,
> {
    match last_comment_text(leading, pos) {
        Some(t) => deno_types_of(t),
        None => None,
    }
}

pub open spec fn span_deno_types_ok(leading: Map<u32, Seq<CommentView>>, pos: u32) -> bool {
    match last_comment_text(leading, pos) {
        Some(t) => deno_types_well_formed(t),
        None => true,
    }
}

pub fn deno_types_comment_ok(text: &String) -> (r: bool)
    ensures
        r == deno_types_well_formed(text@),
{
    let cs = chars_of(text.as_str());
    let n = cs.len();
    proof {
        assert(cs@.subrange(0, n as int) =~= cs@);
        reveal_strlit("@deno-types");
    }
    let a = skip_ws_start(&cs, 0, n);
    let tag = chars_of("@deno-types");
    if !window_has_prefix(&cs, a, n, &tag) {
        return true;
    }
    count_in(&cs, a, n, '=') == 1
}

/// The specifier of a `@deno-types="..."` comment, without its quotes.
pub fn deno_types_of_comment(text: &String) -> (r: Option<String>)
    requires
        deno_types_well_formed(text@),
    ensures
        match r {
            Some(s) => deno_types_of(text@) == Some(s@),
            None => deno_types_of(text@).is_none(),
        },
{
    let cs = chars_of(text.as_str());
    let n = cs.len();
    proof {
        assert(cs@.subrange(0, n as int) =~= cs@);
        reveal_strlit("@deno-types");
    }
    let a = skip_ws_start(&cs, 0, n);
    let tag = chars_of("@deno-types");
    if !window_has_prefix(&cs, a, n, &tag) {
        return None;
    }
    let b = after_first(&cs, a, n, '=');
    let (lo, hi) = strip_quotes_window(&cs, b, n);
    let s = text.as_str().substring_char(lo, hi).to_string();
    Some(s)
}

/// The type declarations named for the import at `span`: a `@deno-types`
/// directive in the last comment right before it.
pub fn get_deno_types(parser: &AstParser, span: SourceSpan) -> (r: Option<String>)
    requires
        span_deno_types_ok(parser.leading(), span.lo),
    ensures
        match r {
            Some(s) => span_deno_types(parser.leading(), span.lo) == Some(s@),
            None => span_deno_types(parser.leading(), span.lo).is_none(),
        },
{
    let comments = parser.get_span_comments(span);
    proof {
        lemma_last_comment(parser.leading(), span.lo, comments@);
    }
    if comments.len() == 0 {
        return None;
    }
    let last = &comments[comments.len() - 1];
    deno_types_of_comment(&last.text)
}

/// An import of a module, with the type declarations a directive names for
/// it.
#[derive(Debug, PartialEq)]
pub struct ImportDescriptor {
    pub specifier: String,
    pub deno_types: Option<String>,
}

pub struct ImportView {
    pub specifier: Seq<char>,
    pub deno_types: Option<Seq<char>>,
}

pub open spec fn import_view(d: ImportDescriptor) -> ImportView {
    ImportView {
        specifier: d.specifier@,
        deno_types: match d.deno_types {
            Some(t) => Some(t@),
            None => None,
        },
    }
}

#[derive(Clone, Copy, Debug, PartialEq, Eq, Structural)]
pub enum TsReferenceKind {
    Lib,
    Types,
    Path,
}

/// A `/// <reference ...="..." />` directive at the top of a module.
#[derive(Debug, PartialEq)]
pub struct TsReferenceDescriptor {
    pub kind: TsReferenceKind,
    pub specifier: String,
}

pub struct ReferenceView {
    pub kind: TsReferenceKind,
    pub specifier: Seq<char>,
}

pub open spec fn reference_view(d: TsReferenceDescriptor) -> ReferenceView {
    ReferenceView { kind: d.kind, specifier: d.specifier@ }
}

/// What an import node contributes: the import with its `@deno-types`
/// directive, or a re-export with none.
pub open spec fn import_of(leading: Map<u32, Seq<CommentView>>, n: DependencyNode) -> Option<
    ImportView,
> {
    match n {
        DependencyNode::ImportDecl { src, span } => Some(
            ImportView { specifier: src@, deno_types: span_deno_types(leading, span.lo) },
        ),
        DependencyNode::NamedExport { source, .. } => match source {
            Some(s) => Some(ImportView { specifier: s@, deno_types: None }),
            None => None,
        },
        DependencyNode::ExportAll { src, .. } => Some(
            ImportView { specifier: src@, deno_types: None },
        ),
        DependencyNode::CallExpr { .. } => None,
    }
}

pub open spec fn imports_of(leading: Map<u32, Seq<CommentView>>, nodes: Seq<DependencyNode>) -> Seq<
    ImportView,
>
    decreases nodes.len(),
{
    if nodes.len() == 0 {
        seq![]
    } else {
        let prev = imports_of(leading, nodes.drop_last());
        match import_of(leading, nodes.last()) {
            Some(d) => prev.push(d),
            None => prev,
        }
    }
}

/// Every import's `@deno-types` directive, if it has one, is well formed.
pub open spec fn imports_ok(leading: Map<u32, Seq<CommentView>>, nodes: Seq<DependencyNode>) -> bool {
    forall|i: int|
        0 <= i < nodes.len() ==> match #[trigger] nodes[i] {
            DependencyNode::ImportDecl { span, .. } => span_deno_types_ok(leading, span.lo),
            _ => true,
        }
}

pub open spec fn clean_reference(s: Seq<char>) -> Seq<char> {
    strip_quotes(trim_end_ws(trim_end_matches(s, "/>"@)))
}

/// The directive that a comment is, if it is a line comment starting with
/// `/ <reference path=`, `lib=` or `types=`.
pub open spec fn reference_of(c: CommentView) -> Option<ReferenceView> {
    if c.kind != CommentKind::Line {
        None
    } else if has_prefix(c.text, "/ <reference path="@) {
        Some(
            ReferenceView {
                kind: TsReferenceKind::Path,
                specifier: clean_reference(trim_start_matches(c.text, "/ <reference path="@)),
            },
        )
    } else if has_prefix(c.text, "/ <reference lib="@) {
        Some(
            ReferenceView {
                kind: TsReferenceKind::Lib,
                specifier: clean_reference(trim_start_matches(c.text, "/ <reference lib="@)),
            },
        )
    } else if has_prefix(c.text, "/ <reference types="@) {
        Some(
            ReferenceView {
                kind: TsReferenceKind::Types,
                specifier: clean_reference(trim_start_matches(c.text, "/ <reference types="@)),
            },
        )
    } else {
        None
    }
}

pub open spec fn references_of(cs: Seq<CommentView>) -> Seq<ReferenceView>
    decreases cs.len(),
{
    if cs.len() == 0 {
        seq![]
    } else {
        let prev = references_of(cs.drop_last());
        match reference_of(cs.last()) {
            Some(r) => prev.push(r),
            None => prev,
        }
    }
}

/// The reference directive that a comment is, if any.
pub fn reference_of_comment(c: &SourceComment) -> (r: Option<TsReferenceDescriptor>)
    ensures
        match r {
            Some(d) => reference_of(c@) == Some(reference_view(d)),
            None => reference_of(c@).is_none(),
        },
{
    if c.kind != CommentKind::Line {
        return None;
    }
    let cs = chars_of(c.text.as_str());
    let n = cs.len();
    proof {
        assert(cs@.subrange(0, n as int) =~= cs@);
        reveal_strlit("/ <reference path=");
        reveal_strlit("/ <reference lib=");
        reveal_strlit("/ <reference types=");
        reveal_strlit("/>");
    }
    let path = chars_of("/ <reference path=");
    let lib = chars_of("/ <reference lib=");
    let types = chars_of("/ <reference types=");
    let (kind, prefix) = if window_has_prefix(&cs, 0, n, &path) {
        (TsReferenceKind::Path, path)
    } else if window_has_prefix(&cs, 0, n, &lib) {
        (TsReferenceKind::Lib, lib)
    } else if window_has_prefix(&cs, 0, n, &types) {
        (TsReferenceKind::Types, types)
    } else {
        return None;
    };
    let close = chars_of("/>");
    let a = skip_prefix_start(&cs, 0, n, &prefix);
    let e = skip_suffix_end(&cs, a, n, &close);
    let f = skip_ws_end(&cs, a, e);
    let (lo, hi) = strip_quotes_window(&cs, a, f);
    let specifier = c.text.as_str().substring_char(lo, hi).to_string();
    Some(TsReferenceDescriptor { kind, specifier })
}

/// Whether every import's `@deno-types` directive is well formed, which
/// `analyze_dependencies_and_references` asks of its input.
pub fn deno_types_directives_ok(parser: &AstParser, nodes: &Vec<DependencyNode>) -> (r: bool)
    ensures
        r == imports_ok(parser.leading(), nodes@),
{
    let mut i: usize = 0;
    while i < nodes.len()
        invariant
            i <= nodes.len(),
            forall|k: int|
                0 <= k < i ==> match #[trigger] nodes@[k] {
                    DependencyNode::ImportDecl { span, .. } => span_deno_types_ok(
                        parser.leading(),
                        span.lo,
                    ),
                    _ => true,
                },
        decreases nodes.len() - i,
    {
        match &nodes[i] {
            DependencyNode::ImportDecl { span, .. } => {
                let comments = parser.get_span_comments(*span);
                proof {
                    lemma_last_comment(parser.leading(), span.lo, comments@);
                }
                if comments.len() > 0 {
                    let last = &comments[comments.len() - 1];
                    if !deno_types_comment_ok(&last.text) {
                        proof {
                            assert(!span_deno_types_ok(parser.leading(), span.lo));
                            let k = i as int;
                            assert(match nodes@[k] {
                                DependencyNode::ImportDecl { span, .. } => span_deno_types_ok(
                                    parser.leading(),
                                    span.lo,
                                ),
                                _ => true,
                            } == false);
                        }
                        return false;
                    }
                }
            },
            _ => {},
        }
        i = i + 1;
    }
    true
}

/// The imports and re-exports of a module, each import with the type
/// declarations that a `@deno-types` directive names for it, and the
/// reference directives among the comments that open the module (which are
/// taken out of the parser).
pub fn analyze_dependencies_and_references(
    parser: &mut AstParser,
    nodes: &Vec<DependencyNode>,
    module_span: SourceSpan,
) -> (r: (Vec<ImportDescriptor>, Vec<TsReferenceDescriptor>))
    requires
        imports_ok(old(parser).leading(), nodes@),
    ensures
        r.0@.map_values(|d: ImportDescriptor| import_view(d)) == imports_of(
            old(parser).leading(),
            nodes@,
        ),
        r.1@.map_values(|d: TsReferenceDescriptor| reference_view(d)) == references_of(
            if old(parser).leading().contains_key(module_span.lo) {
                old(parser).leading()[module_span.lo]
            } else {
                Seq::<CommentView>::empty()
            },
        ),
        final(parser).leading() == old(parser).leading().remove(module_span.lo),
{
    let mut imports: Vec<ImportDescriptor> = Vec::new();
    let mut i: usize = 0;
    while i < nodes.len()
        invariant
            i <= nodes.len(),
            imports_ok(parser.leading(), nodes@),
            imports@.map_values(|d: ImportDescriptor| import_view(d)) == imports_of(
                parser.leading(),
                nodes@.take(i as int),
            ),
        decreases nodes.len() - i,
    {
        proof {
            assert(nodes@.take(i as int + 1).drop_last() =~= nodes@.take(i as int));
            assert(nodes@.take(i as int + 1).last() == nodes@[i as int]);
        }
        let ghost before = imports@;
        match &nodes[i] {
            DependencyNode::ImportDecl { src, span } => {
                let deno_types = get_deno_types(parser, *span);
                imports.push(ImportDescriptor { specifier: src.clone(), deno_types });
            },
            DependencyNode::NamedExport { source, .. } => match source {
                Some(s) => {
                    imports.push(ImportDescriptor { specifier: s.clone(), deno_types: None });
                },
                None => {},
            },
            DependencyNode::ExportAll { src, .. } => {
                imports.push(ImportDescriptor { specifier: src.clone(), deno_types: None });
            },
            DependencyNode::CallExpr { .. } => {},
        }
        proof {
            if imports@.len() > before.len() {
                assert(imports@.map_values(|d: ImportDescriptor| import_view(d)) =~= before.map_values(
                    |d: ImportDescriptor| import_view(d),
                ).push(import_view(imports@.last())));
            } else {
                assert(imports@ =~= before);
            }
        }
        i = i + 1;
    }
    proof {
        assert(nodes@.take(nodes.len() as int) =~= nodes@);
    }
    let ghost leading = parser.leading();
    let comments = match parser.take_leading_comments(module_span.lo) {
        Some(v) => v,
        None => {
            let v: Vec<SourceComment> = Vec::new();
            proof {
                assert(comment_views(v@) =~= Seq::<CommentView>::empty());
            }
            v
        },
    };
    let mut references: Vec<TsReferenceDescriptor> = Vec::new();
    let mut j: usize = 0;
    while j < comments.len()
        invariant
            j <= comments.len(),
            references@.map_values(|d: TsReferenceDescriptor| reference_view(d)) == references_of(
                comment_views(comments@).take(j as int),
            ),
        decreases comments.len() - j,
    {
        proof {
            let cv = comment_views(comments@);
            assert(cv.take(j as int + 1).drop_last() =~= cv.take(j as int));
            assert(cv.take(j as int + 1).last() == comments@[j as int]@);
        }
        let ghost before = references@;
        match reference_of_comment(&comments[j]) {
            Some(d) => {
                references.push(d);
                proof {
                    assert(references@.map_values(|d: TsReferenceDescriptor| reference_view(d))
                        =~= before.map_values(|d: TsReferenceDescriptor| reference_view(d)).push(
                        reference_view(references@.last()),
                    ));
                }
            },
            None => {},
        }
        j = j + 1;
    }
    proof {
        assert(comment_views(comments@).take(comments.len() as int) =~= comment_views(comments@));
    }
    (imports, references)
}

} // verus!
