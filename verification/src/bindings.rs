//! The TypeScript module that gives the workspace's methods to JavaScript
//! callers over a transport.
//!
//! The module imports the `Transport` type, exports the declarations of the
//! types that the methods take and return (each preceded by its description,
//! if it has one), the `Workspace` interface with one signature per method
//! plus `destroy`, and the `createWorkspace` function whose returned object
//! forwards each method to `transport.request("biome/<method name>", params)`.
//!
//! The module text is laid out for a print width of 80 columns, a tab
//! counting two: tab indentation, one member per line, a method signature or
//! a request call that does not fit broken with one argument per line, and
//! single-line description comments laid out as documentation comments.
//! Declarations are exported as given.

use vstd::prelude::*;

use crate::casing::{camel_case, to_camel_case};
use crate::separated::{
    every_separator_printed_when_group_breaks, interleaved, join_formatted,
    joined_items_format_the_list, print_pieces, printed, separated_pieces, token_text,
    ElementView, SeparatedElement, SeparatedList, SeparatorSlot, SeparatorToken, SlotView,
    TokenView, TrailingSeparator,
};

verus! {

/// A method of the workspace: its name and the TypeScript types of its
/// parameters and of its result.
pub struct WorkspaceMethod {
    pub name: String,
    pub params: String,
    pub result: String,
}

/// The mathematical view of a [`WorkspaceMethod`].
pub struct MethodView {
    pub name: Seq<char>,
    pub params: Seq<char>,
    pub result: Seq<char>,
}

impl View for WorkspaceMethod {
    type V = MethodView;

    open spec fn view(&self) -> MethodView {
        MethodView { name: self.name@, params: self.params@, result: self.result@ }
    }
}

impl DeepView for WorkspaceMethod {
    type V = MethodView;

    open spec fn deep_view(&self) -> MethodView {
        self@
    }
}

/// The kinds of declaration that a type description can produce.
#[derive(Clone, Copy, Debug, PartialEq, Eq, Structural)]
pub enum DeclarationKind {
    Class,
    Function,
    Variable,
    DeclareFunction,
    Enum,
    ExternalModule,
    Global,
    ImportEquals,
    Interface,
    Module,
    TypeAlias,
}

/// The kinds of clause that can follow `export`.
#[derive(Clone, Copy, Debug, PartialEq, Eq, Structural)]
pub enum DeclarationClauseKind {
    Class,
    Function,
    VariableClause,
    DeclareFunction,
    Enum,
    ExternalModule,
    Global,
    ImportEquals,
    Interface,
    Module,
    TypeAlias,
}

/// A declaration to export: its kind, its printed code and an optional
/// description.
pub struct Declaration {
    pub kind: DeclarationKind,
    pub code: String,
    pub description: Option<String>,
}

/// The mathematical view of a [`Declaration`].
pub struct DeclarationView {
    pub kind: DeclarationKind,
    pub code: Seq<char>,
    pub description: Option<Seq<char>>,
}

impl View for Declaration {
    type V = DeclarationView;

    open spec fn view(&self) -> DeclarationView {
        DeclarationView {
            kind: self.kind,
            code: self.code@,
            description: match self.description {
                Some(d) => Some(d@),
                None => None,
            },
        }
    }
}

impl DeepView for Declaration {
    type V = DeclarationView;

    open spec fn deep_view(&self) -> DeclarationView {
        self@
    }
}

/// Each declaration is exported by the clause of its own kind; a variable
/// declaration is wrapped in a variable declaration clause.
pub open spec fn clause_kind(kind: DeclarationKind) -> DeclarationClauseKind {
    match kind {
        DeclarationKind::Class => DeclarationClauseKind::Class,
        DeclarationKind::Function => DeclarationClauseKind::Function,
        DeclarationKind::Variable => DeclarationClauseKind::VariableClause,
        DeclarationKind::DeclareFunction => DeclarationClauseKind::DeclareFunction,
        DeclarationKind::Enum => DeclarationClauseKind::Enum,
        DeclarationKind::ExternalModule => DeclarationClauseKind::ExternalModule,
        DeclarationKind::Global => DeclarationClauseKind::Global,
        DeclarationKind::ImportEquals => DeclarationClauseKind::ImportEquals,
        DeclarationKind::Interface => DeclarationClauseKind::Interface,
        DeclarationKind::Module => DeclarationClauseKind::Module,
        DeclarationKind::TypeAlias => DeclarationClauseKind::TypeAlias,
    }
}

/// The line that opens the module.
pub open spec fn module_header() -> Seq<char> {
    "// Generated file, do not edit by hand, see `xtask/codegen`\nimport type { Transport } from \"./transport\";\n"@
}

/// The request a method is sent as: `biome/` followed by its name.
pub open spec fn request_path(name: Seq<char>) -> Seq<char> {
    "biome/"@ + name
}

/// The comment that precedes an exported declaration with a description.
///
/// The comment is written as `/**`, a line `* <description>` and `*/`. When
/// the description is a single line, every line after the first starts
/// with `*`, so the comment is a documentation comment and is laid out as
/// one: each following line is indented by one space, the description line
/// losing its trailing whitespace. A description of several lines is kept
/// as written.
pub open spec fn doc_comment(description: Seq<char>) -> Seq<char> {
    if description.contains('\n') {
        "/**\n\t* "@ + description + " \n\t */\n"@
    } else {
        "/**\n "@ + trimmed_end("* "@ + description) + "\n */\n"@
    }
}

/// Unicode's `White_Space` property of a non-ASCII character.
pub uninterp spec fn unicode_is_whitespace(c: char) -> bool;

/// Whether `c` is white space: for ASCII, space, tab, line feed, vertical
/// tab, form feed and carriage return.
pub open spec fn is_whitespace(c: char) -> bool {
    if (c as int) < 128 {
        c == ' ' || c == '\t' || c == '\n' || c == '\x0B' || c == '\x0C' || c == '\r'
    } else {
        unicode_is_whitespace(c)
    }
}

/// `s` without its trailing white space.
pub open spec fn trimmed_end(s: Seq<char>) -> Seq<char>
    decreases s.len(),
{
    if s.len() > 0 && is_whitespace(s.last()) {
        trimmed_end(s.drop_last())
    } else {
        s
    }
}

/// `str::trim_end`: the string without its trailing white space (Unicode's
/// `White_Space` property).
#[verifier::external_body]
fn str_trim_end(s: &str) -> (res: &str)
    ensures
        res@ == trimmed_end(s@),
        forall|i: int|
            res@.len() <= i < s@.len() && !((s@[i] as int) < 128) ==> unicode_is_whitespace(
                #[trigger] s@[i],
            ),
{
    s.trim_end()
}

/// The print width the module is laid out for: a line of the module with
/// `indent` tabs (each two columns wide) followed by `text` fits when it is
/// at most 80 columns wide.
pub open spec fn fits(indent: int, text: Seq<char>) -> bool {
    2 * indent + text.len() <= 80
}

/// The exported clause of a declaration: its code, closed by `;` for a
/// variable declaration clause.
pub open spec fn export_clause(d: DeclarationView) -> Seq<char> {
    if clause_kind(d.kind) == DeclarationClauseKind::VariableClause {
        d.code + ";"@
    } else {
        d.code
    }
}

/// An exported declaration, with its description's comment before it.
pub open spec fn export_item(d: DeclarationView) -> Seq<char> {
    match d.description {
        Some(desc) => doc_comment(desc) + "export "@ + export_clause(d) + "\n"@,
        None => "export "@ + export_clause(d) + "\n"@,
    }
}

/// All exported declarations, in order.
pub open spec fn export_items(ds: Seq<DeclarationView>) -> Seq<char>
    decreases ds.len(),
{
    if ds.len() == 0 {
        seq![]
    } else {
        export_items(ds.drop_last()) + export_item(ds.last())
    }
}

/// The signature of a method in the `Workspace` interface.
///
/// At one tab of indentation it stays on one line where that fits the print
/// width; otherwise the parameter goes on a line of its own, followed by a
/// comma.
pub open spec fn method_signature(m: MethodView) -> Seq<char> {
    if fits(1, flat_signature(m)) {
        flat_signature(m)
    } else {
        camel_case(m.name) + "(\n\t\tparams: "@ + m.params + ",\n\t): Promise<"@ + m.result
            + ">;"@
    }
}

/// The signature of a method written on one line.
pub open spec fn flat_signature(m: MethodView) -> Seq<char> {
    camel_case(m.name) + "(params: "@ + m.params + "): Promise<"@ + m.result + ">;"@
}

/// The signature lines of the `Workspace` interface for the given methods.
pub open spec fn signature_lines(ms: Seq<MethodView>) -> Seq<char>
    decreases ms.len(),
{
    if ms.len() == 0 {
        seq![]
    } else {
        signature_lines(ms.drop_last()) + "\t"@ + method_signature(ms.last()) + "\n"@
    }
}

/// The `Workspace` interface.
pub open spec fn workspace_interface(ms: Seq<MethodView>) -> Seq<char> {
    "export interface Workspace {\n"@ + signature_lines(ms) + "\tdestroy(): void;\n}\n"@
}

/// The member of the object returned by `createWorkspace` that implements a
/// method, on a line of its own.
pub open spec fn method_member(m: MethodView) -> Seq<char> {
    "\n\t\t"@ + camel_case(m.name) + "(params) {\n\t\t\t"@ + request_statement(m.name)
        + "\n\t\t}"@
}

/// The statement that sends a method's request, written on one line.
pub open spec fn flat_request_statement(name: Seq<char>) -> Seq<char> {
    "return transport.request(\""@ + request_path(name) + "\", params);"@
}

/// The statement that sends a method's request. At three tabs of
/// indentation it stays on one line where that fits the print width;
/// otherwise each argument goes on a line of its own, followed by a comma.
pub open spec fn request_statement(name: Seq<char>) -> Seq<char> {
    if fits(3, flat_request_statement(name)) {
        flat_request_statement(name)
    } else {
        "return transport.request(\n\t\t\t\t\""@ + request_path(name)
            + "\",\n\t\t\t\tparams,\n\t\t\t);"@
    }
}

/// The member of the returned object that implements `destroy`.
pub open spec fn destroy_member() -> Seq<char> {
    "\n\t\tdestroy() {\n\t\t\ttransport.destroy();\n\t\t}"@
}

/// The comma token that follows each member, without comments.
pub open spec fn comma() -> SlotView {
    SlotView::Token(TokenView { text: ","@, comments: Seq::empty() })
}

/// A fresh comma token.
fn comma_token() -> (res: SeparatorSlot)
    ensures
        res@ == comma(),
{
    SeparatorSlot::Token(SeparatorToken { text: String::from_str(","), comments: String::new() })
}

/// The members of the returned object as a separated list: one per method,
/// then `destroy`, each followed by a comma.
pub open spec fn member_elements(ms: Seq<MethodView>) -> Seq<ElementView> {
    Seq::new(
        ms.len(),
        |i: int| ElementView { node: Some(method_member(ms[i])), trailing_separator: comma() },
    ).push(ElementView { node: Some(destroy_member()), trailing_separator: comma() })
}

/// Concatenation of printed texts.
pub open spec fn concat(texts: Seq<Seq<char>>) -> Seq<char>
    decreases texts.len(),
{
    if texts.len() == 0 {
        seq![]
    } else {
        concat(texts.drop_last()) + texts.last()
    }
}

/// The members of the returned object as printed: the list formatted with
/// trailing separators allowed, in a group that breaks over lines.
pub open spec fn object_members(ms: Seq<MethodView>) -> Seq<char> {
    concat(
        printed(
            separated_pieces(member_elements(ms), ","@, TrailingSeparator::Allowed).unwrap(),
            true,
        ),
    )
}

/// The `createWorkspace` function.
pub open spec fn create_workspace_function(ms: Seq<MethodView>) -> Seq<char> {
    "export function createWorkspace(transport: Transport): Workspace {\n\treturn {"@
        + object_members(ms) + "\n\t};\n}\n"@
}

/// The whole module.
pub open spec fn workspace_module(ms: Seq<MethodView>, ds: Seq<DeclarationView>) -> Seq<char> {
    module_header() + export_items(ds) + workspace_interface(ms) + create_workspace_function(ms)
}

/// The kind of clause that exports a declaration of the given kind.
pub fn export_clause_kind(kind: DeclarationKind) -> (res: DeclarationClauseKind)
    ensures
        res == clause_kind(kind),
{
    match kind {
        DeclarationKind::Class => DeclarationClauseKind::Class,
        DeclarationKind::Function => DeclarationClauseKind::Function,
        DeclarationKind::Variable => DeclarationClauseKind::VariableClause,
        DeclarationKind::DeclareFunction => DeclarationClauseKind::DeclareFunction,
        DeclarationKind::Enum => DeclarationClauseKind::Enum,
        DeclarationKind::ExternalModule => DeclarationClauseKind::ExternalModule,
        DeclarationKind::Global => DeclarationClauseKind::Global,
        DeclarationKind::ImportEquals => DeclarationClauseKind::ImportEquals,
        DeclarationKind::Interface => DeclarationClauseKind::Interface,
        DeclarationKind::Module => DeclarationClauseKind::Module,
        DeclarationKind::TypeAlias => DeclarationClauseKind::TypeAlias,
    }
}

/// The request path of a method: `biome/<name>`.
pub fn method_request_path(name: &str) -> (res: String)
    ensures
        res@ == request_path(name@),
{
    let mut out = String::from_str("biome/");
    out.append(name);
    out
}

/// The comment placed before a declaration that has a description.
pub fn description_comment(description: &str) -> (res: String)
    ensures
        res@ == doc_comment(description@),
{
    let n = description.unicode_len();
    let mut has_line_break = false;
    let mut i: usize = 0;
    while i < n
        invariant
            n == description@.len(),
            i <= n,
            has_line_break == description@.take(i as int).contains('\n'),
        decreases n - i,
    {
        proof {
            assert(description@.take(i + 1) =~= description@.take(i as int).push(
                description@[i as int],
            ));
        }
        if description.get_char(i) == '\n' {
            has_line_break = true;
            assert(description@.take(i + 1)[i as int] == '\n');
        }
        i = i + 1;
    }
    assert(description@.take(n as int) =~= description@);
    if has_line_break {
        let mut out = String::from_str("/**\n\t* ");
        out.append(description);
        out.append(" \n\t */\n");
        out
    } else {
        let mut line = String::from_str("* ");
        line.append(description);
        let trimmed = str_trim_end(line.as_str());
        let mut out = String::from_str("/**\n ");
        out.append(trimmed);
        out.append("\n */\n");
        out
    }
}

/// The exported form of a declaration.
pub fn export_declaration(d: &Declaration) -> (res: String)
    ensures
        res@ == export_item(d@),
{
    let mut out = match &d.description {
        Some(desc) => description_comment(desc.as_str()),
        None => String::new(),
    };
    out.append("export ");
    out.append(d.code.as_str());
    if export_clause_kind(d.kind) == DeclarationClauseKind::VariableClause {
        out.append(";");
    }
    out.append("\n");
    out
}

/// The signature of a method in the `Workspace` interface.
pub fn signature_of(m: &WorkspaceMethod) -> (res: String)
    ensures
        res@ == method_signature(m@),
{
    let camel = to_camel_case(m.name.as_str());
    let mut flat = camel.clone();
    flat.append("(params: ");
    flat.append(m.params.as_str());
    flat.append("): Promise<");
    flat.append(m.result.as_str());
    flat.append(">;");
    if flat.unicode_len() <= 78 {
        flat
    } else {
        let mut out = camel;
        out.append("(\n\t\tparams: ");
        out.append(m.params.as_str());
        out.append(",\n\t): Promise<");
        out.append(m.result.as_str());
        out.append(">;");
        out
    }
}

/// The member of the returned object that implements a method.
pub fn member_of(m: &WorkspaceMethod) -> (res: String)
    ensures
        res@ == method_member(m@),
{
    let mut out = String::from_str("\n\t\t");
    let camel = to_camel_case(m.name.as_str());
    out.append(camel.as_str());
    out.append("(params) {\n\t\t\t");
    let path = method_request_path(m.name.as_str());
    let mut flat = String::from_str("return transport.request(\"");
    flat.append(path.as_str());
    flat.append("\", params);");
    if flat.unicode_len() <= 74 {
        out.append(flat.as_str());
    } else {
        out.append("return transport.request(\n\t\t\t\t\"");
        out.append(path.as_str());
        out.append("\",\n\t\t\t\tparams,\n\t\t\t);");
    }
    out.append("\n\t\t}");
    out
}

/// The `Workspace` interface for the given methods.
pub fn interface_of(methods: &Vec<WorkspaceMethod>) -> (res: String)
    ensures
        res@ == workspace_interface(methods.deep_view()),
{
    let mut lines = String::new();
    let mut i: usize = 0;
    while i < methods.len()
        invariant
            i <= methods.len(),
            lines@ == signature_lines(methods.deep_view().take(i as int)),
        decreases methods.len() - i,
    {
        proof {
            assert(methods.deep_view().take(i + 1).drop_last() =~= methods.deep_view().take(
                i as int,
            ));
        }
        lines.append("\t");
        let sig = signature_of(&methods[i]);
        lines.append(sig.as_str());
        lines.append("\n");
        i = i + 1;
    }
    proof {
        assert(methods.deep_view().take(methods.len() as int) =~= methods.deep_view());
    }
    let mut out = String::from_str("export interface Workspace {\n");
    out.append(lines.as_str());
    out.append("\tdestroy(): void;\n}\n");
    out
}

/// The concatenation of printed texts.
fn concat_texts(texts: &Vec<String>) -> (res: String)
    ensures
        res@ == concat(texts.deep_view()),
{
    let mut out = String::new();
    let mut i: usize = 0;
    while i < texts.len()
        invariant
            i <= texts.len(),
            out@ == concat(texts.deep_view().take(i as int)),
        decreases texts.len() - i,
    {
        proof {
            assert(texts.deep_view().take(i + 1).drop_last() =~= texts.deep_view().take(i as int));
        }
        out.append(texts[i].as_str());
        i = i + 1;
    }
    proof {
        assert(texts.deep_view().take(texts.len() as int) =~= texts.deep_view());
    }
    out
}

/// The `createWorkspace` function for the given methods.
pub fn create_workspace_of(methods: &Vec<WorkspaceMethod>) -> (res: String)
    ensures
        res@ == create_workspace_function(methods.deep_view()),
{
    let ghost ms = methods.deep_view();
    let mut elements: Vec<SeparatedElement> = Vec::new();
    let mut i: usize = 0;
    while i < methods.len()
        invariant
            i <= methods.len(),
            ms == methods.deep_view(),
            elements.deep_view() =~= member_elements(ms).take(i as int),
        decreases methods.len() - i,
    {
        let node = member_of(&methods[i]);
        let ghost before = elements.deep_view();
        elements.push(SeparatedElement { node: Some(node), trailing_separator: comma_token() });
        assert(elements.deep_view() =~= before.push(member_elements(ms)[i as int]));
        i = i + 1;
    }
    let ghost before = elements.deep_view();
    elements.push(
        SeparatedElement {
            node: Some(String::from_str("\n\t\tdestroy() {\n\t\t\ttransport.destroy();\n\t\t}")),
            trailing_separator: comma_token(),
        },
    );
    assert(elements.deep_view() =~= before.push(member_elements(ms).last()));
    assert(elements.deep_view() =~= member_elements(ms));
    let list = SeparatedList { elements };
    let items = list.format_separated(",", TrailingSeparator::Allowed);
    proof {
        joined_items_format_the_list(member_elements(ms), ","@, TrailingSeparator::Allowed);
        every_separator_printed_when_group_breaks(member_elements(ms), ","@, TrailingSeparator::Allowed);
    }
    let pieces = match join_formatted(&items) {
        Ok(p) => p,
        Err(_) => {
            assert(false);
            Vec::new()
        },
    };
    let texts = print_pieces(&pieces, true);
    let members = concat_texts(&texts);
    let mut out = String::from_str(
        "export function createWorkspace(transport: Transport): Workspace {\n\treturn {",
    );
    out.append(members.as_str());
    out.append("\n\t};\n}\n");
    out
}

/// Generates the TypeScript module that exposes the given workspace methods,
/// exporting the given type declarations.
///
/// The declarations are exported in the order given, so the caller passes
/// every declaration the module needs: those of the methods' parameter and
/// result types and, after them, those of `SupportKind`, `RuleDomain` and
/// `RuleDomainValue`, which no method names but which the module exports
/// too. The layout is the one the module documentation describes.
pub fn generate_workspace_bindings(
    methods: &Vec<WorkspaceMethod>,
    declarations: &Vec<Declaration>,
) -> (code: String)
    ensures
        code@ == workspace_module(methods.deep_view(), declarations.deep_view()),
{
    let mut code = String::from_str(
        "// Generated file, do not edit by hand, see `xtask/codegen`\nimport type { Transport } from \"./transport\";\n",
    );
    let mut i: usize = 0;
    let ghost head = code@;
    while i < declarations.len()
        invariant
            i <= declarations.len(),
            head == module_header(),
            code@ == head + export_items(declarations.deep_view().take(i as int)),
        decreases declarations.len() - i,
    {
        proof {
            assert(declarations.deep_view().take(i + 1).drop_last() =~= declarations.deep_view().take(
                i as int,
            ));
        }
        let item = export_declaration(&declarations[i]);
        code.append(item.as_str());
        i = i + 1;
    }
    proof {
        assert(declarations.deep_view().take(declarations.len() as int)
            =~= declarations.deep_view());
    }
    let interface = interface_of(methods);
    code.append(interface.as_str());
    let function = create_workspace_of(methods);
    code.append(function.as_str());
    code
}


/// Every member of the object that `createWorkspace` returns, one per
/// method and then `destroy`, is printed followed by a comma, the last one
/// included.
pub proof fn every_object_member_followed_by_comma(ms: Seq<MethodView>)
    ensures
        object_members(ms) == concat(interleaved(member_elements(ms))),
        forall|i: int|
            0 <= i < member_elements(ms).len() ==> (#[trigger] member_elements(
                ms,
            )[i]).trailing_separator == comma(),
{
    let es = member_elements(ms);
    assert forall|i: int| 0 <= i < es.len() implies (#[trigger] es[i]).node is Some
        && es[i].trailing_separator is Token by {
        if i < ms.len() {
        }
    }
    every_separator_printed_when_group_breaks(es, ","@, TrailingSeparator::Allowed);
}


/// Appending a declaration to the list appends exactly its export to the
/// exported text, whatever came before: its description's comment (if it has
/// one), `export `, its code (closed by `;` for a variable declaration) and
/// a line break. So every given declaration is exported, in the given order.
pub proof fn every_declaration_exported_in_order(ds: Seq<DeclarationView>, d: DeclarationView)
    ensures
        export_items(ds.push(d)) == export_items(ds) + (match d.description {
            Some(desc) => doc_comment(desc),
            None => Seq::<char>::empty(),
        }) + "export "@ + d.code + (if d.kind == DeclarationKind::Variable {
            ";"@
        } else {
            Seq::<char>::empty()
        }) + "\n"@,
{
    assert(ds.push(d).drop_last() =~= ds);
    assert(ds.push(d).last() == d);
    let tail = if d.kind == DeclarationKind::Variable {
        ";"@
    } else {
        Seq::<char>::empty()
    };
    assert(export_clause(d) =~= d.code + tail);
    match d.description {
        Some(desc) => {
            assert(export_item(d) =~= doc_comment(desc) + "export "@ + d.code + tail + "\n"@);
            assert(export_items(ds.push(d)) =~= export_items(ds) + doc_comment(desc) + "export "@
                + d.code + tail + "\n"@);
        },
        None => {
            assert(export_items(ds.push(d)) =~= export_items(ds) + Seq::<char>::empty()
                + "export "@ + d.code + tail + "\n"@);
        },
    }
}

/// The whole module with one more declaration is the same module with that
/// declaration's export inserted right after the earlier declarations'
/// exports, before the `Workspace` interface.
pub proof fn module_exports_every_declaration(
    ms: Seq<MethodView>,
    ds: Seq<DeclarationView>,
    d: DeclarationView,
)
    ensures
        workspace_module(ms, ds.push(d)) == module_header() + export_items(ds) + export_item(d)
            + workspace_interface(ms) + create_workspace_function(ms),
{
    every_declaration_exported_in_order(ds, d);
    assert(ds.push(d).drop_last() =~= ds);
    assert(workspace_module(ms, ds.push(d)) =~= module_header() + export_items(ds) + export_item(d)
        + workspace_interface(ms) + create_workspace_function(ms));
}

/// Every method's member in the returned object returns the request
/// `biome/<name>` sent with `params`, whatever the method's parameter and
/// result types: the body is `return transport.request("biome/<name>",
/// params);`, on one line or with one argument per line.
pub proof fn every_member_returns_its_request(m: MethodView)
    ensures
        method_member(m) == "\n\t\t"@ + camel_case(m.name) + "(params) {\n\t\t\t"@
            + "return transport.request(\""@ + ("biome/"@ + m.name) + "\", params);"@
            + "\n\t\t}"@ || method_member(m) == "\n\t\t"@ + camel_case(m.name)
            + "(params) {\n\t\t\t"@ + "return transport.request(\n\t\t\t\t\""@ + ("biome/"@
            + m.name) + "\",\n\t\t\t\tparams,\n\t\t\t);"@ + "\n\t\t}"@,
{
}

/// A method's member depends on its name alone: two methods of the same
/// name, whatever their parameter and result types, get the same member.
pub proof fn member_depends_on_name_only(m1: MethodView, m2: MethodView)
    requires
        m1.name == m2.name,
    ensures
        method_member(m1) == method_member(m2),
{
}

/// A method's signature declares its name in camel case, its parameter
/// type and `Promise<result>` with the result type verbatim, whatever that
/// type is: on one line, or with the parameter on a line of its own.
pub proof fn signature_returns_promise_of_result(m: MethodView)
    ensures
        method_signature(m) == camel_case(m.name) + "(params: "@ + m.params + "): Promise<"@
            + m.result + ">;"@ || method_signature(m) == camel_case(m.name) + "(\n\t\tparams: "@
            + m.params + ",\n\t): Promise<"@ + m.result + ">;"@,
{
}

/// Appending a method to the list appends exactly its signature line to
/// the `Workspace` interface's signature lines: every method is declared,
/// in the given order.
pub proof fn every_method_declared_in_order(ms: Seq<MethodView>, m: MethodView)
    ensures
        signature_lines(ms.push(m)) == signature_lines(ms) + "\t"@ + method_signature(m) + "\n"@,
{
    assert(ms.push(m).drop_last() =~= ms);
    assert(ms.push(m).last() == m);
}

/// A description with a line break anywhere in it is written as it is, in
/// the comment `/**` + newline + tab + `* ` + description + ` ` + newline +
/// tab + ` */` + newline, since its following lines do not start with `*`.
pub proof fn multi_line_description_kept_as_written(description: Seq<char>)
    requires
        description.contains('\n'),
    ensures
        doc_comment(description) == "/**\n\t* "@ + description + " \n\t */\n"@,
{
}

/// `trimmed_end(s)` is `s` up to some point, after which every character
/// is white space, and the last character kept (if any) is not.
proof fn lemma_trimmed_end(s: Seq<char>)
    ensures
        trimmed_end(s).len() <= s.len(),
        trimmed_end(s) == s.take(trimmed_end(s).len() as int),
        forall|i: int| trimmed_end(s).len() <= i < s.len() ==> is_whitespace(#[trigger] s[i]),
        trimmed_end(s).len() > 0 ==> !is_whitespace(trimmed_end(s).last()),
    decreases s.len(),
{
    if s.len() > 0 && is_whitespace(s.last()) {
        lemma_trimmed_end(s.drop_last());
        let t = trimmed_end(s.drop_last());
        assert(t == s.take(t.len() as int));
        assert forall|i: int| t.len() <= i < s.len() implies is_whitespace(#[trigger] s[i]) by {
            if i < s.len() - 1 {
                assert(s.drop_last()[i] == s[i]);
            }
        }
    } else {
        assert(s.take(s.len() as int) =~= s);
    }
}

/// A description without a line break is laid out as a documentation
/// comment of three lines: `/**`, then a space and `* ` followed by the
/// description without its trailing white space, then ` */`.
pub proof fn single_line_description_laid_out(description: Seq<char>)
    requires
        !description.contains('\n'),
    ensures
        ({
            let line = "* "@ + description;
            let k = doc_comment(description).len() - 10;
            &&& 0 <= k <= line.len()
            &&& doc_comment(description) == "/**\n "@ + line.take(k) + "\n */\n"@
            &&& forall|i: int| k <= i < line.len() ==> is_whitespace(#[trigger] line[i])
            &&& k > 0 ==> !is_whitespace(line[k - 1])
        }),
{
    let line = "* "@ + description;
    lemma_trimmed_end(line);
    let t = trimmed_end(line);
    reveal_strlit("/**\n ");
    reveal_strlit("\n */\n");
    assert(doc_comment(description) == "/**\n "@ + t + "\n */\n"@);
    assert(doc_comment(description).len() == t.len() + 10);
}

} // verus!
