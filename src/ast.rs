//! The syntax tree that the passes rewrite, and its mathematical view.
//!
//! The tree holds as plain values what the passes read: identifiers, string
//! literals, member accesses, calls, array and object literals, functions,
//! variable declarations, imports and exports. Every other construct is an
//! `Other` shell: an `origin` handle by which the host restores the node,
//! and the parts inside it that the passes must still visit.
use vstd::prelude::*;

verus! {

/// An expression.
#[derive(Debug, PartialEq, Eq)]
pub enum Expr {
    /// A reference to a binding, with its hygiene context and source span.
    Ident { sym: String, ctxt: u32, origin: u64 },
    /// A string literal.
    Str { value: String, origin: u64 },
    /// `obj.prop` or `obj[prop]`.
    Member { obj: Box<Expr>, prop: MemberProp, origin: u64 },
    /// `callee(args...)`; a spread argument is an `Other` shell around its expression.
    Call { callee: Box<Expr>, args: Vec<Expr>, origin: u64 },
    /// `[elems...]`; a hole or a spread element is an `Other` shell.
    Array { elems: Vec<Expr>, origin: u64 },
    /// `{ props... }`.
    Object { props: Vec<Prop>, origin: u64 },
    /// A function or arrow expression: its parameters and body.
    Func { parts: Vec<Node>, origin: u64 },
    /// Any other expression, with the parts inside it.
    Other { parts: Vec<Node>, origin: u64 },
    /// `globalThis.jotaiAtomCache.get(key, call)`, produced by the cache pass.
    CacheGet { key: String, call: Box<Expr> },
}

/// The property of a member access.
#[derive(Debug, PartialEq, Eq)]
pub enum MemberProp {
    /// `.name`
    Ident { sym: String, origin: u64 },
    /// `[expr]`, or a private name held as a shell.
    Other { expr: Box<Expr> },
}

/// The key of an object property.
#[derive(Debug, PartialEq, Eq)]
pub enum PropKey {
    /// An identifier, string, number or bigint key, as the text it stands for.
    Name { text: String, origin: u64 },
    /// `[expr]`, with the text that stands for it in a path (`computed:` and its source span).
    Computed { expr: Box<Expr>, placeholder: String, origin: u64 },
}

/// A member of an object literal.
#[derive(Debug, PartialEq, Eq)]
pub enum Prop {
    /// `key: value`
    KeyValue { key: PropKey, value: Expr, origin: u64 },
    /// `name`
    Shorthand { sym: String, origin: u64 },
    /// A spread, method, getter, setter or assignment property.
    Other { parts: Vec<Node>, origin: u64 },
}

/// A part of a shell.
#[derive(Debug, PartialEq, Eq)]
pub enum Node {
    Expr(Expr),
    /// A nested statement list (a block).
    Stmts(Vec<Stmt>),
    /// A variable declaration that is not itself a statement (a loop head).
    Var(VarDecl),
}

/// What a declarator binds.
#[derive(Debug, PartialEq, Eq)]
pub enum Binding {
    Ident { sym: String, ctxt: u32, origin: u64 },
    /// A destructuring pattern, with the parts inside it (defaults, computed keys).
    Pattern { parts: Vec<Node>, origin: u64 },
}

/// `name = init`
#[derive(Debug, PartialEq, Eq)]
pub struct Declarator {
    pub name: Binding,
    pub init: Option<Expr>,
    pub origin: u64,
}

/// `const`, `let` or `var` with its declarators.
#[derive(Debug, PartialEq, Eq)]
pub struct VarDecl {
    pub decls: Vec<Declarator>,
    pub origin: u64,
}

/// One specifier of an import declaration.
#[derive(Debug, PartialEq, Eq)]
pub enum ImportSpec {
    /// `{ imported as local }`; `imported` is `None` when no rename is written.
    Named { local: String, imported: Option<String> },
    /// `local`
    Default { local: String },
    /// `* as local`
    Namespace { local: String },
}

/// `import ... from "src"`
#[derive(Debug, PartialEq, Eq)]
pub struct Import {
    pub src: String,
    pub specs: Vec<ImportSpec>,
    pub origin: u64,
}

/// A statement or module item.
#[derive(Debug, PartialEq, Eq)]
pub enum Stmt {
    Import(Import),
    /// `export default expr;`
    ExportDefault { expr: Expr, origin: u64 },
    /// A variable declaration; `export` holds the handle of `export` when it is exported.
    Var { decl: VarDecl, export: Option<u64> },
    /// An expression statement.
    Expr { expr: Expr, origin: u64 },
    /// Any other statement or declaration, with the parts inside it.
    Other { parts: Vec<Node>, origin: u64 },
    /// `name.debugLabel = "name";`
    DebugLabel { name: String, ctxt: u32 },
    /// `const name = init;`
    DefaultAtom { name: String, init: Expr },
    /// `export default name;`
    ExportDefaultName { name: String },
    /// The statement that sets up `globalThis.jotaiAtomCache` when it is absent.
    CacheSetup,
}

/// The file being transformed, when the host names it.
#[derive(Debug, Clone, PartialEq, Eq)]
pub enum FileName {
    Real(String),
    Anon,
}

impl View for FileName {
    type V = Option<Seq<char>>;

    open spec fn view(&self) -> Option<Seq<char>> {
        match self {
            FileName::Real(p) => Some(p@),
            FileName::Anon => None,
        }
    }
}

/// A module or a script.
#[derive(Debug, PartialEq, Eq)]
pub struct Program {
    pub body: Vec<Stmt>,
    pub origin: u64,
}

// ---------------------------------------------------------------------------
// Views: the same trees, with strings as `Seq<char>` and lists as `Seq`.

pub enum ExprView {
    Ident { sym: Seq<char>, ctxt: u32, origin: u64 },
    Str { value: Seq<char>, origin: u64 },
    Member { obj: Box<ExprView>, prop: MemberPropView, origin: u64 },
    Call { callee: Box<ExprView>, args: Seq<ExprView>, origin: u64 },
    Array { elems: Seq<ExprView>, origin: u64 },
    Object { props: Seq<PropView>, origin: u64 },
    Func { parts: Seq<NodeView>, origin: u64 },
    Other { parts: Seq<NodeView>, origin: u64 },
    CacheGet { key: Seq<char>, call: Box<ExprView> },
}

pub enum MemberPropView {
    Ident { sym: Seq<char>, origin: u64 },
    Other { expr: Box<ExprView> },
}

pub enum PropKeyView {
    Name { text: Seq<char>, origin: u64 },
    Computed { expr: Box<ExprView>, placeholder: Seq<char>, origin: u64 },
}

pub enum PropView {
    KeyValue { key: PropKeyView, value: ExprView, origin: u64 },
    Shorthand { sym: Seq<char>, origin: u64 },
    Other { parts: Seq<NodeView>, origin: u64 },
}

pub enum NodeView {
    Expr(ExprView),
    Stmts(Seq<StmtView>),
    Var(VarDeclView),
}

pub enum BindingView {
    Ident { sym: Seq<char>, ctxt: u32, origin: u64 },
    Pattern { parts: Seq<NodeView>, origin: u64 },
}

pub struct DeclaratorView {
    pub name: BindingView,
    pub init: Option<ExprView>,
    pub origin: u64,
}

pub struct VarDeclView {
    pub decls: Seq<DeclaratorView>,
    pub origin: u64,
}

pub enum ImportSpecView {
    Named { local: Seq<char>, imported: Option<Seq<char>> },
    Default { local: Seq<char> },
    Namespace { local: Seq<char> },
}

pub struct ImportView {
    pub src: Seq<char>,
    pub specs: Seq<ImportSpecView>,
    pub origin: u64,
}

pub enum StmtView {
    Import(ImportView),
    ExportDefault { expr: ExprView, origin: u64 },
    Var { decl: VarDeclView, export: Option<u64> },
    Expr { expr: ExprView, origin: u64 },
    Other { parts: Seq<NodeView>, origin: u64 },
    DebugLabel { name: Seq<char>, ctxt: u32 },
    DefaultAtom { name: Seq<char>, init: ExprView },
    ExportDefaultName { name: Seq<char> },
    CacheSetup,
}

pub struct ProgramView {
    pub body: Seq<StmtView>,
    pub origin: u64,
}

pub open spec fn expr_view(e: Expr) -> ExprView
    decreases e,
{
    match e {
        Expr::Ident { sym, ctxt, origin } => ExprView::Ident { sym: sym@, ctxt, origin },
        Expr::Str { value, origin } => ExprView::Str { value: value@, origin },
        Expr::Member { obj, prop, origin } => ExprView::Member {
            obj: Box::new(expr_view(*obj)),
            prop: member_prop_view(prop),
            origin,
        },
        Expr::Call { callee, args, origin } => ExprView::Call {
            callee: Box::new(expr_view(*callee)),
            args: exprs_view(args@),
            origin,
        },
        Expr::Array { elems, origin } => ExprView::Array { elems: exprs_view(elems@), origin },
        Expr::Object { props, origin } => ExprView::Object { props: props_view(props@), origin },
        Expr::Func { parts, origin } => ExprView::Func { parts: nodes_view(parts@), origin },
        Expr::Other { parts, origin } => ExprView::Other { parts: nodes_view(parts@), origin },
        Expr::CacheGet { key, call } => ExprView::CacheGet {
            key: key@,
            call: Box::new(expr_view(*call)),
        },
    }
}

pub open spec fn member_prop_view(p: MemberProp) -> MemberPropView
    decreases p,
{
    match p {
        MemberProp::Ident { sym, origin } => MemberPropView::Ident { sym: sym@, origin },
        MemberProp::Other { expr } => MemberPropView::Other { expr: Box::new(expr_view(*expr)) },
    }
}

pub open spec fn prop_key_view(k: PropKey) -> PropKeyView
    decreases k,
{
    match k {
        PropKey::Name { text, origin } => PropKeyView::Name { text: text@, origin },
        PropKey::Computed { expr, placeholder, origin } => PropKeyView::Computed {
            expr: Box::new(expr_view(*expr)),
            placeholder: placeholder@,
            origin,
        },
    }
}

pub open spec fn prop_view(p: Prop) -> PropView
    decreases p,
{
    match p {
        Prop::KeyValue { key, value, origin } => PropView::KeyValue {
            key: prop_key_view(key),
            value: expr_view(value),
            origin,
        },
        Prop::Shorthand { sym, origin } => PropView::Shorthand { sym: sym@, origin },
        Prop::Other { parts, origin } => PropView::Other { parts: nodes_view(parts@), origin },
    }
}

pub open spec fn node_view(n: Node) -> NodeView
    decreases n,
{
    match n {
        Node::Expr(e) => NodeView::Expr(expr_view(e)),
        Node::Stmts(s) => NodeView::Stmts(stmts_view(s@)),
        Node::Var(d) => NodeView::Var(var_decl_view(d)),
    }
}

pub open spec fn binding_view(b: Binding) -> BindingView
    decreases b,
{
    match b {
        Binding::Ident { sym, ctxt, origin } => BindingView::Ident { sym: sym@, ctxt, origin },
        Binding::Pattern { parts, origin } => BindingView::Pattern {
            parts: nodes_view(parts@),
            origin,
        },
    }
}

pub open spec fn declarator_view(d: Declarator) -> DeclaratorView
    decreases d,
{
    DeclaratorView {
        name: binding_view(d.name),
        init: match d.init {
            Some(e) => Some(expr_view(e)),
            None => None,
        },
        origin: d.origin,
    }
}

pub open spec fn var_decl_view(d: VarDecl) -> VarDeclView
    decreases d,
{
    VarDeclView { decls: declarators_view(d.decls@), origin: d.origin }
}

pub open spec fn import_spec_view(s: ImportSpec) -> ImportSpecView {
    match s {
        ImportSpec::Named { local, imported } => ImportSpecView::Named {
            local: local@,
            imported: match imported {
                Some(i) => Some(i@),
                None => None,
            },
        },
        ImportSpec::Default { local } => ImportSpecView::Default { local: local@ },
        ImportSpec::Namespace { local } => ImportSpecView::Namespace { local: local@ },
    }
}

pub open spec fn import_view(i: Import) -> ImportView {
    ImportView { src: i.src@, specs: i.specs@.map_values(|s: ImportSpec| import_spec_view(s)), origin: i.origin }
}

pub open spec fn stmt_view(s: Stmt) -> StmtView
    decreases s,
{
    match s {
        Stmt::Import(i) => StmtView::Import(import_view(i)),
        Stmt::ExportDefault { expr, origin } => StmtView::ExportDefault { expr: expr_view(expr), origin },
        Stmt::Var { decl, export } => StmtView::Var { decl: var_decl_view(decl), export },
        Stmt::Expr { expr, origin } => StmtView::Expr { expr: expr_view(expr), origin },
        Stmt::Other { parts, origin } => StmtView::Other { parts: nodes_view(parts@), origin },
        Stmt::DebugLabel { name, ctxt } => StmtView::DebugLabel { name: name@, ctxt },
        Stmt::DefaultAtom { name, init } => StmtView::DefaultAtom { name: name@, init: expr_view(init) },
        Stmt::ExportDefaultName { name } => StmtView::ExportDefaultName { name: name@ },
        Stmt::CacheSetup => StmtView::CacheSetup,
    }
}

pub proof fn lemma_exprs_view_len(s: Seq<Expr>)
    ensures
        exprs_view(s).len() == s.len(),
    decreases s.len(),
{
    if s.len() > 0 {
        lemma_exprs_view_len(s.drop_last());
    }
}

pub proof fn lemma_stmts_view(s: Seq<Stmt>)
    ensures
        stmts_view(s).len() == s.len(),
        forall|i: int| 0 <= i < s.len() ==> #[trigger] stmts_view(s)[i] == stmt_view(s[i]),
    decreases s.len(),
{
    if s.len() > 0 {
        lemma_stmts_view(s.drop_last());
        assert forall|i: int| 0 <= i < s.len() implies #[trigger] stmts_view(s)[i] == stmt_view(s[i]) by {
            if i < s.len() - 1 {
                assert(s.drop_last()[i] == s[i]);
            }
        }
    }
}

pub open spec fn exprs_view(s: Seq<Expr>) -> Seq<ExprView>
    decreases s,
{
    if s.len() == 0 {
        seq![]
    } else {
        exprs_view(s.drop_last()).push(expr_view(s.last()))
    }
}

pub open spec fn props_view(s: Seq<Prop>) -> Seq<PropView>
    decreases s,
{
    if s.len() == 0 {
        seq![]
    } else {
        props_view(s.drop_last()).push(prop_view(s.last()))
    }
}

pub open spec fn nodes_view(s: Seq<Node>) -> Seq<NodeView>
    decreases s,
{
    if s.len() == 0 {
        seq![]
    } else {
        nodes_view(s.drop_last()).push(node_view(s.last()))
    }
}

pub open spec fn declarators_view(s: Seq<Declarator>) -> Seq<DeclaratorView>
    decreases s,
{
    if s.len() == 0 {
        seq![]
    } else {
        declarators_view(s.drop_last()).push(declarator_view(s.last()))
    }
}

pub open spec fn stmts_view(s: Seq<Stmt>) -> Seq<StmtView>
    decreases s,
{
    if s.len() == 0 {
        seq![]
    } else {
        stmts_view(s.drop_last()).push(stmt_view(s.last()))
    }
}

impl View for Expr {
    type V = ExprView;

    open spec fn view(&self) -> ExprView {
        expr_view(*self)
    }
}

impl View for Stmt {
    type V = StmtView;

    open spec fn view(&self) -> StmtView {
        stmt_view(*self)
    }
}

impl View for Import {
    type V = ImportView;

    open spec fn view(&self) -> ImportView {
        import_view(*self)
    }
}

impl View for Program {
    type V = ProgramView;

    open spec fn view(&self) -> ProgramView {
        ProgramView { body: stmts_view(self.body@), origin: self.origin }
    }
}

} // verus!
