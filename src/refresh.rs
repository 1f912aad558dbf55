//! The cache pass: every atom-factory call at module level becomes
//! `globalThis.jotaiAtomCache.get(key, call)`, so that a module evaluated
//! again after a hot reload gets back the atoms it made before.
use vstd::prelude::*;
use crate::ast::{import_view, lemma_stmts_view, Program, ProgramView, member_prop_view, binding_view, declarator_view, declarators_view, exprs_view, expr_view, lemma_exprs_view_len, node_view, nodes_view, prop_key_view, prop_view, props_view, stmt_view, stmts_view, var_decl_view, Binding, Declarator, Expr, FileName, MemberProp, Node, Prop, PropKey, Stmt, VarDecl, BindingView, DeclaratorView, ExprView, MemberPropView, NodeView, PropKeyView, PropView, StmtView, VarDeclView};
use crate::names::{classify, initial_bindings, register, AtomImportMap, Bindings, Config};
use crate::text::{decimal, decimal_string, join_dotted, join_path, text_eq, texts};

verus! {

/// What the cache pass knows at a point of the tree: the bindings, the file
/// path, and the access path from the module root.
pub struct Scope {
    pub bindings: Bindings,
    pub file: Option<Seq<char>>,
    pub path: Seq<Seq<char>>,
}

impl Scope {
    pub open spec fn within(self, segment: Seq<char>) -> Scope {
        Scope { path: self.path.push(segment), ..self }
    }
}

/// The path segment of a declarator that binds no single name.
pub open spec fn missing_declarator() -> Seq<char> {
    "[missing-declarator]"@
}

/// `file/a.b.c`, or `a.b.c` when the file is unknown.
pub open spec fn cache_key(file: Option<Seq<char>>, path: Seq<Seq<char>>) -> Seq<char> {
    match file {
        Some(f) => f + seq!['/'] + join_dotted(path),
        None => join_dotted(path),
    }
}

pub open spec fn declarator_segment(b: BindingView) -> Seq<char> {
    match b {
        BindingView::Ident { sym, .. } => sym,
        BindingView::Pattern { .. } => missing_declarator(),
    }
}

/// The text of an object key as a path segment.
pub open spec fn key_segment(k: PropKeyView) -> Seq<char> {
    match k {
        PropKeyView::Name { text, .. } => text,
        PropKeyView::Computed { placeholder, .. } => placeholder,
    }
}

/// An expression after the cache pass, and whether any call was wrapped.
pub open spec fn cache_expr(sc: Scope, e: ExprView) -> (ExprView, bool)
    decreases e,
{
    match e {
        ExprView::Call { callee, args, origin } => if classify(sc.bindings, *callee) {
            (ExprView::CacheGet { key: cache_key(sc.file, sc.path), call: Box::new(e) }, true)
        } else {
            let c = cache_expr(sc, *callee);
            let a = cache_exprs(sc, args);
            (ExprView::Call { callee: Box::new(c.0), args: a.0, origin }, c.1 || a.1)
        },
        ExprView::Member { obj, prop, origin } => {
            let o = cache_expr(sc, *obj);
            let p = cache_member_prop(sc, prop);
            (ExprView::Member { obj: Box::new(o.0), prop: p.0, origin }, o.1 || p.1)
        },
        ExprView::Array { elems, origin } => {
            let a = cache_elems(sc, elems);
            (ExprView::Array { elems: a.0, origin }, a.1)
        },
        ExprView::Object { props, origin } => {
            let p = cache_props(sc, props);
            (ExprView::Object { props: p.0, origin }, p.1)
        },
        ExprView::Other { parts, origin } => {
            let p = cache_nodes(sc, parts);
            (ExprView::Other { parts: p.0, origin }, p.1)
        },
        _ => (e, false),
    }
}

pub open spec fn cache_member_prop(sc: Scope, p: MemberPropView) -> (MemberPropView, bool)
    decreases p,
{
    match p {
        MemberPropView::Other { expr } => {
            let e = cache_expr(sc, *expr);
            (MemberPropView::Other { expr: Box::new(e.0) }, e.1)
        },
        _ => (p, false),
    }
}

pub open spec fn cache_exprs(sc: Scope, s: Seq<ExprView>) -> (Seq<ExprView>, bool)
    decreases s,
{
    if s.len() == 0 {
        (s, false)
    } else {
        let a = cache_exprs(sc, s.drop_last());
        let e = cache_expr(sc, s.last());
        (a.0.push(e.0), a.1 || e.1)
    }
}

/// Array elements: each is visited with its index appended to the path.
pub open spec fn cache_elems(sc: Scope, s: Seq<ExprView>) -> (Seq<ExprView>, bool)
    decreases s,
{
    if s.len() == 0 {
        (s, false)
    } else {
        let a = cache_elems(sc, s.drop_last());
        let e = cache_expr(sc.within(decimal((s.len() - 1) as nat)), s.last());
        (a.0.push(e.0), a.1 || e.1)
    }
}

pub open spec fn cache_prop(sc: Scope, p: PropView) -> (PropView, bool)
    decreases p,
{
    match p {
        PropView::KeyValue { key, value, origin } => {
            let inner = sc.within(key_segment(key));
            let k = match key {
                PropKeyView::Computed { expr, placeholder, origin: ko } => {
                    let e = cache_expr(inner, *expr);
                    (PropKeyView::Computed { expr: Box::new(e.0), placeholder, origin: ko }, e.1)
                },
                _ => (key, false),
            };
            let v = cache_expr(inner, value);
            (PropView::KeyValue { key: k.0, value: v.0, origin }, k.1 || v.1)
        },
        PropView::Other { parts, origin } => {
            let n = cache_nodes(sc, parts);
            (PropView::Other { parts: n.0, origin }, n.1)
        },
        _ => (p, false),
    }
}

pub open spec fn cache_props(sc: Scope, s: Seq<PropView>) -> (Seq<PropView>, bool)
    decreases s,
{
    if s.len() == 0 {
        (s, false)
    } else {
        let a = cache_props(sc, s.drop_last());
        let p = cache_prop(sc, s.last());
        (a.0.push(p.0), a.1 || p.1)
    }
}

pub open spec fn cache_node(sc: Scope, n: NodeView) -> (NodeView, bool)
    decreases n,
{
    match n {
        NodeView::Expr(e) => {
            let r = cache_expr(sc, e);
            (NodeView::Expr(r.0), r.1)
        },
        NodeView::Stmts(s) => {
            let r = cache_block(sc, s);
            (NodeView::Stmts(r.0), r.1)
        },
        NodeView::Var(d) => {
            let r = cache_var_decl(sc, d);
            (NodeView::Var(r.0), r.1)
        },
    }
}

pub open spec fn cache_nodes(sc: Scope, s: Seq<NodeView>) -> (Seq<NodeView>, bool)
    decreases s,
{
    if s.len() == 0 {
        (s, false)
    } else {
        let a = cache_nodes(sc, s.drop_last());
        let n = cache_node(sc, s.last());
        (a.0.push(n.0), a.1 || n.1)
    }
}

/// A declarator: its pattern and initializer are visited with its name appended to the path.
pub open spec fn cache_declarator(sc: Scope, d: DeclaratorView) -> (DeclaratorView, bool)
    decreases d,
{
    let inner = sc.within(declarator_segment(d.name));
    let n = match d.name {
        BindingView::Pattern { parts, origin } => {
            let r = cache_nodes(inner, parts);
            (BindingView::Pattern { parts: r.0, origin }, r.1)
        },
        _ => (d.name, false),
    };
    let i = match d.init {
        Some(e) => {
            let r = cache_expr(inner, e);
            (Some(r.0), r.1)
        },
        None => (None, false),
    };
    (DeclaratorView { name: n.0, init: i.0, origin: d.origin }, n.1 || i.1)
}

pub open spec fn cache_declarators(sc: Scope, s: Seq<DeclaratorView>) -> (Seq<DeclaratorView>, bool)
    decreases s,
{
    if s.len() == 0 {
        (s, false)
    } else {
        let a = cache_declarators(sc, s.drop_last());
        let d = cache_declarator(sc, s.last());
        (a.0.push(d.0), a.1 || d.1)
    }
}

pub open spec fn cache_var_decl(sc: Scope, d: VarDeclView) -> (VarDeclView, bool)
    decreases d,
{
    let r = cache_declarators(sc, d.decls);
    (VarDeclView { decls: r.0, origin: d.origin }, r.1)
}

/// A statement; imports and synthesized statements stay as they are.
/// `export default f(...)` is wrapped in place, under the key of the empty
/// access path: `file/`, or the empty text when the file is unknown.
pub open spec fn cache_stmt(sc: Scope, s: StmtView) -> (StmtView, bool)
    decreases s,
{
    match s {
        StmtView::ExportDefault { expr, origin } => {
            let r = cache_expr(sc, expr);
            (StmtView::ExportDefault { expr: r.0, origin }, r.1)
        },
        StmtView::Var { decl, export } => {
            let r = cache_var_decl(sc, decl);
            (StmtView::Var { decl: r.0, export }, r.1)
        },
        StmtView::Expr { expr, origin } => {
            let r = cache_expr(sc, expr);
            (StmtView::Expr { expr: r.0, origin }, r.1)
        },
        StmtView::Other { parts, origin } => {
            let r = cache_nodes(sc, parts);
            (StmtView::Other { parts: r.0, origin }, r.1)
        },
        _ => (s, false),
    }
}

/// A nested statement list: each statement in turn, none added.
pub open spec fn cache_block(sc: Scope, s: Seq<StmtView>) -> (Seq<StmtView>, bool)
    decreases s,
{
    if s.len() == 0 {
        (s, false)
    } else {
        let a = cache_block(sc, s.drop_last());
        let t = cache_stmt(sc, s.last());
        (a.0.push(t.0), a.1 || t.1)
    }
}

/// The module's own statement list, with imports recorded as they come:
/// the rewritten list, the bindings at its end, and whether any call was wrapped.
pub open spec fn cache_items(b: Bindings, file: Option<Seq<char>>, s: Seq<StmtView>) -> (Seq<StmtView>, Bindings, bool)
    decreases s.len(),
{
    if s.len() == 0 {
        (s, b, false)
    } else {
        let a = cache_items(b, file, s.drop_last());
        match s.last() {
            StmtView::Import(i) => (a.0.push(s.last()), register(a.1, i), a.2),
            t => {
                let r = cache_stmt(Scope { bindings: a.1, file, path: seq![] }, t);
                (a.0.push(r.0), a.1, a.2 || r.1)
            },
        }
    }
}

} // verus!

verus! {

/// What the cache pass has seen: its scope, and whether it wrapped a call.
pub struct RefreshView {
    pub scope: Scope,
    pub used: bool,
}

impl RefreshView {
    pub open spec fn mark(self, used: bool) -> RefreshView {
        RefreshView { scope: self.scope, used: self.used || used }
    }
}

/// The state of the cache pass over one file.
pub struct ReactRefreshTransformVisitor {
    atom_import_map: AtomImportMap,
    file_name: FileName,
    used_atom: bool,
    access_path: Vec<String>,
}

impl View for ReactRefreshTransformVisitor {
    type V = RefreshView;

    closed spec fn view(&self) -> RefreshView {
        RefreshView {
            scope: Scope {
                bindings: self.atom_import_map@,
                file: self.file_name@,
                path: texts(self.access_path@),
            },
            used: self.used_atom,
        }
    }
}

proof fn lemma_texts_push(v: Seq<String>, s: String)
    ensures
        texts(v.push(s)) == texts(v).push(s@),
        texts(v.push(s).drop_last()) == texts(v),
{
    assert(texts(v.push(s)) =~= texts(v).push(s@));
    assert(v.push(s).drop_last() =~= v);
}

/// The text of an object key as a path segment.
pub fn show_prop_name(pn: &PropKey) -> (r: String)
    ensures
        r@ == key_segment(prop_key_view(*pn)),
{
    match pn {
        PropKey::Name { text, .. } => text.clone(),
        PropKey::Computed { placeholder, .. } => placeholder.clone(),
    }
}

/// `key` wrapped around `call`: `globalThis.jotaiAtomCache.get(key, call)`.
pub fn create_react_refresh_call_expr_(key: String, atom_expr: Expr) -> (r: Expr)
    ensures
        r@ == (ExprView::CacheGet { key: key@, call: Box::new(atom_expr@) }),
{
    Expr::CacheGet { key, call: Box::new(atom_expr) }
}

impl ReactRefreshTransformVisitor {
    /// A fresh pass over one file.
    pub fn new(config: Config, file_name: FileName) -> (r: Self)
        ensures
            r@ == (RefreshView {
                scope: Scope {
                    bindings: initial_bindings(config.names()),
                    file: file_name@,
                    path: seq![],
                },
                used: false,
            }),
    {
        let r = ReactRefreshTransformVisitor {
            atom_import_map: AtomImportMap::new(config.atom_names),
            file_name,
            used_atom: false,
            access_path: Vec::new(),
        };
        assert(texts(r.access_path@) =~= seq![]);
        r
    }

    /// The cache key of the current access path.
    fn create_cache_key(&self) -> (r: String)
        ensures
            r@ == cache_key(self@.scope.file, self@.scope.path),
    {
        let joined = join_path(&self.access_path);
        match &self.file_name {
            FileName::Real(p) => {
                let mut k = p.clone();
                k.append("/");
                k.append(joined.as_str());
                proof {
                    reveal_strlit("/");
                    assert(k@ =~= p@ + seq!['/'] + joined@);
                }
                k
            },
            FileName::Anon => joined,
        }
    }

    fn enter(&mut self, segment: String)
        ensures
            final(self)@ == (RefreshView { scope: old(self)@.scope.within(segment@), ..old(self)@ }),
            final(self)@.scope.path.len() > 0,
            final(self)@.scope.path.drop_last() == old(self)@.scope.path,
    {
        proof {
            lemma_texts_push(self.access_path@, segment);
        }
        self.access_path.push(segment);
    }

    fn leave(&mut self)
        requires
            old(self)@.scope.path.len() > 0,
        ensures
            final(self)@ == (RefreshView {
                scope: Scope { path: old(self)@.scope.path.drop_last(), ..old(self)@.scope },
                ..old(self)@
            }),
    {
        proof {
            assert(texts(self.access_path@.drop_last()) =~= texts(self.access_path@).drop_last());
        }
        let _ = self.access_path.pop();
    }

    fn visit_expr(&mut self, e: Expr) -> (r: Expr)
        ensures
            r@ == cache_expr(old(self)@.scope, e@).0,
            final(self)@ == old(self)@.mark(cache_expr(old(self)@.scope, e@).1),
        decreases e,
    {
        match e {
            Expr::Call { callee, args, origin } => {
                if self.atom_import_map.is_atom_import(&callee) {
                    let key = self.create_cache_key();
                    self.used_atom = true;
                    create_react_refresh_call_expr_(key, Expr::Call { callee, args, origin })
                } else {
                    let c = self.visit_expr(*callee);
                    let a = self.visit_exprs(args);
                    Expr::Call { callee: Box::new(c), args: a, origin }
                }
            },
            Expr::Member { obj, prop, origin } => {
                let o = self.visit_expr(*obj);
                let p = self.visit_member_prop(prop);
                Expr::Member { obj: Box::new(o), prop: p, origin }
            },
            Expr::Array { elems, origin } => Expr::Array { elems: self.visit_elems(elems), origin },
            Expr::Object { props, origin } => Expr::Object { props: self.visit_props(props), origin },
            Expr::Other { parts, origin } => Expr::Other { parts: self.visit_nodes(parts), origin },
            e => e,
        }
    }

    fn visit_member_prop(&mut self, p: MemberProp) -> (r: MemberProp)
        ensures
            member_prop_view(r) == cache_member_prop(old(self)@.scope, member_prop_view(p)).0,
            final(self)@ == old(self)@.mark(cache_member_prop(old(self)@.scope, member_prop_view(p)).1),
        decreases p,
    {
        match p {
            MemberProp::Other { expr } => MemberProp::Other { expr: Box::new(self.visit_expr(*expr)) },
            p => p,
        }
    }

    fn visit_exprs(&mut self, v: Vec<Expr>) -> (r: Vec<Expr>)
        ensures
            exprs_view(r@) == cache_exprs(old(self)@.scope, exprs_view(v@)).0,
            final(self)@ == old(self)@.mark(cache_exprs(old(self)@.scope, exprs_view(v@)).1),
        decreases v,
    {
        let ghost vs = v@;
        let ghost sc = self@.scope;
        let mut out: Vec<Expr> = Vec::new();
        for x in it: v.into_iter()
            invariant
                it.seq() == vs,
                sc == old(self)@.scope,
                exprs_view(out@) == cache_exprs(sc, exprs_view(vs.take(it.index() as int))).0,
                self@ == old(self)@.mark(cache_exprs(sc, exprs_view(vs.take(it.index() as int))).1),
        {
            let ghost pre = exprs_view(vs.take(it.index() as int));
            let ghost cur = exprs_view(vs.take(it.index() as int + 1));
            proof {
                assert(decreases_to!(v => x));
                assert(vs.take(it.index() as int + 1).drop_last() =~= vs.take(it.index() as int));
                assert(cur.drop_last() =~= pre);
            }
            let ghost before = out@;
            let y = self.visit_expr(x);
            out.push(y);
            proof {
                assert(out@.drop_last() =~= before);
                assert(exprs_view(out@).drop_last() =~= exprs_view(before));
            }
        }
        proof {
            assert(vs.take(vs.len() as int) =~= vs);
        }
        out
    }

    fn visit_props(&mut self, v: Vec<Prop>) -> (r: Vec<Prop>)
        ensures
            props_view(r@) == cache_props(old(self)@.scope, props_view(v@)).0,
            final(self)@ == old(self)@.mark(cache_props(old(self)@.scope, props_view(v@)).1),
        decreases v,
    {
        let ghost vs = v@;
        let ghost sc = self@.scope;
        let mut out: Vec<Prop> = Vec::new();
        for x in it: v.into_iter()
            invariant
                it.seq() == vs,
                sc == old(self)@.scope,
                props_view(out@) == cache_props(sc, props_view(vs.take(it.index() as int))).0,
                self@ == old(self)@.mark(cache_props(sc, props_view(vs.take(it.index() as int))).1),
        {
            let ghost pre = props_view(vs.take(it.index() as int));
            let ghost cur = props_view(vs.take(it.index() as int + 1));
            proof {
                assert(decreases_to!(v => x));
                assert(vs.take(it.index() as int + 1).drop_last() =~= vs.take(it.index() as int));
                assert(cur.drop_last() =~= pre);
            }
            let ghost before = out@;
            let y = self.visit_prop(x);
            out.push(y);
            proof {
                assert(out@.drop_last() =~= before);
                assert(props_view(out@).drop_last() =~= props_view(before));
            }
        }
        proof {
            assert(vs.take(vs.len() as int) =~= vs);
        }
        out
    }

    fn visit_nodes(&mut self, v: Vec<Node>) -> (r: Vec<Node>)
        ensures
            nodes_view(r@) == cache_nodes(old(self)@.scope, nodes_view(v@)).0,
            final(self)@ == old(self)@.mark(cache_nodes(old(self)@.scope, nodes_view(v@)).1),
        decreases v,
    {
        let ghost vs = v@;
        let ghost sc = self@.scope;
        let mut out: Vec<Node> = Vec::new();
        for x in it: v.into_iter()
            invariant
                it.seq() == vs,
                sc == old(self)@.scope,
                nodes_view(out@) == cache_nodes(sc, nodes_view(vs.take(it.index() as int))).0,
                self@ == old(self)@.mark(cache_nodes(sc, nodes_view(vs.take(it.index() as int))).1),
        {
            let ghost pre = nodes_view(vs.take(it.index() as int));
            let ghost cur = nodes_view(vs.take(it.index() as int + 1));
            proof {
                assert(decreases_to!(v => x));
                assert(vs.take(it.index() as int + 1).drop_last() =~= vs.take(it.index() as int));
                assert(cur.drop_last() =~= pre);
            }
            let ghost before = out@;
            let y = self.visit_node(x);
            out.push(y);
            proof {
                assert(out@.drop_last() =~= before);
                assert(nodes_view(out@).drop_last() =~= nodes_view(before));
            }
        }
        proof {
            assert(vs.take(vs.len() as int) =~= vs);
        }
        out
    }

    fn visit_declarators(&mut self, v: Vec<Declarator>) -> (r: Vec<Declarator>)
        ensures
            declarators_view(r@) == cache_declarators(old(self)@.scope, declarators_view(v@)).0,
            final(self)@ == old(self)@.mark(cache_declarators(old(self)@.scope, declarators_view(v@)).1),
        decreases v,
    {
        let ghost vs = v@;
        let ghost sc = self@.scope;
        let mut out: Vec<Declarator> = Vec::new();
        for x in it: v.into_iter()
            invariant
                it.seq() == vs,
                sc == old(self)@.scope,
                declarators_view(out@) == cache_declarators(sc, declarators_view(vs.take(it.index() as int))).0,
                self@ == old(self)@.mark(cache_declarators(sc, declarators_view(vs.take(it.index() as int))).1),
        {
            let ghost pre = declarators_view(vs.take(it.index() as int));
            let ghost cur = declarators_view(vs.take(it.index() as int + 1));
            proof {
                assert(decreases_to!(v => x));
                assert(vs.take(it.index() as int + 1).drop_last() =~= vs.take(it.index() as int));
                assert(cur.drop_last() =~= pre);
            }
            let ghost before = out@;
            let y = self.visit_declarator(x);
            out.push(y);
            proof {
                assert(out@.drop_last() =~= before);
                assert(declarators_view(out@).drop_last() =~= declarators_view(before));
            }
        }
        proof {
            assert(vs.take(vs.len() as int) =~= vs);
        }
        out
    }

    fn visit_block(&mut self, v: Vec<Stmt>) -> (r: Vec<Stmt>)
        ensures
            stmts_view(r@) == cache_block(old(self)@.scope, stmts_view(v@)).0,
            final(self)@ == old(self)@.mark(cache_block(old(self)@.scope, stmts_view(v@)).1),
        decreases v,
    {
        let ghost vs = v@;
        let ghost sc = self@.scope;
        let mut out: Vec<Stmt> = Vec::new();
        for x in it: v.into_iter()
            invariant
                it.seq() == vs,
                sc == old(self)@.scope,
                stmts_view(out@) == cache_block(sc, stmts_view(vs.take(it.index() as int))).0,
                self@ == old(self)@.mark(cache_block(sc, stmts_view(vs.take(it.index() as int))).1),
        {
            let ghost pre = stmts_view(vs.take(it.index() as int));
            let ghost cur = stmts_view(vs.take(it.index() as int + 1));
            proof {
                assert(decreases_to!(v => x));
                assert(vs.take(it.index() as int + 1).drop_last() =~= vs.take(it.index() as int));
                assert(cur.drop_last() =~= pre);
            }
            let ghost before = out@;
            let y = self.visit_stmt(x);
            out.push(y);
            proof {
                assert(out@.drop_last() =~= before);
                assert(stmts_view(out@).drop_last() =~= stmts_view(before));
            }
        }
        proof {
            assert(vs.take(vs.len() as int) =~= vs);
        }
        out
    }

    fn visit_elems(&mut self, v: Vec<Expr>) -> (r: Vec<Expr>)
        ensures
            exprs_view(r@) == cache_elems(old(self)@.scope, exprs_view(v@)).0,
            final(self)@ == old(self)@.mark(cache_elems(old(self)@.scope, exprs_view(v@)).1),
        decreases v,
    {
        let ghost vs = v@;
        let ghost sc = self@.scope;
        let mut out: Vec<Expr> = Vec::new();
        let mut i: usize = 0;
        let n = v.len();
        for x in it: v.into_iter()
            invariant
                it.seq() == vs,
                vs.len() == n,
                i == it.index(),
                sc == old(self)@.scope,
                exprs_view(out@) == cache_elems(sc, exprs_view(vs.take(i as int))).0,
                self@ == old(self)@.mark(cache_elems(sc, exprs_view(vs.take(i as int))).1),
        {
            let ghost pre = exprs_view(vs.take(i as int));
            let ghost cur = exprs_view(vs.take(i as int + 1));
            proof {
                assert(decreases_to!(v => x));
                assert(vs.take(i as int + 1).drop_last() =~= vs.take(i as int));
                assert(cur.drop_last() =~= pre);
                lemma_exprs_view_len(vs.take(i as int + 1));
                assert(i < vs.len());
            }
            let ghost before = out@;
            let ghost sc0 = self@;
            let segment = decimal_string(i);
            self.enter(segment);
            let y = self.visit_expr(x);
            self.leave();
            out.push(y);
            proof {
                assert(out@.drop_last() =~= before);
                assert(exprs_view(out@).drop_last() =~= exprs_view(before));
                assert(self@ == sc0.mark(cache_expr(sc.within(decimal(i as nat)), x@).1));
            }
            i = i + 1;
        }
        proof {
            assert(vs.take(vs.len() as int) =~= vs);
        }
        out
    }

    fn visit_prop(&mut self, p: Prop) -> (r: Prop)
        ensures
            prop_view(r) == cache_prop(old(self)@.scope, prop_view(p)).0,
            final(self)@ == old(self)@.mark(cache_prop(old(self)@.scope, prop_view(p)).1),
        decreases p,
    {
        match p {
            Prop::KeyValue { key, value, origin } => {
                let segment = show_prop_name(&key);
                self.enter(segment);
                let k = match key {
                    PropKey::Computed { expr, placeholder, origin } => PropKey::Computed {
                        expr: Box::new(self.visit_expr(*expr)),
                        placeholder,
                        origin,
                    },
                    key => key,
                };
                let v = self.visit_expr(value);
                self.leave();
                Prop::KeyValue { key: k, value: v, origin }
            },
            Prop::Other { parts, origin } => Prop::Other { parts: self.visit_nodes(parts), origin },
            p => p,
        }
    }

    fn visit_node(&mut self, n: Node) -> (r: Node)
        ensures
            node_view(r) == cache_node(old(self)@.scope, node_view(n)).0,
            final(self)@ == old(self)@.mark(cache_node(old(self)@.scope, node_view(n)).1),
        decreases n,
    {
        match n {
            Node::Expr(e) => Node::Expr(self.visit_expr(e)),
            Node::Stmts(s) => Node::Stmts(self.visit_block(s)),
            Node::Var(d) => Node::Var(self.visit_var_decl(d)),
        }
    }

    fn declarator_name(b: &Binding) -> (r: String)
        ensures
            r@ == declarator_segment(binding_view(*b)),
    {
        match b {
            Binding::Ident { sym, .. } => sym.clone(),
            Binding::Pattern { .. } => {
                proof {
                    reveal_strlit("[missing-declarator]");
                }
                String::from_str("[missing-declarator]")
            },
        }
    }

    fn visit_declarator(&mut self, d: Declarator) -> (r: Declarator)
        ensures
            declarator_view(r) == cache_declarator(old(self)@.scope, declarator_view(d)).0,
            final(self)@ == old(self)@.mark(cache_declarator(old(self)@.scope, declarator_view(d)).1),
        decreases d,
    {
        let segment = Self::declarator_name(&d.name);
        self.enter(segment);
        let name = match d.name {
            Binding::Pattern { parts, origin } => Binding::Pattern { parts: self.visit_nodes(parts), origin },
            name => name,
        };
        let init = match d.init {
            Some(e) => Some(self.visit_expr(e)),
            None => None,
        };
        self.leave();
        Declarator { name, init, origin: d.origin }
    }

    fn visit_var_decl(&mut self, d: VarDecl) -> (r: VarDecl)
        ensures
            var_decl_view(r) == cache_var_decl(old(self)@.scope, var_decl_view(d)).0,
            final(self)@ == old(self)@.mark(cache_var_decl(old(self)@.scope, var_decl_view(d)).1),
        decreases d,
    {
        VarDecl { decls: self.visit_declarators(d.decls), origin: d.origin }
    }

    fn visit_stmt(&mut self, s: Stmt) -> (r: Stmt)
        ensures
            stmt_view(r) == cache_stmt(old(self)@.scope, stmt_view(s)).0,
            final(self)@ == old(self)@.mark(cache_stmt(old(self)@.scope, stmt_view(s)).1),
        decreases s,
    {
        match s {
            Stmt::ExportDefault { expr, origin } => Stmt::ExportDefault { expr: self.visit_expr(expr), origin },
            Stmt::Var { decl, export } => Stmt::Var { decl: self.visit_var_decl(decl), export },
            Stmt::Expr { expr, origin } => Stmt::Expr { expr: self.visit_expr(expr), origin },
            Stmt::Other { parts, origin } => Stmt::Other { parts: self.visit_nodes(parts), origin },
            s => s,
        }
    }

    /// The module's own statements, with imports recorded as they come.
    fn visit_module_items(&mut self, items: Vec<Stmt>) -> (r: Vec<Stmt>)
        requires
            old(self)@.scope.path == Seq::<Seq<char>>::empty(),
        ensures
            ({
                let c = cache_items(old(self)@.scope.bindings, old(self)@.scope.file, stmts_view(items@));
                &&& stmts_view(r@) == c.0
                &&& final(self)@ == (RefreshView {
                    scope: Scope { bindings: c.1, ..old(self)@.scope },
                    used: old(self)@.used || c.2,
                })
            }),
    {
        let ghost vs = items@;
        let ghost st = self@;
        let mut out: Vec<Stmt> = Vec::new();
        for x in it: items.into_iter()
            invariant
                it.seq() == vs,
                st == old(self)@,
                st.scope.path == Seq::<Seq<char>>::empty(),
                ({
                    let c = cache_items(st.scope.bindings, st.scope.file, stmts_view(vs.take(it.index() as int)));
                    &&& stmts_view(out@) == c.0
                    &&& self@ == (RefreshView {
                        scope: Scope { bindings: c.1, ..st.scope },
                        used: st.used || c.2,
                    })
                }),
        {
            let ghost pre = stmts_view(vs.take(it.index() as int));
            let ghost cur = stmts_view(vs.take(it.index() as int + 1));
            proof {
                assert(vs.take(it.index() as int + 1).drop_last() =~= vs.take(it.index() as int));
                assert(cur.drop_last() =~= pre);
            }
            let ghost before = out@;
            let ghost c = cache_items(st.scope.bindings, st.scope.file, pre);
            let ghost c2 = cache_items(st.scope.bindings, st.scope.file, cur);
            let ghost gx = x;
            assert(cur.last() == stmt_view(gx));
            match x {
                Stmt::Import(i) => {
                    self.atom_import_map.visit_import_decl(&i);
                    out.push(Stmt::Import(i));
                    proof {
                        assert(gx == Stmt::Import(i));
                        assert(cur.last() == StmtView::Import(import_view(i)));
                        assert(c2.1 == register(c.1, import_view(i)));
                    }
                },
                x => {
                    let ghost sc = Scope { bindings: c.1, file: st.scope.file, path: seq![] };
                    assert(self@.scope == sc);
                    let y = self.visit_stmt(x);
                    out.push(y);
                    proof {
                        assert(cur.last() == stmt_view(x));
                        assert(!(stmt_view(x) is Import));
                        assert(c2.0 == c.0.push(cache_stmt(sc, stmt_view(x)).0));
                    }
                },
            }
            proof {
                assert(out@.drop_last() =~= before);
                assert(stmts_view(out@).drop_last() =~= stmts_view(before));
            }
        }
        proof {
            assert(vs.take(vs.len() as int) =~= vs);
        }
        out
    }
}

/// Whether a statement is a `"use client"` or `"use strict"` pragma.
pub open spec fn is_pragma(s: StmtView) -> bool {
    match s {
        StmtView::Expr { expr: ExprView::Str { value, .. }, .. } => value == "use client"@ || value == "use strict"@,
        _ => false,
    }
}

/// The number of pragmas that open the list.
pub open spec fn leading_pragmas(s: Seq<StmtView>) -> nat
    decreases s.len(),
{
    if s.len() > 0 && is_pragma(s[0]) {
        1 + leading_pragmas(s.drop_first())
    } else {
        0
    }
}

pub proof fn lemma_leading_pragmas(s: Seq<StmtView>)
    ensures
        leading_pragmas(s) <= s.len(),
        forall|j: int| 0 <= j < leading_pragmas(s) ==> is_pragma(#[trigger] s[j]),
        leading_pragmas(s) < s.len() ==> !is_pragma(s[leading_pragmas(s) as int]),
    decreases s.len(),
{
    if s.len() > 0 && is_pragma(s[0]) {
        lemma_leading_pragmas(s.drop_first());
        assert forall|j: int| 0 <= j < leading_pragmas(s) implies is_pragma(#[trigger] s[j]) by {
            if j > 0 {
                assert(s[j] == s.drop_first()[j - 1]);
            }
        }
    }
}

/// The statement list with the cache setup placed after its leading pragmas.
pub open spec fn with_cache_setup(s: Seq<StmtView>) -> Seq<StmtView> {
    s.insert(leading_pragmas(s) as int, StmtView::CacheSetup)
}

/// What the cache pass makes of a program, given the configured names and the file.
pub open spec fn refresh_program(names: Set<Seq<char>>, file: Option<Seq<char>>, p: ProgramView) -> ProgramView {
    let c = cache_items(initial_bindings(names), file, p.body);
    ProgramView { body: if c.2 { with_cache_setup(c.0) } else { c.0 }, origin: p.origin }
}

fn is_pragma_stmt(s: &Stmt) -> (r: bool)
    ensures
        r == is_pragma(stmt_view(*s)),
{
    match s {
        Stmt::Expr { expr, .. } => match expr {
            Expr::Str { value, .. } => text_eq(value, "use client") || text_eq(value, "use strict"),
            _ => false,
        },
        _ => false,
    }
}

/// The position after the pragmas that open `items`.
pub fn pragma_end(items: &Vec<Stmt>) -> (r: usize)
    ensures
        r == leading_pragmas(stmts_view(items@)),
{
    let ghost s = stmts_view(items@);
    proof {
        lemma_stmts_view(items@);
    }
    let mut i: usize = 0;
    assert(s.skip(0) =~= s);
    while i < items.len() && is_pragma_stmt(&items[i])
        invariant
            i <= items@.len(),
            s.len() == items@.len(),
            forall|j: int| 0 <= j < items@.len() ==> s[j] == stmt_view(#[trigger] items@[j]),
            leading_pragmas(s) == i + leading_pragmas(s.skip(i as int)),
        decreases items.len() - i,
    {
        proof {
            assert(s.skip(i as int)[0] == s[i as int]);
            assert(s.skip(i as int).drop_first() =~= s.skip(i as int + 1));
        }
        i = i + 1;
    }
    proof {
        if i < items.len() {
            assert(s.skip(i as int)[0] == s[i as int]);
        }
    }
    i
}

/// The cache pass over a whole program.
pub fn react_refresh_transform(program: Program, config: Config, file_name: FileName) -> (r: Program)
    ensures
        r@ == refresh_program(config.names(), file_name@, program@),
{
    let mut visitor = react_refresh(config, file_name);
    let mut body = visitor.visit_module_items(program.body);
    if visitor.used_atom {
        let k = pragma_end(&body);
        proof {
            lemma_stmts_view(body@);
            lemma_leading_pragmas(stmts_view(body@));
        }
        let ghost before = body@;
        body.insert(k, Stmt::CacheSetup);
        proof {
            lemma_stmts_view(body@);
            assert(stmts_view(body@) =~= stmts_view(before).insert(k as int, StmtView::CacheSetup));
        }
    }
    Program { body, origin: program.origin }
}

/// A cache pass for one file.
pub fn react_refresh(config: Config, file_name: FileName) -> (r: ReactRefreshTransformVisitor)
    ensures
        r@ == (RefreshView {
            scope: Scope { bindings: initial_bindings(config.names()), file: file_name@, path: seq![] },
            used: false,
        }),
{
    ReactRefreshTransformVisitor::new(config, file_name)
}

} // verus!
