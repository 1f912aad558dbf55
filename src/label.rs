//! The debug-label pass: after each module-level declaration whose
//! initializer makes an atom, `name.debugLabel = "name";` is inserted.
use vstd::prelude::*;
use crate::ast::{declarator_view, declarators_view, exprs_view, expr_view, import_view,
    lemma_stmts_view, member_prop_view, node_view, nodes_view, prop_view, props_view, stmt_view,
    stmts_view, var_decl_view, Binding, BindingView, Declarator, DeclaratorView, Expr, ExprView,
    FileName, MemberProp, MemberPropView, Node, NodeView, Program, ProgramView, Prop, PropKey,
    PropKeyView, PropView, Stmt, StmtView, VarDecl, VarDeclView};
use crate::names::{classify, initial_bindings, register, AtomImportMap, Bindings, Config};
use crate::text::{file_stem, stem_of};

verus! {

/// A binding that a label names: its text and hygiene context.
pub type Target = Option<(Seq<char>, u32)>;

pub open spec fn target_view(t: Option<(String, u32)>) -> Target {
    match t {
        Some((n, c)) => Some((n@, c)),
        None => None,
    }
}

/// An expression after the label pass, and the pending label after it.
/// `cur` is the declarator whose initializer holds the expression; a call
/// of a factory under it leaves that declarator pending.
pub open spec fn label_expr(b: Bindings, cur: Target, pend: Target, e: ExprView) -> (ExprView, Target)
    decreases e,
{
    match e {
        ExprView::Call { callee, args, origin } => {
            let c = label_expr(b, cur, pend, *callee);
            let a = label_exprs(b, cur, c.1, args);
            let p = if cur is Some && classify(b, *callee) { cur } else { a.1 };
            (ExprView::Call { callee: Box::new(c.0), args: a.0, origin }, p)
        },
        ExprView::Member { obj, prop, origin } => {
            let o = label_expr(b, cur, pend, *obj);
            let p = label_member_prop(b, cur, o.1, prop);
            (ExprView::Member { obj: Box::new(o.0), prop: p.0, origin }, p.1)
        },
        ExprView::Array { elems, origin } => {
            let a = label_exprs(b, cur, pend, elems);
            (ExprView::Array { elems: a.0, origin }, a.1)
        },
        ExprView::Object { props, origin } => {
            let p = label_props(b, cur, pend, props);
            (ExprView::Object { props: p.0, origin }, p.1)
        },
        ExprView::Other { parts, origin } => {
            let p = label_nodes(b, cur, pend, parts);
            (ExprView::Other { parts: p.0, origin }, p.1)
        },
        _ => (e, pend),
    }
}

pub open spec fn label_member_prop(b: Bindings, cur: Target, pend: Target, p: MemberPropView) -> (MemberPropView, Target)
    decreases p,
{
    match p {
        MemberPropView::Other { expr } => {
            let e = label_expr(b, cur, pend, *expr);
            (MemberPropView::Other { expr: Box::new(e.0) }, e.1)
        },
        _ => (p, pend),
    }
}

pub open spec fn label_exprs(b: Bindings, cur: Target, pend: Target, s: Seq<ExprView>) -> (Seq<ExprView>, Target)
    decreases s,
{
    if s.len() == 0 {
        (s, pend)
    } else {
        let a = label_exprs(b, cur, pend, s.drop_last());
        let e = label_expr(b, cur, a.1, s.last());
        (a.0.push(e.0), e.1)
    }
}

pub open spec fn label_prop(b: Bindings, cur: Target, pend: Target, p: PropView) -> (PropView, Target)
    decreases p,
{
    match p {
        PropView::KeyValue { key, value, origin } => {
            let k = match key {
                PropKeyView::Computed { expr, placeholder, origin: ko } => {
                    let e = label_expr(b, cur, pend, *expr);
                    (PropKeyView::Computed { expr: Box::new(e.0), placeholder, origin: ko }, e.1)
                },
                _ => (key, pend),
            };
            let v = label_expr(b, cur, k.1, value);
            (PropView::KeyValue { key: k.0, value: v.0, origin }, v.1)
        },
        PropView::Other { parts, origin } => {
            let n = label_nodes(b, cur, pend, parts);
            (PropView::Other { parts: n.0, origin }, n.1)
        },
        _ => (p, pend),
    }
}

pub open spec fn label_props(b: Bindings, cur: Target, pend: Target, s: Seq<PropView>) -> (Seq<PropView>, Target)
    decreases s,
{
    if s.len() == 0 {
        (s, pend)
    } else {
        let a = label_props(b, cur, pend, s.drop_last());
        let p = label_prop(b, cur, a.1, s.last());
        (a.0.push(p.0), p.1)
    }
}

pub open spec fn label_node(b: Bindings, cur: Target, pend: Target, n: NodeView) -> (NodeView, Target)
    decreases n,
{
    match n {
        NodeView::Expr(e) => {
            let r = label_expr(b, cur, pend, e);
            (NodeView::Expr(r.0), r.1)
        },
        NodeView::Stmts(s) => (NodeView::Stmts(label_block(b, s)), pend),
        NodeView::Var(d) => {
            let r = label_var_decl(b, pend, d);
            (NodeView::Var(r.0), r.1)
        },
    }
}

pub open spec fn label_nodes(b: Bindings, cur: Target, pend: Target, s: Seq<NodeView>) -> (Seq<NodeView>, Target)
    decreases s,
{
    if s.len() == 0 {
        (s, pend)
    } else {
        let a = label_nodes(b, cur, pend, s.drop_last());
        let n = label_node(b, cur, a.1, s.last());
        (a.0.push(n.0), n.1)
    }
}

/// The binding that a declarator names, when it names a single one.
pub open spec fn declared_target(n: BindingView) -> Target {
    match n {
        BindingView::Ident { sym, ctxt, .. } => Some((sym, ctxt)),
        _ => None,
    }
}

pub open spec fn label_declarator(b: Bindings, pend: Target, d: DeclaratorView) -> (DeclaratorView, Target)
    decreases d,
{
    let cur = declared_target(d.name);
    let n = match d.name {
        BindingView::Pattern { parts, origin } => {
            let r = label_nodes(b, cur, pend, parts);
            (BindingView::Pattern { parts: r.0, origin }, r.1)
        },
        _ => (d.name, pend),
    };
    let i = match d.init {
        Some(e) => {
            let r = label_expr(b, cur, n.1, e);
            (Some(r.0), r.1)
        },
        None => (None, n.1),
    };
    (DeclaratorView { name: n.0, init: i.0, origin: d.origin }, i.1)
}

pub open spec fn label_declarators(b: Bindings, pend: Target, s: Seq<DeclaratorView>) -> (Seq<DeclaratorView>, Target)
    decreases s,
{
    if s.len() == 0 {
        (s, pend)
    } else {
        let a = label_declarators(b, pend, s.drop_last());
        let d = label_declarator(b, a.1, s.last());
        (a.0.push(d.0), d.1)
    }
}

pub open spec fn label_var_decl(b: Bindings, pend: Target, d: VarDeclView) -> (VarDeclView, Target)
    decreases d,
{
    let r = label_declarators(b, pend, d.decls);
    (VarDeclView { decls: r.0, origin: d.origin }, r.1)
}

/// A statement after the label pass, and the label it leaves pending.
pub open spec fn label_stmt(b: Bindings, s: StmtView) -> (StmtView, Target)
    decreases s,
{
    match s {
        StmtView::ExportDefault { expr, origin } => {
            let r = label_expr(b, None, None, expr);
            (StmtView::ExportDefault { expr: r.0, origin }, r.1)
        },
        StmtView::Var { decl, export } => {
            let r = label_var_decl(b, None, decl);
            (StmtView::Var { decl: r.0, export }, r.1)
        },
        StmtView::Expr { expr, origin } => {
            let r = label_expr(b, None, None, expr);
            (StmtView::Expr { expr: r.0, origin }, r.1)
        },
        StmtView::Other { parts, origin } => {
            let r = label_nodes(b, None, None, parts);
            (StmtView::Other { parts: r.0, origin }, r.1)
        },
        _ => (s, None),
    }
}

/// The label statement for a pending target, if any.
pub open spec fn label_for(p: Target) -> Seq<StmtView> {
    match p {
        Some((name, ctxt)) => seq![StmtView::DebugLabel { name, ctxt }],
        None => seq![],
    }
}

/// A statement followed by the label it leaves pending.
pub open spec fn label_one(b: Bindings, s: StmtView) -> Seq<StmtView> {
    let r = label_stmt(b, s);
    seq![r.0] + label_for(r.1)
}

/// A nested statement list.
pub open spec fn label_block(b: Bindings, s: Seq<StmtView>) -> Seq<StmtView>
    decreases s,
{
    if s.len() == 0 {
        s
    } else {
        let r = label_stmt(b, s.last());
        label_block(b, s.drop_last()) + seq![r.0] + label_for(r.1)
    }
}

/// `export default <factory call>` becomes a named constant, its label, and an export of the name.
pub open spec fn default_export_items(name: Seq<char>, expr: ExprView) -> Seq<StmtView> {
    seq![
        StmtView::DefaultAtom { name, init: expr },
        StmtView::DebugLabel { name, ctxt: 0 },
        StmtView::ExportDefaultName { name },
    ]
}

/// The module's own statements, with imports recorded as they come: the
/// rewritten list and the bindings at its end. `name` is the name given
/// to an exported default atom.
pub open spec fn label_items(b: Bindings, name: Seq<char>, s: Seq<StmtView>) -> (Seq<StmtView>, Bindings)
    decreases s.len(),
{
    if s.len() == 0 {
        (s, b)
    } else {
        let a = label_items(b, name, s.drop_last());
        match s.last() {
            StmtView::Import(i) => (a.0.push(s.last()), register(a.1, i)),
            StmtView::ExportDefault { expr, .. } => if classify(a.1, expr) {
                (a.0 + default_export_items(name, expr), a.1)
            } else {
                (a.0 + label_one(a.1, s.last()), a.1)
            },
            t => (a.0 + label_one(a.1, t), a.1),
        }
    }
}

/// The name given to an exported default atom: the file's stem, else `default_atom`.
pub open spec fn default_atom_name(file: Option<Seq<char>>) -> Seq<char> {
    match file {
        Some(p) => match file_stem(p) {
            Some(s) => s,
            None => "default_atom"@,
        },
        None => "default_atom"@,
    }
}

/// What the label pass makes of a program, given the configured names and the file.
pub open spec fn label_program(names: Set<Seq<char>>, file: Option<Seq<char>>, p: ProgramView) -> ProgramView {
    ProgramView {
        body: label_items(initial_bindings(names), default_atom_name(file), p.body).0,
        origin: p.origin,
    }
}

} // verus!

verus! {

/// What the label pass knows of a file: its bindings and its path.
pub struct LabelView {
    pub bindings: Bindings,
    pub file: Option<Seq<char>>,
}

/// The label pass over one file.
pub struct DebugLabelTransformVisitor {
    atom_import_map: AtomImportMap,
    file_name: FileName,
}

impl View for DebugLabelTransformVisitor {
    type V = LabelView;

    closed spec fn view(&self) -> LabelView {
        LabelView { bindings: self.atom_import_map@, file: self.file_name@ }
    }
}

fn copy_target(t: &Option<(String, u32)>) -> (r: Option<(String, u32)>)
    ensures
        target_view(r) == target_view(*t),
{
    match t {
        Some((n, c)) => Some((n.clone(), *c)),
        None => None,
    }
}

/// `name.debugLabel = "name";` for a declared binding.
pub fn create_debug_label_assign_expr(atom_name_id: (String, u32)) -> (r: Stmt)
    ensures
        r@ == (StmtView::DebugLabel { name: atom_name_id.0@, ctxt: atom_name_id.1 }),
{
    Stmt::DebugLabel { name: atom_name_id.0, ctxt: atom_name_id.1 }
}

proof fn lemma_stmts_view_push(a: Seq<Stmt>, x: Stmt)
    ensures
        stmts_view(a.push(x)) == stmts_view(a).push(stmt_view(x)),
{
    assert(a.push(x).drop_last() =~= a);
}

impl DebugLabelTransformVisitor {
    /// A fresh pass over one file.
    pub fn new(config: Config, file_name: FileName) -> (r: Self)
        ensures
            r@ == (LabelView { bindings: initial_bindings(config.names()), file: file_name@ }),
    {
        DebugLabelTransformVisitor { atom_import_map: AtomImportMap::new(config.atom_names), file_name }
    }

    /// The name given to an exported default atom.
    fn default_name(&self) -> (r: String)
        ensures
            r@ == default_atom_name(self@.file),
    {
        proof {
            reveal_strlit("default_atom");
        }
        match &self.file_name {
            FileName::Real(p) => match stem_of(p.as_str()) {
                Some(s) => s,
                None => String::from_str("default_atom"),
            },
            FileName::Anon => String::from_str("default_atom"),
        }
    }

    fn visit_expr(&self, cur: &Option<(String, u32)>, pend: Option<(String, u32)>, e: Expr) -> (r: (Expr, Option<(String, u32)>))
        ensures
            (r.0@, target_view(r.1)) == label_expr(self@.bindings, target_view(*cur), target_view(pend), e@),
        decreases e,
    {
        match e {
            Expr::Call { callee, args, origin } => {
                let factory = cur.is_some() && self.atom_import_map.is_atom_import(&callee);
                let (c, p1) = self.visit_expr(cur, pend, *callee);
                let (a, p2) = self.visit_exprs(cur, p1, args);
                let p = if factory { copy_target(cur) } else { p2 };
                (Expr::Call { callee: Box::new(c), args: a, origin }, p)
            },
            Expr::Member { obj, prop, origin } => {
                let (o, p1) = self.visit_expr(cur, pend, *obj);
                let (q, p2) = self.visit_member_prop(cur, p1, prop);
                (Expr::Member { obj: Box::new(o), prop: q, origin }, p2)
            },
            Expr::Array { elems, origin } => {
                let (a, p) = self.visit_exprs(cur, pend, elems);
                (Expr::Array { elems: a, origin }, p)
            },
            Expr::Object { props, origin } => {
                let (a, p) = self.visit_props(cur, pend, props);
                (Expr::Object { props: a, origin }, p)
            },
            Expr::Other { parts, origin } => {
                let (a, p) = self.visit_nodes(cur, pend, parts);
                (Expr::Other { parts: a, origin }, p)
            },
            e => (e, pend),
        }
    }

    fn visit_member_prop(&self, cur: &Option<(String, u32)>, pend: Option<(String, u32)>, m: MemberProp) -> (r: (MemberProp, Option<(String, u32)>))
        ensures
            (member_prop_view(r.0), target_view(r.1)) == label_member_prop(self@.bindings, target_view(*cur), target_view(pend), member_prop_view(m)),
        decreases m,
    {
        match m {
            MemberProp::Other { expr } => {
                let (e, p) = self.visit_expr(cur, pend, *expr);
                (MemberProp::Other { expr: Box::new(e) }, p)
            },
            m => (m, pend),
        }
    }

    fn visit_prop(&self, cur: &Option<(String, u32)>, pend: Option<(String, u32)>, q: Prop) -> (r: (Prop, Option<(String, u32)>))
        ensures
            (prop_view(r.0), target_view(r.1)) == label_prop(self@.bindings, target_view(*cur), target_view(pend), prop_view(q)),
        decreases q,
    {
        match q {
            Prop::KeyValue { key, value, origin } => {
                let (k, p1) = match key {
                    PropKey::Computed { expr, placeholder, origin } => {
                        let (e, p) = self.visit_expr(cur, pend, *expr);
                        (PropKey::Computed { expr: Box::new(e), placeholder, origin }, p)
                    },
                    key => (key, pend),
                };
                let (v, p2) = self.visit_expr(cur, p1, value);
                (Prop::KeyValue { key: k, value: v, origin }, p2)
            },
            Prop::Other { parts, origin } => {
                let (a, p) = self.visit_nodes(cur, pend, parts);
                (Prop::Other { parts: a, origin }, p)
            },
            q => (q, pend),
        }
    }

    fn visit_node(&self, cur: &Option<(String, u32)>, pend: Option<(String, u32)>, n: Node) -> (r: (Node, Option<(String, u32)>))
        ensures
            (node_view(r.0), target_view(r.1)) == label_node(self@.bindings, target_view(*cur), target_view(pend), node_view(n)),
        decreases n,
    {
        match n {
            Node::Expr(e) => {
                let (e, p) = self.visit_expr(cur, pend, e);
                (Node::Expr(e), p)
            },
            Node::Stmts(s) => (Node::Stmts(self.visit_block(s)), pend),
            Node::Var(d) => {
                let (d, p) = self.visit_var_decl(pend, d);
                (Node::Var(d), p)
            },
        }
    }

    fn visit_declarator(&self, pend: Option<(String, u32)>, d: Declarator) -> (r: (Declarator, Option<(String, u32)>))
        ensures
            (declarator_view(r.0), target_view(r.1)) == label_declarator(self@.bindings, target_view(pend), declarator_view(d)),
        decreases d,
    {
        let cur = match &d.name {
            Binding::Ident { sym, ctxt, .. } => Some((sym.clone(), *ctxt)),
            Binding::Pattern { .. } => None,
        };
        let (name, p1) = match d.name {
            Binding::Pattern { parts, origin } => {
                let (a, p) = self.visit_nodes(&cur, pend, parts);
                (Binding::Pattern { parts: a, origin }, p)
            },
            name => (name, pend),
        };
        let (init, p2) = match d.init {
            Some(e) => {
                let (e, p) = self.visit_expr(&cur, p1, e);
                (Some(e), p)
            },
            None => (None, p1),
        };
        (Declarator { name, init, origin: d.origin }, p2)
    }

    fn visit_var_decl(&self, pend: Option<(String, u32)>, d: VarDecl) -> (r: (VarDecl, Option<(String, u32)>))
        ensures
            (var_decl_view(r.0), target_view(r.1)) == label_var_decl(self@.bindings, target_view(pend), var_decl_view(d)),
        decreases d,
    {
        let (decls, p) = self.visit_declarators(pend, d.decls);
        (VarDecl { decls, origin: d.origin }, p)
    }

    fn visit_stmt(&self, s: Stmt) -> (r: (Stmt, Option<(String, u32)>))
        ensures
            (stmt_view(r.0), target_view(r.1)) == label_stmt(self@.bindings, stmt_view(s)),
        decreases s,
    {
        let none: Option<(String, u32)> = None;
        match s {
            Stmt::ExportDefault { expr, origin } => {
                let (e, p) = self.visit_expr(&none, None, expr);
                (Stmt::ExportDefault { expr: e, origin }, p)
            },
            Stmt::Var { decl, export } => {
                let (d, p) = self.visit_var_decl(None, decl);
                (Stmt::Var { decl: d, export }, p)
            },
            Stmt::Expr { expr, origin } => {
                let (e, p) = self.visit_expr(&none, None, expr);
                (Stmt::Expr { expr: e, origin }, p)
            },
            Stmt::Other { parts, origin } => {
                let (a, p) = self.visit_nodes(&none, None, parts);
                (Stmt::Other { parts: a, origin }, p)
            },
            s => (s, None),
        }
    }

    /// Appends `t` and the label for `p`.
    fn push_labelled(out: &mut Vec<Stmt>, t: Stmt, p: Option<(String, u32)>)
        ensures
            stmts_view(final(out)@) == stmts_view(old(out)@) + seq![stmt_view(t)] + label_for(target_view(p)),
    {
        let ghost before = out@;
        out.push(t);
        proof {
            lemma_stmts_view_push(before, t);
        }
        match p {
            Some(target) => {
                let ghost mid = out@;
                let l = create_debug_label_assign_expr(target);
                out.push(l);
                proof {
                    lemma_stmts_view_push(mid, l);
                }
            },
            None => {},
        }
        proof {
            assert(stmts_view(out@) =~= stmts_view(before) + seq![stmt_view(t)] + label_for(target_view(p)));
        }
    }

    fn visit_block(&self, v: Vec<Stmt>) -> (r: Vec<Stmt>)
        ensures
            stmts_view(r@) == label_block(self@.bindings, stmts_view(v@)),
        decreases v,
    {
        let ghost vs = v@;
        let mut out: Vec<Stmt> = Vec::new();
        for x in it: v.into_iter()
            invariant
                it.seq() == vs,
                stmts_view(out@) == label_block(self@.bindings, stmts_view(vs.take(it.index() as int))),
        {
            let ghost pre = stmts_view(vs.take(it.index() as int));
            let ghost cur_s = stmts_view(vs.take(it.index() as int + 1));
            proof {
                assert(decreases_to!(v => x));
                assert(vs.take(it.index() as int + 1).drop_last() =~= vs.take(it.index() as int));
                assert(cur_s.drop_last() =~= pre);
            }
            let (t, p) = self.visit_stmt(x);
            Self::push_labelled(&mut out, t, p);
        }
        proof {
            assert(vs.take(vs.len() as int) =~= vs);
        }
        out
    }

    fn visit_exprs(&self, cur: &Option<(String, u32)>, pend: Option<(String, u32)>, v: Vec<Expr>) -> (r: (Vec<Expr>, Option<(String, u32)>))
        ensures
            (exprs_view(r.0@), target_view(r.1)) == label_exprs(self@.bindings, target_view(*cur), target_view(pend), exprs_view(v@)),
        decreases v,
    {
        let ghost vs = v@;
        let ghost p0 = target_view(pend);
        let mut out: Vec<Expr> = Vec::new();
        let mut p = pend;
        for x in it: v.into_iter()
            invariant
                it.seq() == vs,
                p0 == target_view(pend),
                (exprs_view(out@), target_view(p)) == label_exprs(self@.bindings, target_view(*cur), p0, exprs_view(vs.take(it.index() as int))),
        {
            let ghost pre = exprs_view(vs.take(it.index() as int));
            let ghost cur_s = exprs_view(vs.take(it.index() as int + 1));
            proof {
                assert(decreases_to!(v => x));
                assert(vs.take(it.index() as int + 1).drop_last() =~= vs.take(it.index() as int));
                assert(cur_s.drop_last() =~= pre);
            }
            let ghost before = out@;
            let (y, q) = self.visit_expr(cur, p, x);
            p = q;
            out.push(y);
            proof {
                assert(out@.drop_last() =~= before);
                assert(exprs_view(out@).drop_last() =~= exprs_view(before));
            }
        }
        proof {
            assert(vs.take(vs.len() as int) =~= vs);
        }
        (out, p)
    }

    fn visit_props(&self, cur: &Option<(String, u32)>, pend: Option<(String, u32)>, v: Vec<Prop>) -> (r: (Vec<Prop>, Option<(String, u32)>))
        ensures
            (props_view(r.0@), target_view(r.1)) == label_props(self@.bindings, target_view(*cur), target_view(pend), props_view(v@)),
        decreases v,
    {
        let ghost vs = v@;
        let ghost p0 = target_view(pend);
        let mut out: Vec<Prop> = Vec::new();
        let mut p = pend;
        for x in it: v.into_iter()
            invariant
                it.seq() == vs,
                p0 == target_view(pend),
                (props_view(out@), target_view(p)) == label_props(self@.bindings, target_view(*cur), p0, props_view(vs.take(it.index() as int))),
        {
            let ghost pre = props_view(vs.take(it.index() as int));
            let ghost cur_s = props_view(vs.take(it.index() as int + 1));
            proof {
                assert(decreases_to!(v => x));
                assert(vs.take(it.index() as int + 1).drop_last() =~= vs.take(it.index() as int));
                assert(cur_s.drop_last() =~= pre);
            }
            let ghost before = out@;
            let (y, q) = self.visit_prop(cur, p, x);
            p = q;
            out.push(y);
            proof {
                assert(out@.drop_last() =~= before);
                assert(props_view(out@).drop_last() =~= props_view(before));
            }
        }
        proof {
            assert(vs.take(vs.len() as int) =~= vs);
        }
        (out, p)
    }

    fn visit_nodes(&self, cur: &Option<(String, u32)>, pend: Option<(String, u32)>, v: Vec<Node>) -> (r: (Vec<Node>, Option<(String, u32)>))
        ensures
            (nodes_view(r.0@), target_view(r.1)) == label_nodes(self@.bindings, target_view(*cur), target_view(pend), nodes_view(v@)),
        decreases v,
    {
        let ghost vs = v@;
        let ghost p0 = target_view(pend);
        let mut out: Vec<Node> = Vec::new();
        let mut p = pend;
        for x in it: v.into_iter()
            invariant
                it.seq() == vs,
                p0 == target_view(pend),
                (nodes_view(out@), target_view(p)) == label_nodes(self@.bindings, target_view(*cur), p0, nodes_view(vs.take(it.index() as int))),
        {
            let ghost pre = nodes_view(vs.take(it.index() as int));
            let ghost cur_s = nodes_view(vs.take(it.index() as int + 1));
            proof {
                assert(decreases_to!(v => x));
                assert(vs.take(it.index() as int + 1).drop_last() =~= vs.take(it.index() as int));
                assert(cur_s.drop_last() =~= pre);
            }
            let ghost before = out@;
            let (y, q) = self.visit_node(cur, p, x);
            p = q;
            out.push(y);
            proof {
                assert(out@.drop_last() =~= before);
                assert(nodes_view(out@).drop_last() =~= nodes_view(before));
            }
        }
        proof {
            assert(vs.take(vs.len() as int) =~= vs);
        }
        (out, p)
    }

    fn visit_declarators(&self, pend: Option<(String, u32)>, v: Vec<Declarator>) -> (r: (Vec<Declarator>, Option<(String, u32)>))
        ensures
            (declarators_view(r.0@), target_view(r.1)) == label_declarators(self@.bindings, target_view(pend), declarators_view(v@)),
        decreases v,
    {
        let ghost vs = v@;
        let ghost p0 = target_view(pend);
        let mut out: Vec<Declarator> = Vec::new();
        let mut p = pend;
        for x in it: v.into_iter()
            invariant
                it.seq() == vs,
                p0 == target_view(pend),
                (declarators_view(out@), target_view(p)) == label_declarators(self@.bindings, p0, declarators_view(vs.take(it.index() as int))),
        {
            let ghost pre = declarators_view(vs.take(it.index() as int));
            let ghost cur_s = declarators_view(vs.take(it.index() as int + 1));
            proof {
                assert(decreases_to!(v => x));
                assert(vs.take(it.index() as int + 1).drop_last() =~= vs.take(it.index() as int));
                assert(cur_s.drop_last() =~= pre);
            }
            let ghost before = out@;
            let (y, q) = self.visit_declarator(p, x);
            p = q;
            out.push(y);
            proof {
                assert(out@.drop_last() =~= before);
                assert(declarators_view(out@).drop_last() =~= declarators_view(before));
            }
        }
        proof {
            assert(vs.take(vs.len() as int) =~= vs);
        }
        (out, p)
    }

    /// The module's own statements, with imports recorded as they come.
    fn visit_module_items(&mut self, items: Vec<Stmt>) -> (r: Vec<Stmt>)
        ensures
            ({
                let c = label_items(old(self)@.bindings, default_atom_name(old(self)@.file), stmts_view(items@));
                &&& stmts_view(r@) == c.0
                &&& final(self)@ == LabelView { bindings: c.1, ..old(self)@ }
            }),
    {
        let name = self.default_name();
        let ghost vs = items@;
        let ghost st = self@;
        let mut out: Vec<Stmt> = Vec::new();
        for x in it: items.into_iter()
            invariant
                it.seq() == vs,
                st == old(self)@,
                name@ == default_atom_name(st.file),
                ({
                    let c = label_items(st.bindings, name@, stmts_view(vs.take(it.index() as int)));
                    &&& stmts_view(out@) == c.0
                    &&& self@ == LabelView { bindings: c.1, ..st }
                }),
        {
            let ghost pre = stmts_view(vs.take(it.index() as int));
            let ghost cur = stmts_view(vs.take(it.index() as int + 1));
            proof {
                assert(vs.take(it.index() as int + 1).drop_last() =~= vs.take(it.index() as int));
                assert(cur.drop_last() =~= pre);
            }
            let ghost before = out@;
            let ghost c = label_items(st.bindings, name@, pre);
            let ghost gx = x;
            assert(cur.last() == stmt_view(gx));
            match x {
                Stmt::Import(i) => {
                    self.atom_import_map.visit_import_decl(&i);
                    out.push(Stmt::Import(i));
                    proof {
                        assert(gx == Stmt::Import(i));
                        assert(out@.drop_last() =~= before);
                        assert(stmts_view(out@).drop_last() =~= stmts_view(before));
                    }
                },
                Stmt::ExportDefault { expr, origin } => {
                    if self.atom_import_map.is_atom_import(&expr) {
                        let ghost e = expr@;
                        out.push(Stmt::DefaultAtom { name: name.clone(), init: expr });
                        proof {
                            lemma_stmts_view_push(before, Stmt::DefaultAtom { name: name, init: expr });
                        }
                        let ghost mid1 = out@;
                        let l = create_debug_label_assign_expr((name.clone(), 0));
                        out.push(l);
                        proof {
                            lemma_stmts_view_push(mid1, l);
                        }
                        let ghost mid2 = out@;
                        let x2 = Stmt::ExportDefaultName { name: name.clone() };
                        out.push(x2);
                        proof {
                            lemma_stmts_view_push(mid2, x2);
                            assert(stmts_view(out@) =~= c.0 + default_export_items(name@, e));
                        }
                    } else {
                        let (t, p) = self.visit_stmt(Stmt::ExportDefault { expr, origin });
                        Self::push_labelled(&mut out, t, p);
                    }
                },
                x => {
                    let (t, p) = self.visit_stmt(x);
                    Self::push_labelled(&mut out, t, p);
                    proof {
                        assert(!(stmt_view(x) is Import));
                        assert(!(stmt_view(x) is ExportDefault));
                    }
                },
            }
        }
        proof {
            assert(vs.take(vs.len() as int) =~= vs);
        }
        out
    }
}

/// The label pass over a whole program.
pub fn debug_label_transform(program: Program, config: Config, file_name: FileName) -> (r: Program)
    ensures
        r@ == label_program(config.names(), file_name@, program@),
{
    let mut visitor = debug_label(config, file_name);
    let body = visitor.visit_module_items(program.body);
    Program { body, origin: program.origin }
}

/// A label pass for one file.
pub fn debug_label(config: Config, file_name: FileName) -> (r: DebugLabelTransformVisitor)
    ensures
        r@ == (LabelView { bindings: initial_bindings(config.names()), file: file_name@ }),
{
    DebugLabelTransformVisitor::new(config, file_name)
}

} // verus!
