//! Properties of the two passes, proved over their specifications.
use vstd::prelude::*;
use crate::ast::{BindingView, DeclaratorView, ExprView, ImportSpecView, ImportView, MemberPropView,
    NodeView, ProgramView, PropKeyView, PropView, StmtView, VarDeclView};
use crate::label::{label_block, label_declarator, label_declarators, label_expr, label_exprs,
    label_items, label_member_prop, label_node, label_nodes, label_program, label_prop, label_props,
    label_stmt, label_var_decl, Target};
use crate::names::{classify, imported_name, initial_bindings, is_builtin_factory, is_factory, is_library_source, register,
    register_specs, Bindings};
use crate::refresh::{cache_block, cache_declarator, cache_declarators, cache_elems, cache_expr,
    cache_exprs, cache_items, cache_key, cache_member_prop, cache_node, cache_nodes, cache_prop,
    cache_props, cache_stmt, cache_var_decl, is_pragma, leading_pragmas, lemma_leading_pragmas,
    refresh_program, Scope};

verus! {

/// Bindings under which nothing names a factory.
pub open spec fn inert(b: Bindings) -> bool {
    &&& b.configured == Set::<Seq<char>>::empty()
    &&& b.imports == Set::<Seq<char>>::empty()
    &&& b.namespaces == Set::<Seq<char>>::empty()
}

/// Whether no statement of `s` imports from the reactive library.
pub open spec fn no_library_import(s: Seq<StmtView>) -> bool {
    forall|j: int| 0 <= j < s.len() ==> (#[trigger] s[j] matches StmtView::Import(i) ==> !is_library_source(i.src))
}

proof fn lemma_inert_classify(b: Bindings, e: ExprView)
    requires
        inert(b),
    ensures
        !classify(b, e),
    decreases e,
{
    if let ExprView::Call { callee, .. } = e {
        lemma_inert_classify(b, *callee);
    }
}

proof fn cache_id_expr(sc: Scope, e: ExprView)
    requires
        inert(sc.bindings),
    ensures
        cache_expr(sc, e) == (e, false),
    decreases e,
{
    match e {
        ExprView::Call { callee, args, .. } => {
            lemma_inert_classify(sc.bindings, *callee);
            cache_id_expr(sc, *callee);
            cache_id_exprs(sc, args);
        },
        ExprView::Member { obj, prop, .. } => {
            cache_id_expr(sc, *obj);
            cache_id_member_prop(sc, prop);
        },
        ExprView::Array { elems, .. } => cache_id_elems(sc, elems),
        ExprView::Object { props, .. } => cache_id_props(sc, props),
        ExprView::Other { parts, .. } => cache_id_nodes(sc, parts),
        _ => {},
    }
}

proof fn cache_id_member_prop(sc: Scope, p: MemberPropView)
    requires
        inert(sc.bindings),
    ensures
        cache_member_prop(sc, p) == (p, false),
    decreases p,
{
    if let MemberPropView::Other { expr } = p {
        cache_id_expr(sc, *expr);
    }
}

proof fn cache_id_prop(sc: Scope, p: PropView)
    requires
        inert(sc.bindings),
    ensures
        cache_prop(sc, p) == (p, false),
    decreases p,
{
    match p {
        PropView::KeyValue { key, value, .. } => {
            let inner = sc.within(crate::refresh::key_segment(key));
            if let PropKeyView::Computed { expr, .. } = key {
                cache_id_expr(inner, *expr);
            }
            cache_id_expr(inner, value);
        },
        PropView::Other { parts, .. } => cache_id_nodes(sc, parts),
        _ => {},
    }
}

proof fn cache_id_node(sc: Scope, n: NodeView)
    requires
        inert(sc.bindings),
    ensures
        cache_node(sc, n) == (n, false),
    decreases n,
{
    match n {
        NodeView::Expr(e) => cache_id_expr(sc, e),
        NodeView::Stmts(s) => cache_id_block(sc, s),
        NodeView::Var(d) => cache_id_var_decl(sc, d),
    }
}

proof fn cache_id_declarator(sc: Scope, d: DeclaratorView)
    requires
        inert(sc.bindings),
    ensures
        cache_declarator(sc, d) == (d, false),
    decreases d,
{
    let inner = sc.within(crate::refresh::declarator_segment(d.name));
    if let BindingView::Pattern { parts, .. } = d.name {
        cache_id_nodes(inner, parts);
    }
    if let Some(e) = d.init {
        cache_id_expr(inner, e);
    }
}

proof fn cache_id_var_decl(sc: Scope, d: VarDeclView)
    requires
        inert(sc.bindings),
    ensures
        cache_var_decl(sc, d) == (d, false),
    decreases d,
{
    cache_id_declarators(sc, d.decls);
}

proof fn cache_id_stmt(sc: Scope, s: StmtView)
    requires
        inert(sc.bindings),
    ensures
        cache_stmt(sc, s) == (s, false),
    decreases s,
{
    match s {
        StmtView::ExportDefault { expr, .. } => cache_id_expr(sc, expr),
        StmtView::Var { decl, .. } => cache_id_var_decl(sc, decl),
        StmtView::Expr { expr, .. } => cache_id_expr(sc, expr),
        StmtView::Other { parts, .. } => cache_id_nodes(sc, parts),
        _ => {},
    }
}

proof fn cache_id_elems(sc: Scope, s: Seq<ExprView>)
    requires
        inert(sc.bindings),
    ensures
        cache_elems(sc, s) == (s, false),
    decreases s,
{
    if s.len() > 0 {
        cache_id_elems(sc, s.drop_last());
        cache_id_expr(sc.within(crate::text::decimal((s.len() - 1) as nat)), s.last());
        assert(s.drop_last().push(s.last()) =~= s);
    }
}

proof fn cache_id_exprs(sc: Scope, s: Seq<ExprView>)
    requires
        inert(sc.bindings),
    ensures
        cache_exprs(sc, s) == (s, false),
    decreases s,
{
    if s.len() > 0 {
        cache_id_exprs(sc, s.drop_last());
        cache_id_expr(sc, s.last());
        assert(s.drop_last().push(s.last()) =~= s);
    }
}

proof fn cache_id_props(sc: Scope, s: Seq<PropView>)
    requires
        inert(sc.bindings),
    ensures
        cache_props(sc, s) == (s, false),
    decreases s,
{
    if s.len() > 0 {
        cache_id_props(sc, s.drop_last());
        cache_id_prop(sc, s.last());
        assert(s.drop_last().push(s.last()) =~= s);
    }
}

proof fn cache_id_nodes(sc: Scope, s: Seq<NodeView>)
    requires
        inert(sc.bindings),
    ensures
        cache_nodes(sc, s) == (s, false),
    decreases s,
{
    if s.len() > 0 {
        cache_id_nodes(sc, s.drop_last());
        cache_id_node(sc, s.last());
        assert(s.drop_last().push(s.last()) =~= s);
    }
}

proof fn cache_id_declarators(sc: Scope, s: Seq<DeclaratorView>)
    requires
        inert(sc.bindings),
    ensures
        cache_declarators(sc, s) == (s, false),
    decreases s,
{
    if s.len() > 0 {
        cache_id_declarators(sc, s.drop_last());
        cache_id_declarator(sc, s.last());
        assert(s.drop_last().push(s.last()) =~= s);
    }
}

proof fn cache_id_block(sc: Scope, s: Seq<StmtView>)
    requires
        inert(sc.bindings),
    ensures
        cache_block(sc, s) == (s, false),
    decreases s,
{
    if s.len() > 0 {
        cache_id_block(sc, s.drop_last());
        cache_id_stmt(sc, s.last());
        assert(s.drop_last().push(s.last()) =~= s);
    }
}

proof fn label_id_expr(b: Bindings, cur: Target, pend: Target, e: ExprView)
    requires
        inert(b),
    ensures
        label_expr(b, cur, pend, e) == (e, pend),
    decreases e,
{
    match e {
        ExprView::Call { callee, args, .. } => {
            lemma_inert_classify(b, *callee);
            label_id_expr(b, cur, pend, *callee);
            label_id_exprs(b, cur, pend, args);
        },
        ExprView::Member { obj, prop, .. } => {
            label_id_expr(b, cur, pend, *obj);
            label_id_member_prop(b, cur, pend, prop);
        },
        ExprView::Array { elems, .. } => label_id_exprs(b, cur, pend, elems),
        ExprView::Object { props, .. } => label_id_props(b, cur, pend, props),
        ExprView::Other { parts, .. } => label_id_nodes(b, cur, pend, parts),
        _ => {},
    }
}

proof fn label_id_member_prop(b: Bindings, cur: Target, pend: Target, p: MemberPropView)
    requires
        inert(b),
    ensures
        label_member_prop(b, cur, pend, p) == (p, pend),
    decreases p,
{
    if let MemberPropView::Other { expr } = p {
        label_id_expr(b, cur, pend, *expr);
    }
}

proof fn label_id_prop(b: Bindings, cur: Target, pend: Target, p: PropView)
    requires
        inert(b),
    ensures
        label_prop(b, cur, pend, p) == (p, pend),
    decreases p,
{
    match p {
        PropView::KeyValue { key, value, .. } => {
            if let PropKeyView::Computed { expr, .. } = key {
                label_id_expr(b, cur, pend, *expr);
            }
            label_id_expr(b, cur, pend, value);
        },
        PropView::Other { parts, .. } => label_id_nodes(b, cur, pend, parts),
        _ => {},
    }
}

proof fn label_id_node(b: Bindings, cur: Target, pend: Target, n: NodeView)
    requires
        inert(b),
    ensures
        label_node(b, cur, pend, n) == (n, pend),
    decreases n,
{
    match n {
        NodeView::Expr(e) => label_id_expr(b, cur, pend, e),
        NodeView::Stmts(s) => label_id_block(b, s),
        NodeView::Var(d) => label_id_var_decl(b, pend, d),
    }
}

proof fn label_id_declarator(b: Bindings, pend: Target, d: DeclaratorView)
    requires
        inert(b),
    ensures
        label_declarator(b, pend, d) == (d, pend),
    decreases d,
{
    let cur = crate::label::declared_target(d.name);
    if let BindingView::Pattern { parts, .. } = d.name {
        label_id_nodes(b, cur, pend, parts);
    }
    if let Some(e) = d.init {
        label_id_expr(b, cur, pend, e);
    }
}

proof fn label_id_var_decl(b: Bindings, pend: Target, d: VarDeclView)
    requires
        inert(b),
    ensures
        label_var_decl(b, pend, d) == (d, pend),
    decreases d,
{
    label_id_declarators(b, pend, d.decls);
}

proof fn label_id_stmt(b: Bindings, s: StmtView)
    requires
        inert(b),
    ensures
        label_stmt(b, s) == (s, None::<(Seq<char>, u32)>),
    decreases s,
{
    match s {
        StmtView::ExportDefault { expr, .. } => label_id_expr(b, None, None, expr),
        StmtView::Var { decl, .. } => label_id_var_decl(b, None, decl),
        StmtView::Expr { expr, .. } => label_id_expr(b, None, None, expr),
        StmtView::Other { parts, .. } => label_id_nodes(b, None, None, parts),
        _ => {},
    }
}

proof fn label_id_block(b: Bindings, s: Seq<StmtView>)
    requires
        inert(b),
    ensures
        label_block(b, s) == s,
    decreases s,
{
    if s.len() > 0 {
        label_id_block(b, s.drop_last());
        label_id_stmt(b, s.last());
        assert(s.drop_last() + seq![s.last()] + seq![] =~= s);
    }
}

proof fn label_id_exprs(b: Bindings, cur: Target, pend: Target, s: Seq<ExprView>)
    requires
        inert(b),
    ensures
        label_exprs(b, cur, pend, s) == (s, pend),
    decreases s,
{
    if s.len() > 0 {
        label_id_exprs(b, cur, pend, s.drop_last());
        label_id_expr(b, cur, pend, s.last());
        assert(s.drop_last().push(s.last()) =~= s);
    }
}

proof fn label_id_props(b: Bindings, cur: Target, pend: Target, s: Seq<PropView>)
    requires
        inert(b),
    ensures
        label_props(b, cur, pend, s) == (s, pend),
    decreases s,
{
    if s.len() > 0 {
        label_id_props(b, cur, pend, s.drop_last());
        label_id_prop(b, cur, pend, s.last());
        assert(s.drop_last().push(s.last()) =~= s);
    }
}

proof fn label_id_nodes(b: Bindings, cur: Target, pend: Target, s: Seq<NodeView>)
    requires
        inert(b),
    ensures
        label_nodes(b, cur, pend, s) == (s, pend),
    decreases s,
{
    if s.len() > 0 {
        label_id_nodes(b, cur, pend, s.drop_last());
        label_id_node(b, cur, pend, s.last());
        assert(s.drop_last().push(s.last()) =~= s);
    }
}

proof fn label_id_declarators(b: Bindings, pend: Target, s: Seq<DeclaratorView>)
    requires
        inert(b),
    ensures
        label_declarators(b, pend, s) == (s, pend),
    decreases s,
{
    if s.len() > 0 {
        label_id_declarators(b, pend, s.drop_last());
        label_id_declarator(b, pend, s.last());
        assert(s.drop_last().push(s.last()) =~= s);
    }
}


proof fn cache_id_items(b: Bindings, file: Option<Seq<char>>, s: Seq<StmtView>)
    requires
        inert(b),
        no_library_import(s),
    ensures
        cache_items(b, file, s) == (s, b, false),
    decreases s.len(),
{
    if s.len() > 0 {
        assert(no_library_import(s.drop_last())) by {
            assert forall|j: int| 0 <= j < s.len() - 1 implies s.drop_last()[j] == s[j] by {}
        }
        cache_id_items(b, file, s.drop_last());
        assert(s[s.len() - 1] == s.last());
        match s.last() {
            StmtView::Import(i) => {},
            t => cache_id_stmt(Scope { bindings: b, file, path: seq![] }, t),
        }
        assert(s.drop_last().push(s.last()) =~= s);
    }
}

proof fn label_id_items(b: Bindings, name: Seq<char>, s: Seq<StmtView>)
    requires
        inert(b),
        no_library_import(s),
    ensures
        label_items(b, name, s) == (s, b),
    decreases s.len(),
{
    if s.len() > 0 {
        assert(no_library_import(s.drop_last())) by {
            assert forall|j: int| 0 <= j < s.len() - 1 implies s.drop_last()[j] == s[j] by {}
        }
        label_id_items(b, name, s.drop_last());
        assert(s[s.len() - 1] == s.last());
        match s.last() {
            StmtView::Import(i) => {
                assert(s.drop_last().push(s.last()) =~= s);
            },
            t => {
                if let StmtView::ExportDefault { expr, .. } = t {
                    lemma_inert_classify(b, expr);
                }
                label_id_stmt(b, t);
                assert(s.drop_last() + (seq![t] + seq![]) =~= s);
            },
        }
    }
}

/// With no configured names and no import from the reactive library, both
/// passes give back the program unchanged: a built-in factory name that was
/// not imported from the library is not honoured.
pub proof fn lemma_identity_without_library(file: Option<Seq<char>>, p: ProgramView)
    requires
        no_library_import(p.body),
    ensures
        refresh_program(Set::empty(), file, p) == p,
        label_program(Set::empty(), file, p) == p,
{
    let b = initial_bindings(Set::empty());
    cache_id_items(b, file, p.body);
    label_id_items(b, crate::label::default_atom_name(file), p.body);
}

/// Whether `i` imports from the library the single factory (built-in or
/// among `names`) that it binds to `f`.
pub open spec fn imports_factory(i: ImportView, f: Seq<char>, names: Set<Seq<char>>) -> bool {
    &&& is_library_source(i.src)
    &&& i.specs.len() == 1
    &&& i.specs[0] matches ImportSpecView::Named { local, imported }
        && local == f && is_factory(initial_bindings(names), imported_name(local, imported))
}

/// Whether `s` declares the single binding `x` (in context `ctxt`) as a call of `f`.
pub open spec fn declares_by_call(s: StmtView, x: Seq<char>, ctxt: u32, f: Seq<char>) -> bool {
    &&& s matches StmtView::Var { decl, .. }
    &&& s->decl.decls.len() == 1
    &&& s->decl.decls[0].name matches BindingView::Ident { sym, ctxt: c, .. } && sym == x && c == ctxt
    &&& s->decl.decls[0].init matches Some(ExprView::Call { callee, .. })
    &&& *s->decl.decls[0].init.unwrap()->Call_callee matches ExprView::Ident { sym, .. } && sym == f
}

/// `const x = f(...)`, after an import of the factory `f` from the library
/// (under its own name or a rename), stays as it is and is followed at once
/// by `x.debugLabel = "x"`. The initializer may be any expression that holds
/// no statement list outside a function.
pub proof fn lemma_label_follows_declaration(
    names: Set<Seq<char>>,
    file: Option<Seq<char>>,
    p: ProgramView,
    i: ImportView,
    s: StmtView,
    x: Seq<char>,
    ctxt: u32,
    f: Seq<char>,
)
    requires
        imports_factory(i, f, names),
        declares_by_call(s, x, ctxt, f),
        no_block_expr(s->decl.decls[0].init.unwrap()),
        p.body == seq![StmtView::Import(i), s],
    ensures
        label_program(names, file, p).body.len() == 3,
        label_program(names, file, p).body[0] == StmtView::Import(i),
        label_program(names, file, p).body[1] == s,
        label_program(names, file, p).body[2] == (StmtView::DebugLabel { name: x, ctxt }),
{
    let b0 = initial_bindings(names);
    let b1 = register(b0, i);
    let name = crate::label::default_atom_name(file);
    assert(p.body.drop_last() =~= seq![StmtView::Import(i)]);
    assert(seq![StmtView::Import(i)].drop_last() =~= Seq::<StmtView>::empty());
    assert(i.specs.drop_last() =~= Seq::<ImportSpecView>::empty());
    assert(register_specs(b0, i.src, i.specs.drop_last()) == b0);
    assert(i.specs.last() == i.specs[0]);
    assert(register_specs(b0, i.src, i.specs) == crate::names::register_spec(b0, i.src, i.specs[0]));
    assert(b1.imports.contains(f));
    let callee = s->decl.decls[0].init.unwrap()->Call_callee;
    assert(classify(b1, *callee));
    let d = s->decl.decls[0];
    let ld = label_declarator(b1, None, d);
    assert(s->decl.decls.drop_last() =~= Seq::<DeclaratorView>::empty());
    let ds = s->decl.decls;
    assert(label_declarators(b1, None, ds.drop_last()) == (ds.drop_last(), None::<(Seq<char>, u32)>));
    assert(ds.last() == d);
    assert(ds.drop_last().push(ld.0) =~= seq![ld.0]);
    assert(label_declarators(b1, None, ds) == (seq![ld.0], ld.1));
    assert(ld.1 == Some((x, ctxt)));
    label_keeps_expr(b1, Some((x, ctxt)), None, d.init.unwrap());
    assert(ld.0 == d);
    assert(seq![d] =~= ds);
    assert(label_stmt(b1, s).1 == Some((x, ctxt)));
    let one = seq![StmtView::Import(i)];
    assert(label_items(b0, name, one.drop_last()) == (one.drop_last(), b0));
    assert(label_items(b0, name, one) == (one, b1));
    assert(p.body.last() == s);
    assert(label_items(b0, name, p.body).0 == one + crate::label::label_one(b1, s));
    let out = label_items(b0, name, p.body).0;
    assert(out =~= seq![StmtView::Import(i), label_stmt(b1, s).0, StmtView::DebugLabel { name: x, ctxt }]);
}

/// A rename in an import is transparent: for a built-in or configured
/// factory name `f`, `import { f as alias }` makes `alias` a factory just as
/// `import { f }` makes `f` one.
pub proof fn lemma_alias_transparent(b: Bindings, src: Seq<char>, f: Seq<char>, alias: Seq<char>, o: u64, c: u32, eo: u64)
    requires
        is_library_source(src),
        is_factory(b, f),
    ensures
        classify(
            register(b, ImportView { src, specs: seq![ImportSpecView::Named { local: alias, imported: Some(f) }], origin: o }),
            ExprView::Ident { sym: alias, ctxt: c, origin: eo },
        ),
        classify(
            register(b, ImportView { src, specs: seq![ImportSpecView::Named { local: f, imported: None }], origin: o }),
            ExprView::Ident { sym: f, ctxt: c, origin: eo },
        ),
{
    let s1 = seq![ImportSpecView::Named { local: alias, imported: Some(f) }];
    let s2 = seq![ImportSpecView::Named { local: f, imported: None }];
    assert(s1.drop_last() =~= Seq::<ImportSpecView>::empty());
    assert(s2.drop_last() =~= Seq::<ImportSpecView>::empty());
    assert(register_specs(b, src, s1.drop_last()) == b);
    assert(register_specs(b, src, s2.drop_last()) == b);
    assert(s1.last() == s1[0]);
    assert(s2.last() == s2[0]);
}

/// A namespace import from the library makes `src.f` a factory for each
/// built-in or configured `f`, as a named import of `f` makes `f` one. The namespace is
/// recorded by its source, so the object must be written as the source's text.
pub proof fn lemma_namespace_import(b: Bindings, src: Seq<char>, local: Seq<char>, f: Seq<char>, o: u64, c: u32, eo: u64, po: u64, mo: u64)
    requires
        is_library_source(src),
        is_factory(b, f),
    ensures
        classify(
            register(b, ImportView { src, specs: seq![ImportSpecView::Namespace { local }], origin: o }),
            ExprView::Member {
                obj: Box::new(ExprView::Ident { sym: src, ctxt: c, origin: eo }),
                prop: MemberPropView::Ident { sym: f, origin: po },
                origin: mo,
            },
        ),
        classify(
            register(b, ImportView { src, specs: seq![ImportSpecView::Named { local: f, imported: None }], origin: o }),
            ExprView::Ident { sym: f, ctxt: c, origin: eo },
        ),
{
    let s1 = seq![ImportSpecView::Namespace { local }];
    let s2 = seq![ImportSpecView::Named { local: f, imported: None }];
    assert(s1.drop_last() =~= Seq::<ImportSpecView>::empty());
    assert(s2.drop_last() =~= Seq::<ImportSpecView>::empty());
    assert(register_specs(b, src, s1.drop_last()) == b);
    assert(register_specs(b, src, s2.drop_last()) == b);
    assert(s1.last() == s1[0]);
    assert(s2.last() == s2[0]);
}

/// An import from another source binds nothing, whatever names it imports.
pub proof fn lemma_foreign_import(b: Bindings, i: ImportView)
    requires
        !is_library_source(i.src),
    ensures
        register(b, i) == b,
{
}

/// Only the outermost factory call is wrapped: its arguments, nested
/// factory calls included, are kept as they were.
pub proof fn lemma_outermost_call_wrapped(sc: Scope, e: ExprView)
    requires
        e matches ExprView::Call { callee, .. } && classify(sc.bindings, *callee),
    ensures
        cache_expr(sc, e) == (ExprView::CacheGet { key: cache_key(sc.file, sc.path), call: Box::new(e) }, true),
{
}

/// Nothing inside a function or arrow is wrapped or labelled, however deep
/// the function stands.
pub proof fn lemma_functions_untouched(sc: Scope, b: Bindings, cur: Target, pend: Target, e: ExprView)
    requires
        e is Func,
    ensures
        cache_expr(sc, e) == (e, false),
        label_expr(b, cur, pend, e) == (e, pend),
{
}

proof fn lemma_cache_expr_str(sc: Scope, e: ExprView)
    ensures
        (cache_expr(sc, e).0 is Str) == (e is Str),
        e is Str ==> cache_expr(sc, e).0 == e,
{
}

proof fn lemma_cache_stmt_pragma(sc: Scope, s: StmtView)
    ensures
        is_pragma(cache_stmt(sc, s).0) == is_pragma(s),
        is_pragma(s) ==> cache_stmt(sc, s).0 == s,
{
    if let StmtView::Expr { expr, .. } = s {
        lemma_cache_expr_str(sc, expr);
    }
}

proof fn lemma_cache_items_pragmas(b: Bindings, file: Option<Seq<char>>, s: Seq<StmtView>)
    ensures
        cache_items(b, file, s).0.len() == s.len(),
        forall|j: int| 0 <= j < s.len() ==> is_pragma(#[trigger] cache_items(b, file, s).0[j]) == is_pragma(s[j]),
        forall|j: int| 0 <= j < s.len() && is_pragma(s[j]) ==> #[trigger] cache_items(b, file, s).0[j] == s[j],
    decreases s.len(),
{
    if s.len() > 0 {
        let a = cache_items(b, file, s.drop_last());
        lemma_cache_items_pragmas(b, file, s.drop_last());
        if let StmtView::Import(_) = s.last() {
        } else {
            lemma_cache_stmt_pragma(Scope { bindings: a.1, file, path: seq![] }, s.last());
        }
        assert forall|j: int| 0 <= j < s.len() - 1 implies s.drop_last()[j] == s[j] by {}
    }
}

proof fn lemma_same_leading_pragmas(s: Seq<StmtView>, t: Seq<StmtView>)
    requires
        s.len() == t.len(),
        forall|j: int| 0 <= j < s.len() ==> is_pragma(#[trigger] s[j]) == is_pragma(t[j]),
    ensures
        leading_pragmas(s) == leading_pragmas(t),
    decreases s.len(),
{
    if s.len() > 0 && is_pragma(s[0]) {
        assert forall|j: int| 0 <= j < s.len() - 1 implies is_pragma(#[trigger] s.drop_first()[j]) == is_pragma(t.drop_first()[j]) by {
            assert(s.drop_first()[j] == s[j + 1]);
            assert(t.drop_first()[j] == t[j + 1]);
        }
        lemma_same_leading_pragmas(s.drop_first(), t.drop_first());
    }
}

/// The pragmas that open a program stay first, unchanged; the cache setup,
/// when one is added, comes right after the last of them.
pub proof fn lemma_pragmas_stay_first(names: Set<Seq<char>>, file: Option<Seq<char>>, p: ProgramView)
    ensures
        ({
            let r = refresh_program(names, file, p).body;
            let k = leading_pragmas(p.body);
            &&& k <= r.len()
            &&& forall|j: int| 0 <= j < k ==> #[trigger] r[j] == p.body[j] && is_pragma(r[j])
            &&& cache_items(initial_bindings(names), file, p.body).2 ==> r[k as int] == StmtView::CacheSetup
        }),
{
    let c = cache_items(initial_bindings(names), file, p.body);
    lemma_cache_items_pragmas(initial_bindings(names), file, p.body);
    lemma_same_leading_pragmas(p.body, c.0);
    lemma_leading_pragmas(p.body);
    let k = leading_pragmas(p.body);
    if c.2 {
        c.0.insert_ensures(k as int, StmtView::CacheSetup);
    }
}

/// Whether an expression holds no statement list outside a function: the
/// label pass has nothing to insert into it.
pub open spec fn no_block_expr(e: ExprView) -> bool
    decreases e,
{
    match e {
        ExprView::Call { callee, args, .. } => no_block_expr(*callee) && no_block_exprs(args),
        ExprView::Member { obj, prop, .. } => no_block_expr(*obj) && match prop {
            MemberPropView::Other { expr } => no_block_expr(*expr),
            _ => true,
        },
        ExprView::Array { elems, .. } => no_block_exprs(elems),
        ExprView::Object { props, .. } => no_block_props(props),
        ExprView::Other { parts, .. } => no_block_nodes(parts),
        _ => true,
    }
}

pub open spec fn no_block_exprs(s: Seq<ExprView>) -> bool
    decreases s,
{
    s.len() == 0 || (no_block_exprs(s.drop_last()) && no_block_expr(s.last()))
}

pub open spec fn no_block_prop(p: PropView) -> bool
    decreases p,
{
    match p {
        PropView::KeyValue { key, value, .. } => no_block_expr(value) && match key {
            PropKeyView::Computed { expr, .. } => no_block_expr(*expr),
            _ => true,
        },
        PropView::Other { parts, .. } => no_block_nodes(parts),
        _ => true,
    }
}

pub open spec fn no_block_props(s: Seq<PropView>) -> bool
    decreases s,
{
    s.len() == 0 || (no_block_props(s.drop_last()) && no_block_prop(s.last()))
}

pub open spec fn no_block_node(n: NodeView) -> bool
    decreases n,
{
    match n {
        NodeView::Expr(e) => no_block_expr(e),
        NodeView::Stmts(_) => false,
        NodeView::Var(d) => no_block_declarators(d.decls),
    }
}

pub open spec fn no_block_nodes(s: Seq<NodeView>) -> bool
    decreases s,
{
    s.len() == 0 || (no_block_nodes(s.drop_last()) && no_block_node(s.last()))
}

pub open spec fn no_block_declarator(d: DeclaratorView) -> bool
    decreases d,
{
    &&& match d.name {
        BindingView::Pattern { parts, .. } => no_block_nodes(parts),
        _ => true,
    }
    &&& match d.init {
        Some(e) => no_block_expr(e),
        None => true,
    }
}

pub open spec fn no_block_declarators(s: Seq<DeclaratorView>) -> bool
    decreases s,
{
    s.len() == 0 || (no_block_declarators(s.drop_last()) && no_block_declarator(s.last()))
}

proof fn label_keeps_expr(b: Bindings, cur: Target, pend: Target, e: ExprView)
    requires
        no_block_expr(e),
    ensures
        label_expr(b, cur, pend, e).0 == e,
    decreases e,
{
    match e {
        ExprView::Call { callee, args, .. } => {
            let c = label_expr(b, cur, pend, *callee);
            label_keeps_expr(b, cur, pend, *callee);
            label_keeps_exprs(b, cur, c.1, args);
        },
        ExprView::Member { obj, prop, .. } => {
            let o = label_expr(b, cur, pend, *obj);
            label_keeps_expr(b, cur, pend, *obj);
            label_keeps_member_prop(b, cur, o.1, prop);
        },
        ExprView::Array { elems, .. } => label_keeps_exprs(b, cur, pend, elems),
        ExprView::Object { props, .. } => label_keeps_props(b, cur, pend, props),
        ExprView::Other { parts, .. } => label_keeps_nodes(b, cur, pend, parts),
        _ => {},
    }
}

proof fn label_keeps_member_prop(b: Bindings, cur: Target, pend: Target, p: MemberPropView)
    requires
        p matches MemberPropView::Other { expr } ==> no_block_expr(*expr),
    ensures
        label_member_prop(b, cur, pend, p).0 == p,
    decreases p,
{
    if let MemberPropView::Other { expr } = p {
        label_keeps_expr(b, cur, pend, *expr);
    }
}

proof fn label_keeps_prop(b: Bindings, cur: Target, pend: Target, p: PropView)
    requires
        no_block_prop(p),
    ensures
        label_prop(b, cur, pend, p).0 == p,
    decreases p,
{
    match p {
        PropView::KeyValue { key, value, .. } => {
            let mut q = pend;
            if let PropKeyView::Computed { expr, .. } = key {
                label_keeps_expr(b, cur, pend, *expr);
                q = label_expr(b, cur, pend, *expr).1;
            }
            label_keeps_expr(b, cur, q, value);
        },
        PropView::Other { parts, .. } => label_keeps_nodes(b, cur, pend, parts),
        _ => {},
    }
}

proof fn label_keeps_node(b: Bindings, cur: Target, pend: Target, n: NodeView)
    requires
        no_block_node(n),
    ensures
        label_node(b, cur, pend, n).0 == n,
    decreases n,
{
    match n {
        NodeView::Expr(e) => label_keeps_expr(b, cur, pend, e),
        NodeView::Stmts(s) => {},
        NodeView::Var(d) => label_keeps_declarators(b, pend, d.decls),
    }
}

proof fn label_keeps_declarator(b: Bindings, pend: Target, d: DeclaratorView)
    requires
        no_block_declarator(d),
    ensures
        label_declarator(b, pend, d).0 == d,
    decreases d,
{
    let cur = crate::label::declared_target(d.name);
    let mut q = pend;
    if let BindingView::Pattern { parts, .. } = d.name {
        label_keeps_nodes(b, cur, pend, parts);
        q = label_nodes(b, cur, pend, parts).1;
    }
    if let Some(e) = d.init {
        label_keeps_expr(b, cur, q, e);
    }
}

proof fn label_keeps_exprs(b: Bindings, cur: Target, pend: Target, s: Seq<ExprView>)
    requires
        no_block_exprs(s),
    ensures
        label_exprs(b, cur, pend, s).0 == s,
    decreases s,
{
    if s.len() > 0 {
        let a = label_exprs(b, cur, pend, s.drop_last());
        label_keeps_exprs(b, cur, pend, s.drop_last());
        label_keeps_expr(b, cur, a.1, s.last());
        assert(s.drop_last().push(s.last()) =~= s);
    }
}

proof fn label_keeps_props(b: Bindings, cur: Target, pend: Target, s: Seq<PropView>)
    requires
        no_block_props(s),
    ensures
        label_props(b, cur, pend, s).0 == s,
    decreases s,
{
    if s.len() > 0 {
        let a = label_props(b, cur, pend, s.drop_last());
        label_keeps_props(b, cur, pend, s.drop_last());
        label_keeps_prop(b, cur, a.1, s.last());
        assert(s.drop_last().push(s.last()) =~= s);
    }
}

proof fn label_keeps_nodes(b: Bindings, cur: Target, pend: Target, s: Seq<NodeView>)
    requires
        no_block_nodes(s),
    ensures
        label_nodes(b, cur, pend, s).0 == s,
    decreases s,
{
    if s.len() > 0 {
        let a = label_nodes(b, cur, pend, s.drop_last());
        label_keeps_nodes(b, cur, pend, s.drop_last());
        label_keeps_node(b, cur, a.1, s.last());
        assert(s.drop_last().push(s.last()) =~= s);
    }
}

proof fn label_keeps_declarators(b: Bindings, pend: Target, s: Seq<DeclaratorView>)
    requires
        no_block_declarators(s),
    ensures
        label_declarators(b, pend, s).0 == s,
    decreases s,
{
    if s.len() > 0 {
        let a = label_declarators(b, pend, s.drop_last());
        label_keeps_declarators(b, pend, s.drop_last());
        label_keeps_declarator(b, a.1, s.last());
        assert(s.drop_last().push(s.last()) =~= s);
    }
}

/// `const x = f(...)` at module level, with `f` a factory, becomes
/// `const x = globalThis.jotaiAtomCache.get(key, f(...))` with the call kept
/// whole, nested factory calls included; with the file unknown, the key is
/// `x` alone.
pub proof fn lemma_declaration_wrapped_once(sc: Scope, d: DeclaratorView, x: Seq<char>)
    requires
        d.name matches BindingView::Ident { sym, .. } && sym == x,
        d.init matches Some(ExprView::Call { callee, .. }) && classify(sc.bindings, *callee),
    ensures
        cache_declarator(sc, d).0.init == Some(ExprView::CacheGet {
            key: cache_key(sc.file, sc.path.push(x)),
            call: Box::new(d.init.unwrap()),
        }),
        sc.file is None && sc.path.len() == 0 ==> cache_key(sc.file, sc.path.push(x)) == x,
{
    assert(sc.path.len() == 0 ==> sc.path.push(x) =~= seq![x]);
}

/// A declaration whose initializer is a function or arrow is left whole by
/// both passes, and gets no label.
pub proof fn lemma_function_initializer_untouched(sc: Scope, b: Bindings, pend: Target, d: DeclaratorView)
    requires
        d.name is Ident,
        d.init matches Some(e) && e is Func,
    ensures
        cache_declarator(sc, d) == (d, false),
        label_declarator(b, pend, d) == (d, pend),
{
}

/// Inside an object literal, a `key: value` property is visited with the
/// key's segment appended to the path, and any other member (a spread
/// included) with the path as it is: keys are not made unique.
pub proof fn lemma_object_property_paths(sc: Scope, p: PropView)
    ensures
        p matches PropView::KeyValue { key, value, .. } ==> cache_prop(sc, p).0 matches PropView::KeyValue { value: v, .. }
            && v == cache_expr(sc.within(crate::refresh::key_segment(key)), value).0,
        p matches PropView::Other { parts, .. } ==> cache_prop(sc, p).0 matches PropView::Other { parts: q, .. }
            && q == cache_nodes(sc, parts).0,
{
}

} // verus!
