use swc_jotai::{
    convert_path_to_posix, debug_label_transform, react_refresh_transform, AtomImportMap, Binding,
    Config, Declarator, Expr, FileName, Import, ImportSpec, MemberProp, Node, Program, Prop,
    PropKey, Stmt, VarDecl,
};

fn s(t: &str) -> String {
    t.to_string()
}

fn id(name: &str) -> Expr {
    Expr::Ident { sym: s(name), ctxt: 0, origin: 0 }
}

fn lit(origin: u64) -> Expr {
    Expr::Other { parts: vec![], origin }
}

fn str_lit(value: &str) -> Expr {
    Expr::Str { value: s(value), origin: 0 }
}

fn call(callee: Expr, args: Vec<Expr>) -> Expr {
    Expr::Call { callee: Box::new(callee), args, origin: 0 }
}

fn member(obj: &str, prop: &str) -> Expr {
    Expr::Member {
        obj: Box::new(id(obj)),
        prop: MemberProp::Ident { sym: s(prop), origin: 0 },
        origin: 0,
    }
}

fn arrow(parts: Vec<Node>) -> Expr {
    Expr::Func { parts, origin: 0 }
}

fn named(local: &str, imported: Option<&str>) -> ImportSpec {
    ImportSpec::Named { local: s(local), imported: imported.map(s) }
}

fn import(src: &str, specs: Vec<ImportSpec>) -> Stmt {
    Stmt::Import(Import { src: s(src), specs, origin: 0 })
}

fn import_atom() -> Stmt {
    import("jotai", vec![named("atom", None)])
}

fn declarator(name: &str, init: Expr) -> Declarator {
    Declarator {
        name: Binding::Ident { sym: s(name), ctxt: 0, origin: 0 },
        init: Some(init),
        origin: 0,
    }
}

fn var(decls: Vec<Declarator>, export: Option<u64>) -> Stmt {
    Stmt::Var { decl: VarDecl { decls, origin: 0 }, export }
}

fn konst(name: &str, init: Expr) -> Stmt {
    var(vec![declarator(name, init)], None)
}

fn label(name: &str) -> Stmt {
    Stmt::DebugLabel { name: s(name), ctxt: 0 }
}

fn cached(key: &str, call: Expr) -> Expr {
    Expr::CacheGet { key: s(key), call: Box::new(call) }
}

fn atom_of(n: u64) -> Expr {
    call(id("atom"), vec![lit(n)])
}

fn program(body: Vec<Stmt>) -> Program {
    Program { body, origin: 0 }
}

fn no_config() -> Config {
    Config { atom_names: vec![] }
}

fn atoms_ts() -> FileName {
    FileName::Real(s("atoms.ts"))
}

fn label_of(body: Vec<Stmt>) -> Vec<Stmt> {
    debug_label_transform(program(body), no_config(), atoms_ts()).body
}

fn refresh_of(body: Vec<Stmt>, file: FileName) -> Vec<Stmt> {
    react_refresh_transform(program(body), no_config(), file).body
}

fn double_atom() -> Expr {
    // atom((get) => get(countAtom) * 2)
    call(
        id("atom"),
        vec![arrow(vec![Node::Expr(id("get")), Node::Expr(lit(1))])],
    )
}

// ----- debug labels -----

#[test]
fn basic() {
    let out = label_of(vec![import_atom(), konst("countAtom", atom_of(0))]);
    assert_eq!(out, vec![import_atom(), konst("countAtom", atom_of(0)), label("countAtom")]);
}

#[test]
fn exported_atom() {
    let out = label_of(vec![import_atom(), var(vec![declarator("countAtom", atom_of(0))], Some(7))]);
    assert_eq!(
        out,
        vec![import_atom(), var(vec![declarator("countAtom", atom_of(0))], Some(7)), label("countAtom")]
    );
}

#[test]
fn multiple_atoms_between_code() {
    let increment = arrow(vec![Node::Expr(lit(2))]);
    let out = label_of(vec![
        import_atom(),
        konst("countAtom", atom_of(0)),
        var(vec![declarator("counter", lit(0))], None),
        konst("increment", arrow(vec![Node::Expr(lit(2))])),
        konst("doubleAtom", double_atom()),
    ]);
    assert_eq!(
        out,
        vec![
            import_atom(),
            konst("countAtom", atom_of(0)),
            label("countAtom"),
            var(vec![declarator("counter", lit(0))], None),
            konst("increment", increment),
            konst("doubleAtom", double_atom()),
            label("doubleAtom"),
        ]
    );
}

#[test]
fn import_alias() {
    let imp = || import("jotai", vec![named("blah", Some("atom"))]);
    let decl = || konst("countAtom", call(id("blah"), vec![lit(0)]));
    assert_eq!(label_of(vec![imp(), decl()]), vec![imp(), decl(), label("countAtom")]);
}

#[test]
fn ignore_non_jotai_imports() {
    let react = || import("react", vec![ImportSpec::Default { local: s("React") }]);
    let utils = || import("./utils", vec![named("defaultCount", None)]);
    let out = label_of(vec![react(), import_atom(), utils(), konst("countAtom", atom_of(0))]);
    assert_eq!(
        out,
        vec![react(), import_atom(), utils(), konst("countAtom", atom_of(0)), label("countAtom")]
    );
}

#[test]
fn namespace_import() {
    let imp = || import("jotai", vec![ImportSpec::Namespace { local: s("jotai") }]);
    let decl = || konst("countAtom", call(member("jotai", "atom"), vec![lit(0)]));
    assert_eq!(label_of(vec![imp(), decl()]), vec![imp(), decl(), label("countAtom")]);
}

#[test]
fn atom_from_another_package() {
    let imp = || import("some-library", vec![named("atom", None)]);
    let decl = || konst("countAtom", atom_of(0));
    assert_eq!(label_of(vec![imp(), decl()]), vec![imp(), decl()]);
}

#[test]
fn no_jotai_import() {
    assert_eq!(label_of(vec![konst("countAtom", atom_of(0))]), vec![konst("countAtom", atom_of(0))]);
}

fn default_export_of(file: FileName) -> Vec<Stmt> {
    debug_label_transform(
        program(vec![import_atom(), Stmt::ExportDefault { expr: atom_of(0), origin: 0 }]),
        no_config(),
        file,
    )
    .body
}

fn default_export_as(name: &str) -> Vec<Stmt> {
    vec![
        import_atom(),
        Stmt::DefaultAtom { name: s(name), init: atom_of(0) },
        label(name),
        Stmt::ExportDefaultName { name: s(name) },
    ]
}

#[test]
fn handle_default_export() {
    assert_eq!(default_export_of(atoms_ts()), default_export_as("atoms"));
}

#[test]
fn handle_file_naming_default_export() {
    assert_eq!(default_export_of(FileName::Real(s("countAtom.ts"))), default_export_as("countAtom"));
}

#[test]
fn handle_file_path_default_export() {
    assert_eq!(
        default_export_of(FileName::Real(s("src/atoms/countAtom.ts"))),
        default_export_as("countAtom")
    );
}

#[test]
fn default_export_of_anonymous_file() {
    assert_eq!(default_export_of(FileName::Anon), default_export_as("default_atom"));
}

#[test]
fn default_export_of_file_without_stem() {
    assert_eq!(default_export_of(FileName::Real(s("src/.."))), default_export_as("default_atom"));
}

#[test]
fn utils_import_is_labelled() {
    let imp = || import("jotai/utils", vec![named("atomWithStorage", None)]);
    let decl = || konst("themeAtom", call(id("atomWithStorage"), vec![str_lit("theme")]));
    assert_eq!(label_of(vec![imp(), decl()]), vec![imp(), decl(), label("themeAtom")]);
}

#[test]
fn test_default_export() {
    let func = || Stmt::Other { parts: vec![Node::Stmts(vec![])], origin: 3 };
    let exp = || Stmt::ExportDefault { expr: id("fn"), origin: 0 };
    assert_eq!(label_of(vec![func(), exp()]), vec![func(), exp()]);
}

#[test]
fn basic_with_existing_debug_label() {
    let manual = || Stmt::Expr { expr: lit(9), origin: 0 };
    let out = label_of(vec![import_atom(), konst("countAtom", atom_of(0)), manual()]);
    assert_eq!(
        out,
        vec![import_atom(), konst("countAtom", atom_of(0)), label("countAtom"), manual()]
    );
}

#[test]
fn custom_atom_names() {
    let decl = || konst("myCustomAtom", call(id("customAtom"), vec![lit(0)]));
    let out = debug_label_transform(
        program(vec![decl()]),
        Config { atom_names: vec![s("customAtom")] },
        FileName::Anon,
    );
    assert_eq!(out.body, vec![decl(), label("myCustomAtom")]);
}

#[test]
fn filename_anon() {
    let out = debug_label_transform(
        program(vec![import_atom(), konst("countAtom", atom_of(0))]),
        no_config(),
        FileName::Anon,
    );
    assert_eq!(out.body, vec![import_atom(), konst("countAtom", atom_of(0)), label("countAtom")]);
}

#[test]
fn labels_keep_binding_context() {
    let decl = || Stmt::Var {
        decl: VarDecl {
            decls: vec![Declarator {
                name: Binding::Ident { sym: s("a"), ctxt: 5, origin: 1 },
                init: Some(atom_of(0)),
                origin: 2,
            }],
            origin: 3,
        },
        export: None,
    };
    assert_eq!(
        label_of(vec![import_atom(), decl()]),
        vec![import_atom(), decl(), Stmt::DebugLabel { name: s("a"), ctxt: 5 }]
    );
}

#[test]
fn no_label_inside_functions() {
    // const make = () => { const inner = atom(0); }
    let body = || arrow(vec![Node::Stmts(vec![konst("inner", atom_of(0))])]);
    let out = label_of(vec![import_atom(), konst("make", body())]);
    assert_eq!(out, vec![import_atom(), konst("make", body())]);
}

#[test]
fn label_in_nested_block_at_module_level() {
    // if (x) { const inner = atom(0); }
    let block = |inner: Vec<Stmt>| Stmt::Other { parts: vec![Node::Expr(id("x")), Node::Stmts(inner)], origin: 4 };
    let out = label_of(vec![import_atom(), block(vec![konst("inner", atom_of(0))])]);
    assert_eq!(
        out,
        vec![import_atom(), block(vec![konst("inner", atom_of(0)), label("inner")])]
    );
}

#[test]
fn nested_atoms_label_once() {
    let three = || call(id("atom"), vec![call(id("atom"), vec![atom_of(0)])]);
    let out = label_of(vec![import_atom(), konst("three", three())]);
    assert_eq!(out, vec![import_atom(), konst("three", three()), label("three")]);
}

// ----- cache wrapping -----

#[test]
fn refresh_basic() {
    let out = refresh_of(vec![import_atom(), konst("countAtom", atom_of(0))], atoms_ts());
    assert_eq!(
        out,
        vec![
            Stmt::CacheSetup,
            import_atom(),
            konst("countAtom", cached("atoms.ts/countAtom", atom_of(0))),
        ]
    );
}

#[test]
fn refresh_multiple_exported_atoms() {
    let out = refresh_of(
        vec![
            import_atom(),
            var(vec![declarator("countAtom", atom_of(0))], Some(1)),
            var(vec![declarator("doubleAtom", double_atom())], Some(2)),
        ],
        atoms_ts(),
    );
    assert_eq!(
        out,
        vec![
            Stmt::CacheSetup,
            import_atom(),
            var(vec![declarator("countAtom", cached("atoms.ts/countAtom", atom_of(0)))], Some(1)),
            var(vec![declarator("doubleAtom", cached("atoms.ts/doubleAtom", double_atom()))], Some(2)),
        ]
    );
}

#[test]
fn refresh_import_alias() {
    let imp = || import("jotai", vec![named("blah", Some("atom"))]);
    let blah = || call(id("blah"), vec![lit(0)]);
    let out = refresh_of(vec![imp(), konst("countAtom", blah())], atoms_ts());
    assert_eq!(
        out,
        vec![Stmt::CacheSetup, imp(), konst("countAtom", cached("atoms.ts/countAtom", blah()))]
    );
}

#[test]
fn refresh_namespace_import() {
    let imp = || import("jotai", vec![ImportSpec::Namespace { local: s("jotai") }]);
    let c = || call(member("jotai", "atom"), vec![lit(0)]);
    let out = refresh_of(vec![imp(), konst("countAtom", c())], atoms_ts());
    assert_eq!(
        out,
        vec![Stmt::CacheSetup, imp(), konst("countAtom", cached("atoms.ts/countAtom", c()))]
    );
}

#[test]
fn refresh_namespace_under_other_name_is_not_recognised() {
    let imp = || import("jotai", vec![ImportSpec::Namespace { local: s("J") }]);
    let c = || konst("countAtom", call(member("J", "atom"), vec![lit(0)]));
    assert_eq!(refresh_of(vec![imp(), c()], atoms_ts()), vec![imp(), c()]);
}

#[test]
fn refresh_atom_from_another_package() {
    let imp = || import("some-library", vec![named("atom", None)]);
    let decl = || konst("countAtom", atom_of(0));
    assert_eq!(refresh_of(vec![imp(), decl()], atoms_ts()), vec![imp(), decl()]);
}

#[test]
fn refresh_no_jotai_import() {
    let decl = || konst("countAtom", atom_of(0));
    assert_eq!(refresh_of(vec![decl()], atoms_ts()), vec![decl()]);
}

#[test]
fn refresh_handle_default_export() {
    let out = refresh_of(
        vec![import_atom(), Stmt::ExportDefault { expr: atom_of(0), origin: 0 }],
        FileName::Real(s("src/atoms/countAtom.ts")),
    );
    assert_eq!(
        out,
        vec![
            Stmt::CacheSetup,
            import_atom(),
            Stmt::ExportDefault { expr: cached("src/atoms/countAtom.ts/", atom_of(0)), origin: 0 },
        ]
    );
}

#[test]
fn refresh_custom_atom_names() {
    let c = || call(id("customAtom"), vec![lit(0)]);
    let out = react_refresh_transform(
        program(vec![konst("myCustomAtom", c())]),
        Config { atom_names: vec![s("customAtom")] },
        atoms_ts(),
    );
    assert_eq!(
        out.body,
        vec![Stmt::CacheSetup, konst("myCustomAtom", cached("atoms.ts/myCustomAtom", c()))]
    );
}

#[test]
fn ignore_non_top_level_atoms() {
    // function createAtom(ov) { const valueAtom = atom(ov); }
    let func = || Stmt::Other {
        parts: vec![Node::Expr(Expr::Func {
            parts: vec![Node::Stmts(vec![konst("valueAtom", call(id("atom"), vec![id("ov")]))])],
            origin: 5,
        })],
        origin: 6,
    };
    let v1 = || konst("value1Atom", call(id("createAtom"), vec![str_lit("Hello String!")]));
    let out = refresh_of(vec![import_atom(), func(), v1(), konst("countAtom", atom_of(0))], atoms_ts());
    assert_eq!(
        out,
        vec![
            Stmt::CacheSetup,
            import_atom(),
            func(),
            v1(),
            konst("countAtom", cached("atoms.ts/countAtom", atom_of(0))),
        ]
    );
}

#[test]
fn nested_top_level_atoms() {
    let three = || call(id("atom"), vec![call(id("atom"), vec![atom_of(0)])]);
    let out = refresh_of(vec![import_atom(), konst("three", three())], FileName::Anon);
    assert_eq!(
        out,
        vec![Stmt::CacheSetup, import_atom(), konst("three", cached("three", three()))]
    );
}

#[test]
fn higher_order_fn_to_atom() {
    let g1 = || Stmt::Other {
        parts: vec![Node::Expr(arrow(vec![Node::Stmts(vec![Stmt::Other {
            parts: vec![Node::Expr(atom_of(1))],
            origin: 8,
        }])]))],
        origin: 9,
    };
    let g2 = || konst("getAtom2", arrow(vec![Node::Expr(atom_of(2))]));
    let out = refresh_of(vec![import_atom(), g1(), g2()], FileName::Anon);
    assert_eq!(out, vec![import_atom(), g1(), g2()]);
}

#[test]
fn atom_in_atom_reader_stmt() {
    let reader = || call(id("atom"), vec![arrow(vec![Node::Expr(atom_of(0))])]);
    let out = refresh_of(
        vec![import_atom(), var(vec![declarator("state", reader())], Some(1))],
        FileName::Anon,
    );
    assert_eq!(
        out,
        vec![Stmt::CacheSetup, import_atom(), var(vec![declarator("state", cached("state", reader()))], Some(1))]
    );
}

#[test]
fn array_and_object_top_level() {
    let arr = |a: Expr, b: Expr| konst("arr", Expr::Array { elems: vec![a, b], origin: 0 });
    let kv = |k: &str, v: Expr| Prop::KeyValue { key: PropKey::Name { text: s(k), origin: 0 }, value: v, origin: 0 };
    let obj = |a: Expr, b: Expr| konst("obj", Expr::Object { props: vec![kv("five", a), kv("six", b)], origin: 0 });
    let out = refresh_of(
        vec![import_atom(), arr(atom_of(3), atom_of(4)), obj(atom_of(5), atom_of(6))],
        FileName::Anon,
    );
    assert_eq!(
        out,
        vec![
            Stmt::CacheSetup,
            import_atom(),
            arr(cached("arr.0", atom_of(3)), cached("arr.1", atom_of(4))),
            obj(cached("obj.five", atom_of(5)), cached("obj.six", atom_of(6))),
        ]
    );
}

#[test]
fn object_edge_cases() {
    let kv = |k: &str, v: Expr| Prop::KeyValue { key: PropKey::Name { text: s(k), origin: 0 }, value: v, origin: 0 };
    let spread = |v: Expr| Prop::Other {
        parts: vec![Node::Expr(Expr::Object { props: vec![kv("six", v)], origin: 0 })],
        origin: 0,
    };
    let obj = |a: Expr, b: Expr, c: Expr| konst("obj", Expr::Object { props: vec![kv("five", a), kv("six", b), spread(c)], origin: 0 });
    let out = refresh_of(vec![import_atom(), obj(atom_of(5), atom_of(6), atom_of(66))], FileName::Anon);
    assert_eq!(
        out,
        vec![
            Stmt::CacheSetup,
            import_atom(),
            obj(cached("obj.five", atom_of(5)), cached("obj.six", atom_of(6)), cached("obj.six", atom_of(66))),
        ]
    );
}

#[test]
fn computed_and_destructured_keys() {
    let computed = |v: Expr| Prop::KeyValue {
        key: PropKey::Computed { expr: Box::new(id("k")), placeholder: s("computed:Span { lo: 10, hi: 13 }"), origin: 0 },
        value: v,
        origin: 0,
    };
    let obj = |v: Expr| konst("o", Expr::Object { props: vec![computed(v)], origin: 0 });
    let pattern = |v: Expr| var(
        vec![Declarator {
            name: Binding::Pattern { parts: vec![], origin: 0 },
            init: Some(v),
            origin: 0,
        }],
        None,
    );
    let out = refresh_of(vec![import_atom(), obj(atom_of(1)), pattern(atom_of(2))], FileName::Anon);
    assert_eq!(
        out,
        vec![
            Stmt::CacheSetup,
            import_atom(),
            obj(cached("o.computed:Span { lo: 10, hi: 13 }", atom_of(1))),
            pattern(cached("[missing-declarator]", atom_of(2))),
        ]
    );
}

#[test]
fn large_array_index_keys() {
    let mut elems = Vec::new();
    for i in 0..12u64 {
        elems.push(lit(i));
    }
    elems.push(atom_of(12));
    let out = refresh_of(vec![import_atom(), konst("xs", Expr::Array { elems, origin: 0 })], FileName::Anon);
    match &out[2] {
        Stmt::Var { decl, .. } => match &decl.decls[0].init {
            Some(Expr::Array { elems, .. }) => assert_eq!(elems[12], cached("xs.12", atom_of(12))),
            other => panic!("unexpected initializer {:?}", other),
        },
        other => panic!("unexpected statement {:?}", other),
    }
}

#[test]
fn compound_export() {
    let out = refresh_of(
        vec![import_atom(), var(vec![declarator("one", atom_of(1)), declarator("two", atom_of(2))], Some(1))],
        FileName::Anon,
    );
    assert_eq!(
        out,
        vec![
            Stmt::CacheSetup,
            import_atom(),
            var(vec![declarator("one", cached("one", atom_of(1))), declarator("two", cached("two", atom_of(2)))], Some(1)),
        ]
    );
}

fn pragma(text: &str) -> Stmt {
    Stmt::Expr { expr: str_lit(text), origin: 0 }
}

#[test]
fn use_client_directive_placement() {
    let out = refresh_of(vec![pragma("use client"), import_atom(), konst("countAtom", atom_of(0))], FileName::Anon);
    assert_eq!(
        out,
        vec![pragma("use client"), Stmt::CacheSetup, import_atom(), konst("countAtom", cached("countAtom", atom_of(0)))]
    );
}

#[test]
fn use_strict_directive_placement() {
    let out = refresh_of(vec![pragma("use strict"), import_atom(), konst("countAtom", atom_of(0))], FileName::Anon);
    assert_eq!(
        out,
        vec![pragma("use strict"), Stmt::CacheSetup, import_atom(), konst("countAtom", cached("countAtom", atom_of(0)))]
    );
}

#[test]
fn multiple_directives_placement() {
    let out = refresh_of(
        vec![pragma("use strict"), pragma("use client"), import_atom(), konst("countAtom", atom_of(0))],
        FileName::Anon,
    );
    assert_eq!(
        out,
        vec![
            pragma("use strict"),
            pragma("use client"),
            Stmt::CacheSetup,
            import_atom(),
            konst("countAtom", cached("countAtom", atom_of(0))),
        ]
    );
}

#[test]
fn other_string_statement_ends_the_pragmas() {
    let out = refresh_of(
        vec![pragma("use strict"), pragma("hello"), pragma("use client"), import_atom(), konst("a", atom_of(0))],
        FileName::Anon,
    );
    assert_eq!(out[1], Stmt::CacheSetup);
    assert_eq!(out[2], pragma("hello"));
}

#[test]
fn use_client_without_imports() {
    let body = || vec![pragma("use client"), konst("countAtom", call(id("customAtom"), vec![lit(0)]))];
    assert_eq!(refresh_of(body(), FileName::Anon), body());
}

// ----- binding table and paths -----

#[test]
fn import_map_classifies() {
    let mut map = AtomImportMap::new(vec![s("myAtom")]);
    map.visit_import_decl(&Import { src: s("jotai/utils"), specs: vec![named("sel", Some("selectAtom")), named("other", None)], origin: 0 });
    map.visit_import_decl(&Import { src: s("jotai"), specs: vec![ImportSpec::Namespace { local: s("j") }], origin: 0 });
    assert!(map.is_atom_import(&id("sel")));
    assert!(map.is_atom_import(&id("myAtom")));
    assert!(!map.is_atom_import(&id("other")));
    assert!(!map.is_atom_import(&id("selectAtom")));
    assert!(map.is_atom_import(&member("jotai", "splitAtom")));
    assert!(!map.is_atom_import(&member("jotai", "unknown")));
    assert!(!map.is_atom_import(&member("j", "atom")));
    assert!(map.is_atom_import(&call(id("sel"), vec![])));
    assert!(!map.is_atom_import(&str_lit("sel")));
}

#[test]
fn import_map_ignores_foreign_sources() {
    let mut map = AtomImportMap::new(vec![]);
    map.visit_import_decl(&Import { src: s("jota"), specs: vec![named("atom", None)], origin: 0 });
    map.visit_import_decl(&Import { src: s("some-library"), specs: vec![ImportSpec::Namespace { local: s("some-library") }], origin: 0 });
    assert!(!map.is_atom_import(&id("atom")));
    assert!(!map.is_atom_import(&member("some-library", "atom")));
}

#[test]
fn posix_paths() {
    assert_eq!(convert_path_to_posix("C:\\src\\atoms.ts"), "C/src/atoms.ts");
    assert_eq!(convert_path_to_posix("a\\b:c"), "a/b:c");
    assert_eq!(convert_path_to_posix("src/atoms.ts"), "src/atoms.ts");
    assert_eq!(convert_path_to_posix(""), "");
}

// ----- configured names in the factory-name set -----

fn configured() -> Config {
    Config { atom_names: vec![s("myAtom")] }
}

#[test]
fn configured_name_imported_under_rename() {
    let imp = || import("jotai", vec![named("m", Some("myAtom"))]);
    let decl = |init: Expr| konst("a", init);
    let c = || call(id("m"), vec![lit(0)]);
    let labelled = debug_label_transform(program(vec![imp(), decl(c())]), configured(), FileName::Anon);
    assert_eq!(labelled.body, vec![imp(), decl(c()), label("a")]);
    let cached_out = react_refresh_transform(program(vec![imp(), decl(c())]), configured(), FileName::Anon);
    assert_eq!(cached_out.body, vec![Stmt::CacheSetup, imp(), decl(cached("a", c()))]);
}

#[test]
fn configured_name_through_namespace() {
    let imp = || import("jotai", vec![ImportSpec::Namespace { local: s("jotai") }]);
    let c = || call(member("jotai", "myAtom"), vec![lit(0)]);
    let cached_out = react_refresh_transform(program(vec![imp(), konst("a", c())]), configured(), FileName::Anon);
    assert_eq!(cached_out.body, vec![Stmt::CacheSetup, imp(), konst("a", cached("a", c()))]);
    let unconfigured = react_refresh_transform(program(vec![imp(), konst("a", c())]), no_config(), FileName::Anon);
    assert_eq!(unconfigured.body, vec![imp(), konst("a", c())]);
}

#[test]
fn import_map_honours_configured_names() {
    let mut map = AtomImportMap::new(vec![s("myAtom")]);
    map.visit_import_decl(&Import { src: s("jotai"), specs: vec![named("m", Some("myAtom")), ImportSpec::Namespace { local: s("ns") }], origin: 0 });
    assert!(map.is_atom_import(&id("m")));
    assert!(map.is_atom_import(&member("jotai", "myAtom")));
    assert!(!map.is_atom_import(&member("jotai", "otherAtom")));
    let mut plain = AtomImportMap::new(vec![]);
    plain.visit_import_decl(&Import { src: s("jotai"), specs: vec![named("m", Some("myAtom"))], origin: 0 });
    assert!(!plain.is_atom_import(&id("m")));
}

// ----- more label and cache cases -----

#[test]
fn multiple_atoms() {
    let out = label_of(vec![import_atom(), konst("countAtom", atom_of(0)), konst("doubleAtom", double_atom())]);
    assert_eq!(
        out,
        vec![
            import_atom(),
            konst("countAtom", atom_of(0)),
            label("countAtom"),
            konst("doubleAtom", double_atom()),
            label("doubleAtom"),
        ]
    );
}

#[test]
fn refresh_multiple_atoms() {
    let out = refresh_of(vec![import_atom(), konst("countAtom", atom_of(0)), konst("doubleAtom", double_atom())], atoms_ts());
    assert_eq!(
        out,
        vec![
            Stmt::CacheSetup,
            import_atom(),
            konst("countAtom", cached("atoms.ts/countAtom", atom_of(0))),
            konst("doubleAtom", cached("atoms.ts/doubleAtom", double_atom())),
        ]
    );
}

#[test]
fn refresh_multiple_atoms_between_code() {
    let counter = || var(vec![declarator("counter", lit(0))], None);
    let increment = || konst("increment", arrow(vec![Node::Expr(lit(2))]));
    let out = refresh_of(
        vec![import_atom(), konst("countAtom", atom_of(0)), counter(), increment(), konst("doubleAtom", double_atom())],
        atoms_ts(),
    );
    assert_eq!(
        out,
        vec![
            Stmt::CacheSetup,
            import_atom(),
            konst("countAtom", cached("atoms.ts/countAtom", atom_of(0))),
            counter(),
            increment(),
            konst("doubleAtom", cached("atoms.ts/doubleAtom", double_atom())),
        ]
    );
}

#[test]
fn refresh_ignore_non_jotai_imports() {
    let react = || import("react", vec![ImportSpec::Default { local: s("React") }]);
    let utils = || import("./utils", vec![named("defaultCount", None)]);
    let out = refresh_of(vec![react(), import_atom(), utils(), konst("countAtom", atom_of(0))], atoms_ts());
    assert_eq!(
        out,
        vec![Stmt::CacheSetup, react(), import_atom(), utils(), konst("countAtom", cached("atoms.ts/countAtom", atom_of(0)))]
    );
}

#[test]
fn refresh_exported_atom() {
    let out = refresh_of(vec![import_atom(), var(vec![declarator("countAtom", atom_of(0))], Some(3))], atoms_ts());
    assert_eq!(
        out,
        vec![Stmt::CacheSetup, import_atom(), var(vec![declarator("countAtom", cached("atoms.ts/countAtom", atom_of(0)))], Some(3))]
    );
}

#[test]
fn refresh_test_default_export() {
    let func = || Stmt::Other { parts: vec![Node::Expr(Expr::Func { parts: vec![Node::Stmts(vec![])], origin: 2 })], origin: 3 };
    let exp = || Stmt::ExportDefault { expr: id("fn"), origin: 0 };
    assert_eq!(refresh_of(vec![func(), exp()], atoms_ts()), vec![func(), exp()]);
}

fn refresh_default_export_key(file: FileName) -> Vec<Stmt> {
    refresh_of(vec![import_atom(), Stmt::ExportDefault { expr: atom_of(0), origin: 0 }], file)
}

fn default_export_cached(key: &str) -> Vec<Stmt> {
    vec![Stmt::CacheSetup, import_atom(), Stmt::ExportDefault { expr: cached(key, atom_of(0)), origin: 0 }]
}

#[test]
fn refresh_default_export_keys() {
    assert_eq!(refresh_default_export_key(atoms_ts()), default_export_cached("atoms.ts/"));
    assert_eq!(refresh_default_export_key(FileName::Real(s("countAtom.ts"))), default_export_cached("countAtom.ts/"));
    assert_eq!(refresh_default_export_key(FileName::Anon), default_export_cached(""));
}

#[test]
fn default_export_stem_ignores_trailing_separators() {
    assert_eq!(default_export_of(FileName::Real(s("src/atoms/"))), default_export_as("atoms"));
    assert_eq!(default_export_of(FileName::Real(s("src/atoms/."))), default_export_as("atoms"));
    assert_eq!(default_export_of(FileName::Real(s("/"))), default_export_as("default_atom"));
    assert_eq!(default_export_of(FileName::Real(s("a/.bashrc"))), default_export_as(".bashrc"));
    assert_eq!(default_export_of(FileName::Real(s("a/b.tar.gz"))), default_export_as("b.tar"));
}
