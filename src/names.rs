//! Which expressions name an atom factory: the built-in names, the configured
//! names, and the bindings that imports from the reactive library bring in.
use vstd::prelude::*;
use crate::ast::{expr_view, member_prop_view, Expr, ExprView, Import, ImportSpec, ImportView, ImportSpecView, MemberProp, MemberPropView};
use crate::text::{starts_with, text_eq};

verus! {

/// The factory names that the reactive library exports.
pub open spec fn is_builtin_factory(s: Seq<char>) -> bool {
    ||| s == "atom"@
    ||| s == "atomFamily"@
    ||| s == "atomWithDefault"@
    ||| s == "atomWithObservable"@
    ||| s == "atomWithReducer"@
    ||| s == "atomWithReset"@
    ||| s == "atomWithStorage"@
    ||| s == "freezeAtom"@
    ||| s == "loadable"@
    ||| s == "selectAtom"@
    ||| s == "splitAtom"@
}

/// Whether an import source belongs to the reactive library (`jotai`, `jotai/utils`, ...).
pub open spec fn is_library_source(src: Seq<char>) -> bool {
    "jotai"@.is_prefix_of(src)
}

/// Whether `s` is one of the built-in factory names.
pub fn is_builtin_name(s: &String) -> (r: bool)
    ensures
        r == is_builtin_factory(s@),
{
    text_eq(s, "atom") || text_eq(s, "atomFamily") || text_eq(s, "atomWithDefault")
        || text_eq(s, "atomWithObservable") || text_eq(s, "atomWithReducer")
        || text_eq(s, "atomWithReset") || text_eq(s, "atomWithStorage")
        || text_eq(s, "freezeAtom") || text_eq(s, "loadable") || text_eq(s, "selectAtom")
        || text_eq(s, "splitAtom")
}

/// Static configuration: factory names honoured wherever they come from.
#[derive(Debug, Clone, PartialEq, Eq)]
pub struct Config {
    pub atom_names: Vec<String>,
}

impl Config {
    pub open spec fn names(&self) -> Set<Seq<char>> {
        Set::new(|x: Seq<char>| holds(self.atom_names@, x))
    }
}

/// Whether some string of `v` has the text `x`.
pub open spec fn holds(v: Seq<String>, x: Seq<char>) -> bool {
    exists|i: int| 0 <= i < v.len() && v[i]@ == x
}

fn contains_text(v: &Vec<String>, x: &String) -> (r: bool)
    ensures
        r == holds(v@, x@),
{
    let mut i: usize = 0;
    while i < v.len()
        invariant
            i <= v@.len(),
            forall|j: int| 0 <= j < i ==> v@[j]@ != x@,
        decreases v.len() - i,
    {
        if v[i] == *x {
            return true;
        }
        i = i + 1;
    }
    false
}

/// What the binding table knows, as sets of names.
pub struct Bindings {
    /// Configured factory names.
    pub configured: Set<Seq<char>>,
    /// Local names bound to a factory by an import from the library.
    pub imports: Set<Seq<char>>,
    /// Sources of namespace imports from the library.
    pub namespaces: Set<Seq<char>>,
}

/// Whether `n` is in the factory-name set: a built-in name or a configured one.
pub open spec fn is_factory(b: Bindings, n: Seq<char>) -> bool {
    is_builtin_factory(n) || b.configured.contains(n)
}

/// The bindings before any import is seen.
pub open spec fn initial_bindings(configured: Set<Seq<char>>) -> Bindings {
    Bindings { configured, imports: Set::empty(), namespaces: Set::empty() }
}

/// The name that a named specifier imports.
pub open spec fn imported_name(local: Seq<char>, imported: Option<Seq<char>>) -> Seq<char> {
    match imported {
        Some(i) => i,
        None => local,
    }
}

/// The bindings after one specifier of an import from `src`.
pub open spec fn register_spec(b: Bindings, src: Seq<char>, s: ImportSpecView) -> Bindings {
    match s {
        ImportSpecView::Named { local, imported } => if is_factory(b, imported_name(local, imported)) {
            Bindings { imports: b.imports.insert(local), ..b }
        } else {
            b
        },
        ImportSpecView::Namespace { .. } => Bindings { namespaces: b.namespaces.insert(src), ..b },
        ImportSpecView::Default { .. } => b,
    }
}

pub open spec fn register_specs(b: Bindings, src: Seq<char>, s: Seq<ImportSpecView>) -> Bindings
    decreases s.len(),
{
    if s.len() == 0 {
        b
    } else {
        register_spec(register_specs(b, src, s.drop_last()), src, s.last())
    }
}

/// The bindings after an import declaration: only one from the library adds any.
pub open spec fn register(b: Bindings, i: ImportView) -> Bindings {
    if is_library_source(i.src) {
        register_specs(b, i.src, i.specs)
    } else {
        b
    }
}

/// Whether `e` denotes an atom factory, or a call of one.
pub open spec fn classify(b: Bindings, e: ExprView) -> bool
    decreases e,
{
    match e {
        ExprView::Call { callee, .. } => classify(b, *callee),
        ExprView::Ident { sym, .. } => b.configured.contains(sym) || b.imports.contains(sym),
        ExprView::Member { obj, prop, .. } => match (*obj, prop) {
            (ExprView::Ident { sym, .. }, MemberPropView::Ident { sym: p, .. }) =>
                b.namespaces.contains(sym) && is_factory(b, p),
            _ => false,
        },
        _ => false,
    }
}

/// The binding table of one file.
pub struct AtomImportMap {
    atom_names: Vec<String>,
    imports: Vec<String>,
    namespace_imports: Vec<String>,
}

impl View for AtomImportMap {
    type V = Bindings;

    closed spec fn view(&self) -> Bindings {
        Bindings {
            configured: Set::new(|x: Seq<char>| holds(self.atom_names@, x)),
            imports: Set::new(|x: Seq<char>| holds(self.imports@, x)),
            namespaces: Set::new(|x: Seq<char>| holds(self.namespace_imports@, x)),
        }
    }
}

proof fn lemma_holds_push(v: Seq<String>, s: String)
    ensures
        Set::new(|x: Seq<char>| holds(v.push(s), x)) == Set::new(|x: Seq<char>| holds(v, x)).insert(s@),
{
    let a = Set::new(|x: Seq<char>| holds(v.push(s), x));
    let b = Set::new(|x: Seq<char>| holds(v, x)).insert(s@);
    assert forall|x: Seq<char>| a.contains(x) <==> b.contains(x) by {
        if holds(v, x) {
            let i = choose|i: int| 0 <= i < v.len() && v[i]@ == x;
            assert(v.push(s)[i] == v[i]);
        }
        if x == s@ {
            assert(v.push(s)[v.len() as int] == s);
        }
    }
    assert(a =~= b);
}

impl AtomImportMap {
    /// An empty table that honours `atom_names` as factories.
    pub fn new(atom_names: Vec<String>) -> (r: Self)
        ensures
            r@ == initial_bindings(Set::new(|x: Seq<char>| holds(atom_names@, x))),
    {
        let r = AtomImportMap { atom_names, imports: Vec::new(), namespace_imports: Vec::new() };
        assert(r@.imports =~= Set::empty());
        assert(r@.namespaces =~= Set::empty());
        r
    }

    /// Whether `s` is in the factory-name set.
    fn is_factory_name(&self, s: &String) -> (r: bool)
        ensures
            r == is_factory(self@, s@),
    {
        is_builtin_name(s) || contains_text(&self.atom_names, s)
    }

    /// Records what an import declaration binds.
    pub fn visit_import_decl(&mut self, import: &Import)
        ensures
            final(self)@ == register(old(self)@, import@),
    {
        if !starts_with(import.src.as_str(), "jotai") {
            return;
        }
        let ghost specs = import@.specs;
        let mut i: usize = 0;
        while i < import.specs.len()
            invariant
                i <= import.specs@.len(),
                specs == import@.specs,
                specs.len() == import.specs@.len(),
                self.atom_names@ == old(self).atom_names@,
                self@ == register_specs(old(self)@, import.src@, specs.take(i as int)),
            decreases import.specs.len() - i,
        {
            proof {
                assert(specs.take(i as int + 1).drop_last() =~= specs.take(i as int));
            }
            match &import.specs[i] {
                ImportSpec::Named { local, imported } => {
                    let builtin = match imported {
                        Some(name) => self.is_factory_name(name),
                        None => self.is_factory_name(local),
                    };
                    if builtin {
                        proof {
                            lemma_holds_push(self.imports@, *local);
                        }
                        self.imports.push(local.clone());
                    }
                },
                ImportSpec::Namespace { .. } => {
                    proof {
                        lemma_holds_push(self.namespace_imports@, import.src);
                    }
                    self.namespace_imports.push(import.src.clone());
                },
                ImportSpec::Default { .. } => {},
            }
            i = i + 1;
        }
        proof {
            assert(specs.take(specs.len() as int) =~= specs);
        }
    }

    /// Whether `expr` denotes an atom factory, or a call of one.
    pub fn is_atom_import(&self, expr: &Expr) -> (r: bool)
        ensures
            r == classify(self@, expr_view(*expr)),
        decreases expr,
    {
        match expr {
            Expr::Call { callee, .. } => self.is_atom_import(callee),
            Expr::Ident { sym, .. } => {
                contains_text(&self.atom_names, sym) || contains_text(&self.imports, sym)
            },
            Expr::Member { obj, prop, .. } => match (&**obj, prop) {
                (Expr::Ident { sym, .. }, MemberProp::Ident { sym: p, .. }) => {
                    proof {
                        assert(expr_view(**obj) == ExprView::Ident { sym: sym@, ctxt: expr_view(**obj)->Ident_ctxt, origin: expr_view(**obj)->Ident_origin });
                    }
                    contains_text(&self.namespace_imports, sym) && self.is_factory_name(p)
                },
                _ => {
                    proof {
                        assert(!(expr_view(**obj) is Ident) || !(member_prop_view(*prop) is Ident));
                    }
                    false
                },
            },
            _ => false,
        }
    }
}

} // verus!
