//! What a call or construction site of a file calls: a declaration of the same module, an
//! imported binding, a static or private member of a class, or a constructor.

use vstd::prelude::*;

use super::exports::{append_all, cache_views, export_outcome, key_views, resolve_export, set_sorted, unresolved_view, CacheView, OutcomeView};
use super::fingerprints::{is_non_relative_alias, node_id, spec_is_non_relative_alias, spec_node_id};
use super::import_targets::{
    callable_view, combined_view, import_target, lemma_sorted_is_set_sorted, member_outcomes,
    namespace_members, resolve_import_target,
};
use super::imports::{
    external_or_unresolved, resolve_external_or_unresolved, resolve_import_module,
    spec_resolve_import_module, ResolutionContext,
};
use super::targets::{
    callable_candidates, class_node, is_callable, is_class, outcome_view, unique_or_unresolved,
    unresolved, unresolved_with_candidates, unresolved_with_status, ResolutionOutcome,
};
use crate::model::typescript::{TypeScriptCall, TypeScriptDeclaration, TypeScriptImport};
use crate::order::{lemma_strictly_sorted_unique, strictly_sorted};
use crate::text::{chars_of, opt_str_eq, seq_starts_with, starts_with, str_eq, string_from, views};

verus! {

broadcast use vstd::string::group_string_axioms;

/// The value recorded first for `key`.
pub open spec fn lookup<V>(s: Seq<(String, V)>, key: Seq<char>) -> Option<V>
    decreases s.len(),
{
    if s.len() == 0 {
        None
    } else if s[0].0@ == key {
        Some(s[0].1)
    } else {
        lookup(s.drop_first(), key)
    }
}

/// The position of the entry that `lookup` reads.
pub fn find_key<V>(entries: &Vec<(String, V)>, key: &str) -> (r: Option<usize>)
    ensures
        match r {
            Some(k) => {
                &&& k < entries@.len()
                &&& lookup(entries@, key@) == Some(entries@[k as int].1)
                &&& entries@[k as int].0@ == key@
                &&& forall|j: int| 0 <= j < k ==> (#[trigger] entries@[j]).0@ != key@
            },
            None => lookup(entries@, key@) is None,
        },
{
    let mut i: usize = 0;
    assert(entries@.skip(0) =~= entries@);
    while i < entries.len()
        invariant
            i <= entries@.len(),
            forall|j: int| 0 <= j < i ==> (#[trigger] entries@[j]).0@ != key@,
            lookup(entries@, key@) == lookup(entries@.skip(i as int), key@),
        decreases entries@.len() - i,
    {
        assert(entries@.skip(i as int)[0] == entries@[i as int]);
        assert(entries@.skip(i as int).drop_first() =~= entries@.skip(i as int + 1));
        if str_eq(entries[i].0.as_str(), key) {
            return Some(i);
        }
        i = i + 1;
    }
    None
}

/// What `lookup` reads after an entry is added last.
pub proof fn lemma_lookup_push<V>(s: Seq<(String, V)>, e: (String, V), k: Seq<char>)
    ensures
        lookup(s.push(e), k) == if lookup(s, k) is Some {
            lookup(s, k)
        } else if e.0@ == k {
            Some(e.1)
        } else {
            None
        },
    decreases s.len(),
{
    if s.len() > 0 {
        assert(s.push(e)[0] == s[0]);
        assert(s.push(e).drop_first() =~= s.drop_first().push(e));
        lemma_lookup_push(s.drop_first(), e, k);
    } else {
        assert(s.push(e)[0] == e);
        assert(s.push(e).drop_first() =~= Seq::<(String, V)>::empty());
        assert(lookup(s.push(e).drop_first(), k) is None);
        assert(lookup(s, k) is None);
    }
}

/// What `lookup` reads after the first entry of a key is replaced by another entry of
/// that key.
pub proof fn lemma_lookup_update<V>(s: Seq<(String, V)>, i: int, e: (String, V), k: Seq<char>)
    requires
        0 <= i < s.len(),
        e.0@ == s[i].0@,
        forall|j: int| 0 <= j < i ==> (#[trigger] s[j]).0@ != s[i].0@,
    ensures
        lookup(s.update(i, e), k) == if k == s[i].0@ {
            Some(e.1)
        } else {
            lookup(s, k)
        },
    decreases s.len(),
{
    assert(s.update(i, e)[0] == if i == 0 {
        e
    } else {
        s[0]
    });
    if i == 0 {
        assert(s.update(i, e).drop_first() =~= s.drop_first());
    } else {
        assert(s[0].0@ != s[i].0@);
        assert(s.update(i, e).drop_first() =~= s.drop_first().update(i - 1, e));
        assert forall|j: int| 0 <= j < i - 1 implies (#[trigger] s.drop_first()[j]).0@ != s.drop_first()[i - 1].0@ by {
            assert(s.drop_first()[j] == s[j + 1]);
        }
        lemma_lookup_update(s.drop_first(), i - 1, e, k);
    }
}

/// The top-level symbol ids that the file at `path` declares under `name`.
pub open spec fn symbol_ids(r: ResolutionContext, path: Seq<char>, name: Seq<char>) -> Option<Seq<Seq<char>>> {
    match lookup(r.symbols_by_path@, path) {
        Some(t) => match lookup(t@, name) {
            Some(ids) => Some(views(ids@)),
            None => None,
        },
        None => None,
    }
}

/// The member ids of a name in a member table; none where the name is absent.
pub open spec fn member_ids(members: Vec<(String, Vec<String>)>, name: Seq<char>) -> Seq<Seq<char>> {
    match lookup(members@, name) {
        Some(ids) => views(ids@),
        None => Seq::empty(),
    }
}

/// The ids recorded as classes, in order.
pub open spec fn classes_in(ids: Seq<Seq<char>>, kinds: Seq<(String, String)>) -> Seq<Seq<char>>
    decreases ids.len(),
{
    if ids.len() == 0 {
        Seq::empty()
    } else if is_class(kinds, ids.last()) {
        classes_in(ids.drop_last(), kinds).push(ids.last())
    } else {
        classes_in(ids.drop_last(), kinds)
    }
}

/// Whether the declaration of `id` is a static member.
pub open spec fn is_static_member(r: ResolutionContext, id: Seq<char>) -> bool {
    lookup(r.declarations_by_id@, id) matches Some(d) && d.static_member
}

/// Whether the declaration of `id` is a private instance method.
pub open spec fn is_private_method(r: ResolutionContext, id: Seq<char>) -> bool {
    lookup(r.declarations_by_id@, id) matches Some(d) && !d.static_member && d.visibility@ == "private"@ && d.kind@
        != "constructor"@
}

/// Whether the declaration of `id` is a constructor.
pub open spec fn is_constructor(r: ResolutionContext, id: Seq<char>) -> bool {
    lookup(r.declarations_by_id@, id) matches Some(d) && d.kind@ == "constructor"@
}

/// The ids whose declarations are static members, in order.
pub open spec fn static_in(r: ResolutionContext, ids: Seq<Seq<char>>) -> Seq<Seq<char>>
    decreases ids.len(),
{
    if ids.len() == 0 {
        Seq::empty()
    } else if is_static_member(r, ids.last()) {
        static_in(r, ids.drop_last()).push(ids.last())
    } else {
        static_in(r, ids.drop_last())
    }
}

/// The ids whose declarations are private instance methods, in order.
pub open spec fn private_in(r: ResolutionContext, ids: Seq<Seq<char>>) -> Seq<Seq<char>>
    decreases ids.len(),
{
    if ids.len() == 0 {
        Seq::empty()
    } else if is_private_method(r, ids.last()) {
        private_in(r, ids.drop_last()).push(ids.last())
    } else {
        private_in(r, ids.drop_last())
    }
}

/// The ids whose declarations are constructors, in order.
pub open spec fn constructors_in(r: ResolutionContext, ids: Seq<Seq<char>>) -> Seq<Seq<char>>
    decreases ids.len(),
{
    if ids.len() == 0 {
        Seq::empty()
    } else if is_constructor(r, ids.last()) {
        constructors_in(r, ids.drop_last()).push(ids.last())
    } else {
        constructors_in(r, ids.drop_last())
    }
}

/// The classes that the file at `path` declares under `name`, where it declares the name.
pub open spec fn local_classes(r: ResolutionContext, path: Seq<char>, name: Seq<char>) -> Option<Seq<Seq<char>>> {
    match symbol_ids(r, path, name) {
        Some(ids) => Some(classes_in(ids, r.symbol_kinds@)),
        None => None,
    }
}

/// The imports that bind `local` as a value name, in order.
pub open spec fn binding_imports(imports: Seq<TypeScriptImport>, local: Seq<char>) -> Seq<TypeScriptImport>
    decreases imports.len(),
{
    if imports.len() == 0 {
        Seq::empty()
    } else {
        let i = imports.last();
        if i.local_name matches Some(n) && n@ == local && i.kind@ != "re-export"@ && i.kind@ != "side-effect-import"@ {
            binding_imports(imports.drop_last(), local).push(i)
        } else {
            binding_imports(imports.drop_last(), local)
        }
    }
}

/// The imported name of an import, `default` where it names none.
pub open spec fn name_or_default(name: Option<String>) -> Seq<char> {
    match name {
        Some(n) => n@,
        None => "default"@,
    }
}

/// The property of a member callee `receiver.property`.
pub open spec fn member_property(callee: Seq<char>, receiver: Seq<char>) -> Option<Seq<char>> {
    if seq_starts_with(callee, receiver) && callee.len() > receiver.len() && callee[receiver.len() as int] == '.' {
        Some(callee.skip(receiver.len() as int + 1))
    } else {
        None
    }
}

/// An ambiguous outcome with the given reason that binds nothing.
pub open spec fn ambiguous_view(reason: Seq<char>) -> OutcomeView {
    ("ambiguous"@, reason, Seq::empty(), Seq::empty(), false)
}

/// The static members named `property` of the given classes.
pub open spec fn static_gather(r: ResolutionContext, classes: Seq<Seq<char>>, property: Seq<char>) -> (Seq<Seq<char>>, bool)
    decreases classes.len(),
{
    if classes.len() == 0 {
        (Seq::empty(), false)
    } else {
        let prev = static_gather(r, classes.drop_last(), property);
        match lookup(r.members_by_owner@, classes.last()) {
            Some(ms) => match lookup(ms@, property) {
                Some(ids) => (prev.0 + static_in(r, views(ids@)), true),
                None => prev,
            },
            None => prev,
        }
    }
}

/// The outcome of calling `property` as a static member of the given classes.
pub open spec fn static_member_outcome(r: ResolutionContext, classes: Seq<Seq<char>>, property: Seq<char>) -> OutcomeView {
    let g = static_gather(r, classes, property);
    let c = set_sorted(g.0);
    if c.len() == 1 {
        ("resolved"@, "static-class-method"@, c, Seq::empty(), false)
    } else if c.len() > 1 {
        ("ambiguous"@, "ambiguous-static-method"@, c, Seq::empty(), false)
    } else if g.1 {
        unresolved_view("static-member-not-found"@)
    } else {
        unresolved_view("missing-class-member"@)
    }
}

/// The outcome of calling `this.property` inside the class that encloses the call.
pub open spec fn private_this_outcome(r: ResolutionContext, path: Seq<char>, property: Seq<char>, call: TypeScriptCall) -> OutcomeView {
    match call.enclosing_type {
        None => unresolved_view("this-member-outside-class"@),
        Some(owner) => match lookup(r.members_by_owner@, spec_node_id("symbol"@, path, "class:"@ + owner@)) {
            None => unresolved_view("missing-class-member"@),
            Some(ms) => {
                let c = private_in(r, member_ids(ms, property));
                if c.len() == 1 {
                    ("resolved"@, "same-class-private-method"@, c, Seq::empty(), false)
                } else if c.len() > 1 {
                    ("ambiguous"@, "ambiguous-private-method"@, set_sorted(c), Seq::empty(), false)
                } else if lookup(ms@, property) is Some {
                    unresolved_view("potentially-polymorphic-this-call"@)
                } else {
                    unresolved_view("missing-class-member"@)
                }
            },
        },
    }
}

/// The outcome of resolving `name` through `import` without making it a call target;
/// the import's own type-only flag is added.
pub open spec fn import_raw(
    r: ResolutionContext,
    current: Seq<char>,
    import: TypeScriptImport,
    name: Seq<char>,
    cache: CacheView,
) -> (OutcomeView, CacheView) {
    let s = import.specifier@;
    if !seq_starts_with(s, "."@) && r.module_resolver.basis.root_config is None && spec_is_non_relative_alias(
        s,
        r.known_paths@,
    ) {
        (unresolved_view("non-relative-path-alias"@), cache)
    } else {
        match spec_resolve_import_module(current, s, r) {
            None => (external_or_unresolved(s, r), cache),
            Some(target) => {
                let o = export_outcome(r, target, name, Seq::empty(), cache);
                ((o.0.0, o.0.1, o.0.2, o.0.3, o.0.4 || import.type_only), o.1)
            },
        }
    }
}

/// The implicit constructor of `class`.
pub open spec fn implicit_constructor(class: Seq<char>) -> OutcomeView {
    ("resolved"@, "implicit-default-constructor"@, seq![class], Seq::empty(), false)
}

/// The constructor that constructing `class` runs.
pub open spec fn constructor_for(r: ResolutionContext, class: Seq<char>) -> OutcomeView {
    match lookup(r.members_by_owner@, class) {
        None => implicit_constructor(class),
        Some(ms) => {
            let cs = constructors_in(r, member_ids(ms, "constructor"@));
            if cs.len() == 1 {
                ("resolved"@, "explicit-constructor"@, cs, Seq::empty(), false)
            } else if cs.len() > 1 {
                ("ambiguous"@, "ambiguous-constructor"@, set_sorted(cs), Seq::empty(), false)
            } else {
                implicit_constructor(class)
            }
        },
    }
}

/// The constructor that constructing one of `classes` runs, where there is exactly one.
pub open spec fn class_target(r: ResolutionContext, classes: Seq<Seq<char>>) -> OutcomeView {
    if classes.len() == 0 {
        unresolved_view("constructor-target-not-class"@)
    } else if classes.len() > 1 {
        ("ambiguous"@, "ambiguous-class-binding"@, set_sorted(classes), Seq::empty(), false)
    } else {
        constructor_for(r, classes[0])
    }
}

/// The outcome of `new callee(..)` in the file at `path`, with the cache after it.
pub open spec fn constructor_outcome(
    r: ResolutionContext,
    path: Seq<char>,
    callee: Seq<char>,
    imports: Seq<TypeScriptImport>,
    call: TypeScriptCall,
    cache: CacheView,
) -> (OutcomeView, CacheView) {
    let local = match local_classes(r, path, callee) {
        Some(c) => c,
        None => Seq::empty(),
    };
    let ms = binding_imports(imports, callee);
    if call.shadowed {
        (unresolved_view("local-binding-shadowed-constructor"@), cache)
    } else if local.len() > 0 {
        (class_target(r, local), cache)
    } else if ms.len() > 1 {
        (ambiguous_view("ambiguous-import-binding"@), cache)
    } else if ms.len() == 0 {
        (unresolved_view("missing-class-binding"@), cache)
    } else if ms[0].type_only {
        (unresolved_view("type-only-constructor-binding"@), cache)
    } else {
        let t = import_target(r, path, ms[0], name_or_default(ms[0].imported_name), false, cache);
        if t.0.0 != "resolved"@ {
            t
        } else {
            (class_target(r, classes_in(t.0.2, r.symbol_kinds@)), t.1)
        }
    }
}

/// The outcome of calling `property` of the binding that `import` brings in, with the
/// cache after it.
pub open spec fn member_import_outcome(
    r: ResolutionContext,
    path: Seq<char>,
    import: TypeScriptImport,
    property: Seq<char>,
    cache: CacheView,
) -> (OutcomeView, CacheView) {
    if import.kind@ == "namespace-import"@ {
        import_target(r, path, import, property, true, cache)
    } else {
        let b = import_raw(r, path, import, name_or_default(import.imported_name), cache);
        if b.0.3.len() > 0 {
            let ms = member_outcomes(r, b.0.3, property, b.1);
            let comb = combined_view(ms.0);
            let cands = callable_view(comb.2, r.symbol_kinds@);
            if comb.0 == "resolved"@ && cands.len() == 0 {
                (unresolved_view("non-callable-export"@), ms.1)
            } else {
                ((comb.0, comb.1, cands, comb.3, comb.4), ms.1)
            }
        } else if b.0.0 != "resolved"@ {
            b
        } else {
            let classes = classes_in(b.0.2, r.symbol_kinds@);
            if classes.len() == 0 {
                (unresolved_view("static-member-on-non-class"@), b.1)
            } else if classes.len() > 1 {
                (ambiguous_view("ambiguous-class-binding"@), b.1)
            } else {
                (static_member_outcome(r, classes, property), b.1)
            }
        }
    }
}

/// The outcome of a call site of the file at `path`, with the cache after it.
pub open spec fn call_outcome(
    r: ResolutionContext,
    path: Seq<char>,
    call: TypeScriptCall,
    imports: Seq<TypeScriptImport>,
    cache: CacheView,
) -> (OutcomeView, CacheView) {
    let form = call.callee_form@;
    if call.dynamic {
        (
            unresolved_view(
                if form == "dynamic-constructor"@ {
                    "dynamic-constructor"@
                } else {
                    "dynamic-callee"@
                },
            ),
            cache,
        )
    } else {
        match call.callee {
            None => (unresolved_view("dynamic-callee"@), cache),
            Some(callee) => {
                let c = callee@;
                if form == "constructor"@ {
                    constructor_outcome(r, path, c, imports, call, cache)
                } else if form == "this-member"@ {
                    match call.receiver {
                        None => (unresolved_view("unsupported-member-call"@), cache),
                        Some(receiver) => match member_property(c, receiver@) {
                            None => (unresolved_view("computed-member-unsupported"@), cache),
                            Some(property) => if call.shadowed {
                                (unresolved_view("local-binding-shadowed-this"@), cache)
                            } else {
                                (private_this_outcome(r, path, property, call), cache)
                            },
                        },
                    }
                } else if form == "identifier"@ {
                    let ms = binding_imports(imports, c);
                    if ms.len() > 1 {
                        (ambiguous_view("ambiguous-import-binding"@), cache)
                    } else if ms.len() == 1 {
                        if call.shadowed {
                            (unresolved_view("local-binding-shadowed-import"@), cache)
                        } else if ms[0].type_only {
                            (unresolved_view("type-only-binding"@), cache)
                        } else if ms[0].kind@ == "namespace-import"@ {
                            (unresolved_view("namespace-called-as-function"@), cache)
                        } else {
                            import_target(r, path, ms[0], name_or_default(ms[0].imported_name), false, cache)
                        }
                    } else {
                        let ids = match symbol_ids(r, path, c) {
                            Some(ids) => ids,
                            None => Seq::empty(),
                        };
                        let cands = callable_view(ids, r.symbol_kinds@);
                        if cands.len() == 1 {
                            (("resolved"@, "same-module-declaration"@, cands, Seq::empty(), false), cache)
                        } else if cands.len() == 0 {
                            (unresolved_view("unresolved-identifier"@), cache)
                        } else {
                            (("ambiguous"@, "ambiguous-symbol"@, cands, Seq::empty(), false), cache)
                        }
                    }
                } else if form == "member"@ {
                    match call.receiver {
                        None => (unresolved_view("unsupported-member-call"@), cache),
                        Some(receiver) => match member_property(c, receiver@) {
                            None => (unresolved_view("unsupported-member-call"@), cache),
                            Some(property) => match local_classes(r, path, receiver@) {
                                Some(classes) => (static_member_outcome(r, classes, property), cache),
                                None => {
                                    let ms = binding_imports(imports, receiver@);
                                    if ms.len() > 1 {
                                        (ambiguous_view("ambiguous-import-binding"@), cache)
                                    } else if ms.len() == 0 {
                                        (unresolved_view("unsupported-member-call"@), cache)
                                    } else if call.shadowed {
                                        (unresolved_view("local-binding-shadowed-import"@), cache)
                                    } else if ms[0].type_only {
                                        (unresolved_view("type-only-binding"@), cache)
                                    } else {
                                        member_import_outcome(r, path, ms[0], property, cache)
                                    }
                                },
                            },
                        },
                    }
                } else {
                    (unresolved_view("unsupported-callee-form"@), cache)
                }
            },
        }
    }
}

fn symbol_ids_of(resolution: &ResolutionContext, path: &str, name: &str) -> (r: Option<Vec<String>>)
    ensures
        match r {
            Some(ids) => symbol_ids(*resolution, path@, name@) == Some(views(ids@)),
            None => symbol_ids(*resolution, path@, name@) is None,
        },
{
    match find_key(&resolution.symbols_by_path, path) {
        None => None,
        Some(k) => {
            let table = &resolution.symbols_by_path[k].1;
            match find_key(table, name) {
                None => None,
                Some(j) => Some(table[j].1.clone()),
            }
        },
    }
}

fn member_ids_of(members: &Vec<(String, Vec<String>)>, name: &str) -> (r: Vec<String>)
    ensures
        views(r@) == member_ids(*members, name@),
{
    match find_key(members, name) {
        None => Vec::new(),
        Some(j) => members[j].1.clone(),
    }
}

fn classes_of(ids: &Vec<String>, kinds: &Vec<(String, String)>) -> (r: Vec<String>)
    ensures
        views(r@) == classes_in(views(ids@), kinds@),
{
    let mut r: Vec<String> = Vec::new();
    let mut i: usize = 0;
    while i < ids.len()
        invariant
            i <= ids@.len(),
            views(r@) == classes_in(views(ids@).take(i as int), kinds@),
        decreases ids@.len() - i,
    {
        assert(views(ids@).take(i as int + 1).drop_last() =~= views(ids@).take(i as int));
        if class_node(kinds, ids[i].as_str()) {
            let ghost before = views(r@);
            r.push(ids[i].clone());
            assert(views(r@) =~= before.push(ids@[i as int]@));
        }
        i = i + 1;
    }
    assert(views(ids@).take(ids@.len() as int) =~= views(ids@));
    r
}

fn declaration_of<'a>(resolution: &'a ResolutionContext, id: &str) -> (r: Option<&'a TypeScriptDeclaration>)
    ensures
        match r {
            Some(d) => lookup(resolution.declarations_by_id@, id@) == Some(*d),
            None => lookup(resolution.declarations_by_id@, id@) is None,
        },
{
    match find_key(&resolution.declarations_by_id, id) {
        None => None,
        Some(k) => Some(&resolution.declarations_by_id[k].1),
    }
}

fn static_of(resolution: &ResolutionContext, ids: &Vec<String>) -> (r: Vec<String>)
    ensures
        views(r@) == static_in(*resolution, views(ids@)),
{
    let mut r: Vec<String> = Vec::new();
    let mut i: usize = 0;
    while i < ids.len()
        invariant
            i <= ids@.len(),
            views(r@) == static_in(*resolution, views(ids@).take(i as int)),
        decreases ids@.len() - i,
    {
        assert(views(ids@).take(i as int + 1).drop_last() =~= views(ids@).take(i as int));
        let keep = match declaration_of(resolution, ids[i].as_str()) {
            Some(d) => d.static_member,
            None => false,
        };
        if keep {
            let ghost before = views(r@);
            r.push(ids[i].clone());
            assert(views(r@) =~= before.push(ids@[i as int]@));
        }
        i = i + 1;
    }
    assert(views(ids@).take(ids@.len() as int) =~= views(ids@));
    r
}

fn private_of(resolution: &ResolutionContext, ids: &Vec<String>) -> (r: Vec<String>)
    ensures
        views(r@) == private_in(*resolution, views(ids@)),
{
    let mut r: Vec<String> = Vec::new();
    let mut i: usize = 0;
    while i < ids.len()
        invariant
            i <= ids@.len(),
            views(r@) == private_in(*resolution, views(ids@).take(i as int)),
        decreases ids@.len() - i,
    {
        assert(views(ids@).take(i as int + 1).drop_last() =~= views(ids@).take(i as int));
        let keep = match declaration_of(resolution, ids[i].as_str()) {
            Some(d) => !d.static_member && str_eq(d.visibility.as_str(), "private") && !str_eq(
                d.kind.as_str(),
                "constructor",
            ),
            None => false,
        };
        if keep {
            let ghost before = views(r@);
            r.push(ids[i].clone());
            assert(views(r@) =~= before.push(ids@[i as int]@));
        }
        i = i + 1;
    }
    assert(views(ids@).take(ids@.len() as int) =~= views(ids@));
    r
}

fn constructors_of(resolution: &ResolutionContext, ids: &Vec<String>) -> (r: Vec<String>)
    ensures
        views(r@) == constructors_in(*resolution, views(ids@)),
{
    let mut r: Vec<String> = Vec::new();
    let mut i: usize = 0;
    while i < ids.len()
        invariant
            i <= ids@.len(),
            views(r@) == constructors_in(*resolution, views(ids@).take(i as int)),
        decreases ids@.len() - i,
    {
        assert(views(ids@).take(i as int + 1).drop_last() =~= views(ids@).take(i as int));
        let keep = match declaration_of(resolution, ids[i].as_str()) {
            Some(d) => str_eq(d.kind.as_str(), "constructor"),
            None => false,
        };
        if keep {
            let ghost before = views(r@);
            r.push(ids[i].clone());
            assert(views(r@) =~= before.push(ids@[i as int]@));
        }
        i = i + 1;
    }
    assert(views(ids@).take(ids@.len() as int) =~= views(ids@));
    r
}

/// The classes that the file at `path` declares under `name`, where it declares the name.
pub fn local_class_candidates(path: &str, name: &str, resolution: &ResolutionContext) -> (r: Option<Vec<String>>)
    ensures
        match r {
            Some(c) => local_classes(*resolution, path@, name@) == Some(views(c@)),
            None => local_classes(*resolution, path@, name@) is None,
        },
{
    match symbol_ids_of(resolution, path, name) {
        None => None,
        Some(ids) => Some(classes_of(&ids, &resolution.symbol_kinds)),
    }
}

/// The number of imports that bind `local` as a value name, and the first of them.
pub fn find_binding_imports(imports: &[TypeScriptImport], local: &str) -> (r: (usize, Option<usize>))
    ensures
        r.0 == binding_imports(imports@, local@).len(),
        match r.1 {
            Some(k) => k < imports@.len() && r.0 > 0 && imports@[k as int] == binding_imports(imports@, local@)[0],
            None => r.0 == 0,
        },
{
    let mut count: usize = 0;
    let mut first: Option<usize> = None;
    let mut i: usize = 0;
    while i < imports.len()
        invariant
            i <= imports@.len(),
            count == binding_imports(imports@.take(i as int), local@).len(),
            count <= i,
            match first {
                Some(k) => k < imports@.len() && count > 0 && imports@[k as int] == binding_imports(
                    imports@.take(i as int),
                    local@,
                )[0],
                None => count == 0,
            },
        decreases imports@.len() - i,
    {
        assert(imports@.take(i as int + 1).drop_last() =~= imports@.take(i as int));
        assert(imports@.take(i as int + 1).last() == imports@[i as int]);
        let im = &imports[i];
        if opt_str_eq(&im.local_name, local) && !str_eq(im.kind.as_str(), "re-export") && !str_eq(
            im.kind.as_str(),
            "side-effect-import",
        ) {
            if first.is_none() {
                first = Some(i);
            }
            count = count + 1;
        }
        i = i + 1;
    }
    assert(imports@.take(imports@.len() as int) =~= imports@);
    (count, first)
}

/// The property of a member callee `receiver.property`.
pub fn member_property_of(callee: &str, receiver: &str) -> (r: Option<String>)
    ensures
        match r {
            Some(p) => member_property(callee@, receiver@) == Some(p@),
            None => member_property(callee@, receiver@) is None,
        },
{
    if !starts_with(callee, receiver) {
        return None;
    }
    let cs = chars_of(callee);
    let rs = chars_of(receiver);
    if cs.len() > rs.len() && cs[rs.len()] == '.' {
        Some(string_from(&cs, rs.len() + 1))
    } else {
        None
    }
}

fn imported_name_or_default(import: &TypeScriptImport) -> (r: &str)
    ensures
        r@ == name_or_default(import.imported_name),
{
    match &import.imported_name {
        Some(n) => n.as_str(),
        None => "default",
    }
}

/// Calls `property` as a static member of the given classes.
pub fn resolve_static_member(classes: &Vec<String>, property: &str, resolution: &ResolutionContext) -> (r: ResolutionOutcome)
    ensures
        outcome_view(r) == static_member_outcome(*resolution, views(classes@), property@),
{
    let mut candidates: Vec<String> = Vec::new();
    let mut saw_member = false;
    let mut i: usize = 0;
    while i < classes.len()
        invariant
            i <= classes@.len(),
            (views(candidates@), saw_member) == static_gather(*resolution, views(classes@).take(i as int), property@),
        decreases classes@.len() - i,
    {
        assert(views(classes@).take(i as int + 1).drop_last() =~= views(classes@).take(i as int));
        match find_key(&resolution.members_by_owner, classes[i].as_str()) {
            Some(k) => {
                let members = &resolution.members_by_owner[k].1;
                match find_key(members, property) {
                    Some(j) => {
                        saw_member = true;
                        let kept = static_of(resolution, &members[j].1);
                        append_all(&mut candidates, &kept);
                    },
                    None => {},
                }
            },
            None => {},
        }
        i = i + 1;
    }
    assert(views(classes@).take(classes@.len() as int) =~= views(classes@));
    let ghost gathered = views(candidates@);
    let n = candidates.len();
    if n == 0 {
        assert(set_sorted(gathered).len() == 0) by {
            assert(gathered =~= Seq::<Seq<char>>::empty());
            lemma_sorted_is_set_sorted(Seq::empty(), gathered);
        }
        return unresolved(if saw_member {
            "static-member-not-found"
        } else {
            "missing-class-member"
        });
    }
    let c = unresolved_with_candidates("ambiguous-static-method", "ambiguous", candidates);
    proof {
        lemma_sorted_is_set_sorted(views(c.candidates@), gathered);
        assert(views(c.namespace_modules@) =~= Seq::<Seq<char>>::empty());
        assert(gathered.to_set().contains(gathered[0]));
        if views(c.candidates@).len() == 0 {
            assert(views(c.candidates@).to_set() =~= Set::<Seq<char>>::empty());
        }
    }
    if c.candidates.len() == 1 {
        ResolutionOutcome {
            status: "resolved".to_string(),
            reason: "static-class-method".to_string(),
            candidates: c.candidates,
            namespace_modules: Vec::new(),
            type_only: false,
        }
    } else {
        c
    }
}

/// Calls `this.property` inside the class that encloses the call: a private instance
/// method of that class, where there is exactly one.
pub fn resolve_private_this_member(path: &str, property: &str, call: &TypeScriptCall, resolution: &ResolutionContext) -> (r: ResolutionOutcome)
    ensures
        outcome_view(r) == private_this_outcome(*resolution, path@, property@, *call),
{
    let owner_name = match &call.enclosing_type {
        None => {
            return unresolved("this-member-outside-class");
        },
        Some(o) => o,
    };
    let mut qualified = "class:".to_string();
    qualified.append(owner_name.as_str());
    let owner_id = node_id("symbol", path, qualified.as_str());
    let members = match find_key(&resolution.members_by_owner, owner_id.as_str()) {
        None => {
            return unresolved("missing-class-member");
        },
        Some(k) => &resolution.members_by_owner[k].1,
    };
    let ids = member_ids_of(members, property);
    let candidates = private_of(resolution, &ids);
    if candidates.len() == 1 {
        return ResolutionOutcome {
            status: "resolved".to_string(),
            reason: "same-class-private-method".to_string(),
            candidates,
            namespace_modules: Vec::new(),
            type_only: false,
        };
    }
    if candidates.len() > 1 {
        let ghost cv = views(candidates@);
        let c = unresolved_with_candidates("ambiguous-private-method", "ambiguous", candidates);
        proof {
            lemma_sorted_is_set_sorted(views(c.candidates@), cv);
            assert(views(c.namespace_modules@) =~= Seq::<Seq<char>>::empty());
        }
        return c;
    }
    if find_key(members, property).is_some() {
        unresolved("potentially-polymorphic-this-call")
    } else {
        unresolved("missing-class-member")
    }
}

/// Resolves `name` through `import` without making it a call target; the import's own
/// type-only flag is added.
pub fn resolve_import_raw(
    current_path: &str,
    import: &TypeScriptImport,
    imported_name: &str,
    resolution: &ResolutionContext,
    export_cache: &mut Vec<((String, String), ResolutionOutcome)>,
) -> (r: ResolutionOutcome)
    requires
        resolution.module_resolver.wf(),
    ensures
        (outcome_view(r), cache_views(final(export_cache)@)) == import_raw(
            *resolution,
            current_path@,
            *import,
            imported_name@,
            cache_views(old(export_cache)@),
        ),
{
    let s = import.specifier.as_str();
    if !starts_with(s, ".") && resolution.module_resolver.basis.root_config.is_none() && is_non_relative_alias(
        s,
        resolution.known_paths.as_slice(),
    ) {
        return unresolved("non-relative-path-alias");
    }
    let target = match resolve_import_module(current_path, s, resolution) {
        None => {
            return resolve_external_or_unresolved(s, resolution);
        },
        Some(t) => t,
    };
    let mut stack: Vec<(String, String)> = Vec::new();
    assert(key_views(stack@) =~= Seq::empty());
    let mut result = resolve_export(target.as_str(), imported_name, resolution, &mut stack, export_cache);
    result.type_only = result.type_only || import.type_only;
    result
}

fn class_target_of(classes: &Vec<String>, resolution: &ResolutionContext) -> (r: ResolutionOutcome)
    ensures
        outcome_view(r) == class_target(*resolution, views(classes@)),
{
    if classes.len() == 0 {
        return unresolved("constructor-target-not-class");
    }
    if classes.len() > 1 {
        let ghost cv = views(classes@);
        let c = unresolved_with_candidates("ambiguous-class-binding", "ambiguous", classes.clone());
        proof {
            lemma_sorted_is_set_sorted(views(c.candidates@), cv);
            assert(views(c.namespace_modules@) =~= Seq::<Seq<char>>::empty());
        }
        return c;
    }
    let class = &classes[0];
    let implicit = ResolutionOutcome {
        status: "resolved".to_string(),
        reason: "implicit-default-constructor".to_string(),
        candidates: vec![class.clone()],
        namespace_modules: Vec::new(),
        type_only: false,
    };
    assert(views(implicit.candidates@) =~= seq![class@]);
    let members = match find_key(&resolution.members_by_owner, class.as_str()) {
        None => {
            return implicit;
        },
        Some(k) => &resolution.members_by_owner[k].1,
    };
    let ids = member_ids_of(members, "constructor");
    let constructors = constructors_of(resolution, &ids);
    if constructors.len() == 1 {
        ResolutionOutcome {
            status: "resolved".to_string(),
            reason: "explicit-constructor".to_string(),
            candidates: constructors,
            namespace_modules: Vec::new(),
            type_only: false,
        }
    } else if constructors.len() > 1 {
        let ghost cv = views(constructors@);
        let c = unresolved_with_candidates("ambiguous-constructor", "ambiguous", constructors);
        proof {
            lemma_sorted_is_set_sorted(views(c.candidates@), cv);
            assert(views(c.namespace_modules@) =~= Seq::<Seq<char>>::empty());
        }
        c
    } else {
        implicit
    }
}

/// Resolves `new callee(..)` in the file at `path`: a class declared there or imported,
/// and its constructor.
pub fn resolve_constructor_call(
    path: &str,
    callee: &str,
    imports: &[TypeScriptImport],
    call: &TypeScriptCall,
    resolution: &ResolutionContext,
    export_cache: &mut Vec<((String, String), ResolutionOutcome)>,
) -> (r: ResolutionOutcome)
    requires
        resolution.module_resolver.wf(),
    ensures
        (outcome_view(r), cache_views(final(export_cache)@)) == constructor_outcome(
            *resolution,
            path@,
            callee@,
            imports@,
            *call,
            cache_views(old(export_cache)@),
        ),
{
    if call.shadowed {
        return unresolved("local-binding-shadowed-constructor");
    }
    let local = match local_class_candidates(path, callee, resolution) {
        Some(c) => c,
        None => Vec::new(),
    };
    assert(views(local@) == match local_classes(*resolution, path@, callee@) {
        Some(c) => c,
        None => Seq::<Seq<char>>::empty(),
    });
    if local.len() > 0 {
        return class_target_of(&local, resolution);
    }
    let (count, first) = find_binding_imports(imports, callee);
    if count > 1 {
        return unresolved_with_status("ambiguous-import-binding", "ambiguous");
    }
    let import = match first {
        None => {
            return unresolved("missing-class-binding");
        },
        Some(k) => &imports[k],
    };
    if import.type_only {
        return unresolved("type-only-constructor-binding");
    }
    let target = resolve_import_target(
        path,
        import,
        imported_name_or_default(import),
        false,
        resolution,
        export_cache,
    );
    if !str_eq(target.status.as_str(), "resolved") {
        return target;
    }
    let classes = classes_of(&target.candidates, &resolution.symbol_kinds);
    class_target_of(&classes, resolution)
}

fn callable_of(ids: Vec<String>, kinds: &Vec<(String, String)>) -> (r: Vec<String>)
    ensures
        views(r@) == callable_view(views(ids@), kinds@),
{
    let ghost iv = views(ids@);
    let r = callable_candidates(ids, kinds);
    proof {
        let c = callable_view(iv, kinds@);
        assert(strictly_sorted(c) && c.to_set() == iv.to_set().filter(|x: Seq<char>| is_callable(kinds@, x)));
        lemma_strictly_sorted_unique(views(r@), c);
    }
    r
}

fn resolve_member_import(
    path: &str,
    import: &TypeScriptImport,
    property: &str,
    resolution: &ResolutionContext,
    export_cache: &mut Vec<((String, String), ResolutionOutcome)>,
) -> (r: ResolutionOutcome)
    requires
        resolution.module_resolver.wf(),
    ensures
        (outcome_view(r), cache_views(final(export_cache)@)) == member_import_outcome(
            *resolution,
            path@,
            *import,
            property@,
            cache_views(old(export_cache)@),
        ),
{
    if str_eq(import.kind.as_str(), "namespace-import") {
        return resolve_import_target(path, import, property, true, resolution, export_cache);
    }
    let binding = resolve_import_raw(path, import, imported_name_or_default(import), resolution, export_cache);
    if binding.namespace_modules.len() > 0 {
        let namespace = namespace_members(&binding.namespace_modules, property, resolution, export_cache);
        let ResolutionOutcome { status, reason, candidates, namespace_modules, type_only } = namespace;
        let candidates = callable_of(candidates, &resolution.symbol_kinds);
        if str_eq(status.as_str(), "resolved") && candidates.len() == 0 {
            return unresolved("non-callable-export");
        }
        return ResolutionOutcome { status, reason, candidates, namespace_modules, type_only };
    }
    if !str_eq(binding.status.as_str(), "resolved") {
        return binding;
    }
    let classes = classes_of(&binding.candidates, &resolution.symbol_kinds);
    if classes.len() == 0 {
        return unresolved("static-member-on-non-class");
    }
    if classes.len() > 1 {
        return unresolved_with_status("ambiguous-class-binding", "ambiguous");
    }
    resolve_static_member(&classes, property, resolution)
}

/// Resolves one call site of the file at `path`: what it calls or constructs, or why
/// that stays open. Reads and fills the export cache.
pub fn resolve_call(
    path: &str,
    call: &TypeScriptCall,
    imports: &[TypeScriptImport],
    resolution: &ResolutionContext,
    export_cache: &mut Vec<((String, String), ResolutionOutcome)>,
) -> (r: ResolutionOutcome)
    requires
        resolution.module_resolver.wf(),
    ensures
        (outcome_view(r), cache_views(final(export_cache)@)) == call_outcome(
            *resolution,
            path@,
            *call,
            imports@,
            cache_views(old(export_cache)@),
        ),
{
    if call.dynamic {
        return unresolved(
            if str_eq(call.callee_form.as_str(), "dynamic-constructor") {
                "dynamic-constructor"
            } else {
                "dynamic-callee"
            },
        );
    }
    let callee = match &call.callee {
        None => {
            return unresolved("dynamic-callee");
        },
        Some(c) => c.as_str(),
    };
    let form = call.callee_form.as_str();
    if str_eq(form, "constructor") {
        return resolve_constructor_call(path, callee, imports, call, resolution, export_cache);
    }
    if str_eq(form, "this-member") {
        let receiver = match &call.receiver {
            None => {
                return unresolved("unsupported-member-call");
            },
            Some(r) => r.as_str(),
        };
        let property = match member_property_of(callee, receiver) {
            None => {
                return unresolved("computed-member-unsupported");
            },
            Some(p) => p,
        };
        if call.shadowed {
            return unresolved("local-binding-shadowed-this");
        }
        return resolve_private_this_member(path, property.as_str(), call, resolution);
    }
    if str_eq(form, "identifier") {
        let (count, first) = find_binding_imports(imports, callee);
        if count > 1 {
            return unresolved_with_status("ambiguous-import-binding", "ambiguous");
        }
        match first {
            Some(k) => {
                let import = &imports[k];
                if call.shadowed {
                    return unresolved("local-binding-shadowed-import");
                }
                if import.type_only {
                    return unresolved("type-only-binding");
                }
                if str_eq(import.kind.as_str(), "namespace-import") {
                    return unresolved("namespace-called-as-function");
                }
                return resolve_import_target(
                    path,
                    import,
                    imported_name_or_default(import),
                    false,
                    resolution,
                    export_cache,
                );
            },
            None => {},
        }
        let ids = match symbol_ids_of(resolution, path, callee) {
            Some(ids) => ids,
            None => Vec::new(),
        };
        assert(views(ids@) == match symbol_ids(*resolution, path@, callee@) {
            Some(ids) => ids,
            None => Seq::<Seq<char>>::empty(),
        });
        let candidates = callable_of(ids, &resolution.symbol_kinds);
        return unique_or_unresolved(candidates, "same-module-declaration");
    }
    if str_eq(form, "member") {
        let receiver = match &call.receiver {
            None => {
                return unresolved("unsupported-member-call");
            },
            Some(r) => r.as_str(),
        };
        let property = match member_property_of(callee, receiver) {
            None => {
                return unresolved("unsupported-member-call");
            },
            Some(p) => p,
        };
        match local_class_candidates(path, receiver, resolution) {
            Some(classes) => {
                return resolve_static_member(&classes, property.as_str(), resolution);
            },
            None => {},
        }
        let (count, first) = find_binding_imports(imports, receiver);
        if count > 1 {
            return unresolved_with_status("ambiguous-import-binding", "ambiguous");
        }
        let import = match first {
            None => {
                return unresolved("unsupported-member-call");
            },
            Some(k) => &imports[k],
        };
        if call.shadowed {
            return unresolved("local-binding-shadowed-import");
        }
        if import.type_only {
            return unresolved("type-only-binding");
        }
        return resolve_member_import(path, import, property.as_str(), resolution, export_cache);
    }
    unresolved("unsupported-callee-form")
}

} // verus!
