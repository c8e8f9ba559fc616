//! The export table of each module: what each exported name of a file binds, in the
//! order of the bindings' `Debug` texts, without repeats.

use vstd::prelude::*;

use super::calls::{find_key, lemma_lookup_push, lemma_lookup_update, lookup, name_or_default};
use super::exports::{bindings_for, exports_of, ExportBinding};
use crate::model::typescript::{TypeScriptExport, TypeScriptFacts, TypeScriptImport};
use crate::order::{lemma_str_lt_total, str_less, str_lt};
use crate::text::{opt_str_eq, str_eq, views};

verus! {

broadcast use vstd::string::group_string_axioms;

/// A binding by its plain values: the variant's name, the source module, the forwarded
/// name, the bound ids, and whether it binds types only.
pub type BindingView = (Seq<char>, Seq<char>, Seq<char>, Seq<Seq<char>>, bool);

/// The plain values of a binding.
pub open spec fn binding_view(b: ExportBinding) -> BindingView {
    match b {
        ExportBinding::Local(ids) => ("Local"@, Seq::empty(), Seq::empty(), views(ids@), false),
        ExportBinding::Forward { source, name, type_only } => ("Forward"@, source@, name@, Seq::empty(), type_only),
        ExportBinding::Star { source, type_only } => ("Star"@, source@, Seq::empty(), Seq::empty(), type_only),
        ExportBinding::Namespace { source, type_only } => ("Namespace"@, source@, Seq::empty(), Seq::empty(), type_only),
        ExportBinding::TypeOnly { ids } => ("TypeOnly"@, Seq::empty(), Seq::empty(), views(ids@), false),
    }
}

/// The plain values of each binding.
pub open spec fn binding_views(bs: Seq<ExportBinding>) -> Seq<BindingView> {
    bs.map_values(|b: ExportBinding| binding_view(b))
}

/// The `Debug` text of the binding with these plain values, as the derived `Debug` of
/// `ExportBinding` writes it.
pub uninterp spec fn export_binding_debug(
    kind: Seq<char>,
    source: Seq<char>,
    name: Seq<char>,
    ids: Seq<Seq<char>>,
    type_only: bool,
) -> Seq<char>;

/// The `Debug` text of a binding by its plain values.
pub open spec fn binding_debug(b: BindingView) -> Seq<char> {
    export_binding_debug(b.0, b.1, b.2, b.3, b.4)
}

/// The `Debug` text of a binding.
///
/// Formats the binding with its derived `Debug` (`format!("{:?}")`); the text depends on
/// the binding's variant and fields alone, which `binding_view` holds. What the text is
/// is left unsaid.
#[verifier::external_body]
fn binding_debug_text(b: &ExportBinding) -> (r: String)
    ensures
        r@ == export_binding_debug(
            binding_view(*b).0,
            binding_view(*b).1,
            binding_view(*b).2,
            binding_view(*b).3,
            binding_view(*b).4,
        ),
{
    format!("{:?}", b)
}

/// `s` with `b` inserted before the first binding whose text sorts after `b`'s.
pub open spec fn insert_stable(s: Seq<BindingView>, b: BindingView) -> Seq<BindingView>
    decreases s.len(),
{
    if s.len() == 0 {
        seq![b]
    } else if str_lt(binding_debug(b), binding_debug(s[0])) {
        seq![b] + s
    } else {
        seq![s[0]] + insert_stable(s.drop_first(), b)
    }
}

/// The bindings in the order of their texts, bindings with equal texts in their given
/// order (a stable sort).
pub open spec fn stable_sort(s: Seq<BindingView>) -> Seq<BindingView>
    decreases s.len(),
{
    if s.len() == 0 {
        Seq::empty()
    } else {
        insert_stable(stable_sort(s.drop_last()), s.last())
    }
}

/// The bindings without a binding equal to the one kept before it.
pub open spec fn dedup_adjacent(s: Seq<BindingView>) -> Seq<BindingView>
    decreases s.len(),
{
    if s.len() == 0 {
        Seq::empty()
    } else {
        let p = dedup_adjacent(s.drop_last());
        if p.len() > 0 && p.last() == s.last() {
            p
        } else {
            p.push(s.last())
        }
    }
}

/// The bindings of one name as the table keeps them: sorted by text, then without
/// adjacent repeats.
pub open spec fn normalize(s: Seq<BindingView>) -> Seq<BindingView> {
    dedup_adjacent(stable_sort(s))
}

fn binding_same(a: &ExportBinding, b: &ExportBinding) -> (r: bool)
    ensures
        r == (binding_view(*a) == binding_view(*b)),
{
    match (a, b) {
        (ExportBinding::Local(x), ExportBinding::Local(y)) => same_strings(x, y),
        (ExportBinding::TypeOnly { ids: x }, ExportBinding::TypeOnly { ids: y }) => same_strings(x, y),
        (
            ExportBinding::Forward { source: s1, name: n1, type_only: t1 },
            ExportBinding::Forward { source: s2, name: n2, type_only: t2 },
        ) => str_eq(s1.as_str(), s2.as_str()) && str_eq(n1.as_str(), n2.as_str()) && *t1 == *t2,
        (ExportBinding::Star { source: s1, type_only: t1 }, ExportBinding::Star { source: s2, type_only: t2 }) => str_eq(
            s1.as_str(),
            s2.as_str(),
        ) && *t1 == *t2,
        (
            ExportBinding::Namespace { source: s1, type_only: t1 },
            ExportBinding::Namespace { source: s2, type_only: t2 },
        ) => str_eq(s1.as_str(), s2.as_str()) && *t1 == *t2,
        _ => {
            proof {
                reveal_strlit("Local");
                reveal_strlit("Forward");
                reveal_strlit("Star");
                reveal_strlit("Namespace");
                reveal_strlit("TypeOnly");
                assert("Local"@[0] == 'L' && "Forward"@[0] == 'F' && "Star"@[0] == 'S');
                assert("Namespace"@[0] == 'N' && "TypeOnly"@[0] == 'T');
                assert(binding_view(*a).0[0] != binding_view(*b).0[0]);
            }
            false
        },
    }
}

fn same_strings(a: &Vec<String>, b: &Vec<String>) -> (r: bool)
    ensures
        r == (views(a@) == views(b@)),
{
    if a.len() != b.len() {
        return false;
    }
    let mut i: usize = 0;
    while i < a.len()
        invariant
            i <= a@.len(),
            a@.len() == b@.len(),
            forall|k: int| 0 <= k < i ==> a@[k]@ == b@[k]@,
        decreases a@.len() - i,
    {
        if !str_eq(a[i].as_str(), b[i].as_str()) {
            assert(views(a@)[i as int] != views(b@)[i as int]);
            return false;
        }
        i = i + 1;
    }
    assert(views(a@) =~= views(b@));
    true
}

proof fn lemma_insert_stable_at(s: Seq<BindingView>, b: BindingView, pos: int)
    requires
        0 <= pos <= s.len(),
        forall|k: int| 0 <= k < pos ==> !str_lt(binding_debug(b), binding_debug(#[trigger] s[k])),
        pos < s.len() ==> str_lt(binding_debug(b), binding_debug(s[pos])),
    ensures
        insert_stable(s, b) == s.take(pos).push(b) + s.skip(pos),
    decreases s.len(),
{
    if s.len() == 0 {
        assert(s.take(pos).push(b) + s.skip(pos) =~= seq![b]);
    } else if pos == 0 {
        assert(s.take(0).push(b) + s.skip(0) =~= seq![b] + s);
    } else {
        assert forall|k: int| 0 <= k < pos - 1 implies !str_lt(binding_debug(b), binding_debug(#[trigger] s.drop_first()[k])) by {
            assert(s.drop_first()[k] == s[k + 1]);
        }
        lemma_insert_stable_at(s.drop_first(), b, pos - 1);
        assert(seq![s[0]] + (s.drop_first().take(pos - 1).push(b) + s.drop_first().skip(pos - 1)) =~= s.take(pos).push(b)
            + s.skip(pos));
    }
}

/// The bindings sorted stably by their `Debug` texts, then without adjacent repeats.
pub fn normalize_bindings(bindings: Vec<ExportBinding>) -> (r: Vec<ExportBinding>)
    ensures
        binding_views(r@) == normalize(binding_views(bindings@)),
{
    let ghost input = binding_views(bindings@);
    let mut sorted: Vec<ExportBinding> = Vec::new();
    let mut keys: Vec<String> = Vec::new();
    let mut rest = bindings;
    let ghost rest0 = rest@;
    let ghost mut taken: Seq<ExportBinding> = Seq::empty();
    assert(input.take(0) =~= Seq::<BindingView>::empty());
    assert(binding_views(sorted@) =~= Seq::<BindingView>::empty());
    while rest.len() > 0
        invariant
            rest@.len() + taken.len() == rest0.len(),
            input == binding_views(rest0),
            rest0 == taken + rest@,
            binding_views(sorted@) == stable_sort(input.take(taken.len() as int)),
            keys@.len() == sorted@.len(),
            forall|k: int| 0 <= k < keys@.len() ==> (#[trigger] keys@[k])@ == binding_debug(binding_view(sorted@[k])),
        decreases rest@.len(),
    {
        let b = rest.remove(0);
        let ghost n = taken.len();
        assert(rest0[n as int] == b);
        let key = binding_debug_text(&b);
        let mut pos: usize = 0;
        let ghost sv = binding_views(sorted@);
        while pos < sorted.len() && !str_less(key.as_str(), keys[pos].as_str())
            invariant
                pos <= sorted@.len(),
                keys@.len() == sorted@.len(),
                sv == binding_views(sorted@),
                forall|k: int| 0 <= k < keys@.len() ==> (#[trigger] keys@[k])@ == binding_debug(binding_view(sorted@[k])),
                key@ == binding_debug(binding_view(b)),
                forall|k: int| 0 <= k < pos ==> !str_lt(binding_debug(binding_view(b)), binding_debug(#[trigger] sv[k])),
            decreases sorted@.len() - pos,
        {
            assert(sv[pos as int] == binding_view(sorted@[pos as int]));
            pos = pos + 1;
        }
        proof {
            if pos < sorted@.len() {
                assert(sv[pos as int] == binding_view(sorted@[pos as int]));
            }
            lemma_insert_stable_at(sv, binding_view(b), pos as int);
            assert(input.take(n as int + 1).drop_last() =~= input.take(n as int));
            assert(input.take(n as int + 1).last() == binding_view(b));
        }
        let ghost bv = binding_view(b);
        sorted.insert(pos, b);
        keys.insert(pos, key);
        assert(binding_views(sorted@) =~= sv.take(pos as int).push(bv) + sv.skip(pos as int));
        assert forall|k: int| 0 <= k < keys@.len() implies (#[trigger] keys@[k])@ == binding_debug(binding_view(sorted@[k])) by {
            if k < pos {
            } else if k > pos {
            }
        }
        proof {
            taken = taken.push(rest0[n as int]);
        }
        assert(rest0 =~= taken + rest@);
    }
    assert(taken =~= rest0);
    assert(input.take(input.len() as int) =~= input);
    let ghost st = binding_views(sorted@);
    let mut out: Vec<ExportBinding> = Vec::new();
    let mut i: usize = 0;
    let n = sorted.len();
    let mut left = sorted;
    let ghost left0 = left@;
    assert(st.take(0) =~= Seq::<BindingView>::empty());
    assert(binding_views(out@) =~= Seq::<BindingView>::empty());
    while i < n
        invariant
            n == left0.len(),
            i <= n,
            left@ == left0.skip(i as int),
            st == binding_views(left0),
            binding_views(out@) == dedup_adjacent(st.take(i as int)),
        decreases n - i,
    {
        let b = left.remove(0);
        assert(left0[i as int] == b);
        assert(st.take(i as int + 1).drop_last() =~= st.take(i as int));
        assert(st.take(i as int + 1).last() == binding_view(b));
        let repeat = out.len() > 0 && binding_same(&out[out.len() - 1], &b);
        if !repeat {
            let ghost ob = binding_views(out@);
            let ghost bv = binding_view(b);
            out.push(b);
            assert(binding_views(out@) =~= ob.push(bv));
        } else {
            assert(binding_views(out@).last() == binding_view(out@[out@.len() - 1]));
        }
        assert(left@ =~= left0.skip(i as int + 1));
        i = i + 1;
    }
    assert(st.take(n as int) =~= st);
    out
}

/// The first import that binds `local` as a value name, if any.
pub open spec fn first_binding_import(imports: Seq<TypeScriptImport>, local: Seq<char>) -> Option<TypeScriptImport>
    decreases imports.len(),
{
    if imports.len() == 0 {
        None
    } else {
        let i = imports[0];
        if i.local_name matches Some(n) && n@ == local && i.kind@ != "side-effect-import"@ && i.kind@ != "re-export"@
            && !i.type_only {
            Some(i)
        } else {
            first_binding_import(imports.drop_first(), local)
        }
    }
}

/// What one export of a file binds: a re-export of another module, the file's own
/// declarations of the local name, or the import that binds the local name.
pub open spec fn export_binding(
    imports: Seq<TypeScriptImport>,
    e: TypeScriptExport,
    locals: Option<Vec<(String, Vec<String>)>>,
) -> Option<BindingView> {
    match e.source {
        Some(src) => Some(
            if e.kind@ == "namespace-re-export"@ {
                ("Namespace"@, src@, Seq::empty(), Seq::empty(), e.type_only)
            } else if e.exported_name@ == "*"@ {
                ("Star"@, src@, Seq::empty(), Seq::empty(), e.type_only)
            } else {
                (
                    "Forward"@,
                    src@,
                    match e.local_name {
                        Some(l) => l@,
                        None => e.exported_name@,
                    },
                    Seq::empty(),
                    e.type_only,
                )
            },
        ),
        None => match e.local_name {
            None => None,
            Some(l) => {
                let targets = match locals {
                    Some(t) => lookup(t@, l@),
                    None => None,
                };
                match targets {
                    Some(ids) => Some(
                        if e.type_only {
                            ("TypeOnly"@, Seq::empty(), Seq::empty(), views(ids@), false)
                        } else {
                            ("Local"@, Seq::empty(), Seq::empty(), views(ids@), false)
                        },
                    ),
                    None => match first_binding_import(imports, l@) {
                        Some(i) => {
                            let t = e.type_only || i.type_only;
                            Some(
                                if i.kind@ == "namespace-import"@ {
                                    ("Namespace"@, i.specifier@, Seq::empty(), Seq::empty(), t)
                                } else {
                                    ("Forward"@, i.specifier@, name_or_default(i.imported_name), Seq::empty(), t)
                                },
                            )
                        },
                        None => None,
                    },
                }
            },
        },
    }
}

/// The name table with `b` added last under `name`.
pub open spec fn add_binding(inner: Map<Seq<char>, Seq<BindingView>>, name: Seq<char>, b: BindingView) -> Map<Seq<char>, Seq<BindingView>> {
    inner.insert(
        name,
        (if inner.contains_key(name) {
            inner[name]
        } else {
            Seq::empty()
        }).push(b),
    )
}

/// The name table after the first exports of a file.
pub open spec fn fact_bindings(
    inner: Map<Seq<char>, Seq<BindingView>>,
    imports: Seq<TypeScriptImport>,
    exports: Seq<TypeScriptExport>,
    locals: Option<Vec<(String, Vec<String>)>>,
) -> Map<Seq<char>, Seq<BindingView>>
    decreases exports.len(),
{
    if exports.len() == 0 {
        inner
    } else {
        let prev = fact_bindings(inner, imports, exports.drop_last(), locals);
        match export_binding(imports, exports.last(), locals) {
            Some(b) => add_binding(prev, exports.last().exported_name@, b),
            None => prev,
        }
    }
}

/// The export table after the first facts: each file's names with their bindings, kept
/// in the order of their texts without adjacent repeats.
pub open spec fn module_table(
    facts: Seq<TypeScriptFacts>,
    symbols: Seq<(String, Vec<(String, Vec<String>)>)>,
) -> Map<Seq<char>, Map<Seq<char>, Seq<BindingView>>>
    decreases facts.len(),
{
    if facts.len() == 0 {
        Map::empty()
    } else {
        let prev = module_table(facts.drop_last(), symbols);
        let f = facts.last();
        let p = f.path@;
        let inner0 = if prev.contains_key(p) {
            prev[p]
        } else {
            Map::empty()
        };
        let inner1 = fact_bindings(inner0, f.imports@, f.exports@, lookup(symbols, p));
        prev.insert(p, inner1.map_values(|s: Seq<BindingView>| normalize(s)))
    }
}

/// A name table holds the bindings of the map.
pub open spec fn inner_holds(t: Seq<(String, Vec<ExportBinding>)>, m: Map<Seq<char>, Seq<BindingView>>) -> bool {
    &&& forall|n: Seq<char>| #[trigger] lookup(t, n) is Some <==> m.contains_key(n)
    &&& forall|n: Seq<char>| #[trigger] lookup(t, n) is Some ==> binding_views(lookup(t, n).unwrap()@) == m[n]
}

/// The export table holds the map.
pub open spec fn table_holds(v: Seq<(String, Vec<(String, Vec<ExportBinding>)>)>, m: Map<Seq<char>, Map<Seq<char>, Seq<BindingView>>>) -> bool {
    &&& forall|p: Seq<char>| #[trigger] lookup(v, p) is Some <==> m.contains_key(p)
    &&& forall|p: Seq<char>| #[trigger] lookup(v, p) is Some ==> inner_holds(lookup(v, p).unwrap()@, m[p])
}

proof fn lemma_lookup_absent<V>(s: Seq<(String, V)>, k: Seq<char>)
    requires
        lookup(s, k) is None,
    ensures
        forall|j: int| 0 <= j < s.len() ==> (#[trigger] s[j]).0@ != k,
    decreases s.len(),
{
    if s.len() > 0 {
        lemma_lookup_absent(s.drop_first(), k);
        assert forall|j: int| 0 <= j < s.len() implies (#[trigger] s[j]).0@ != k by {
            if j > 0 {
                assert(s[j] == s.drop_first()[j - 1]);
            }
        }
    }
}

proof fn lemma_exports_of_lookup(v: Seq<(String, Vec<(String, Vec<ExportBinding>)>)>, p: Seq<char>)
    ensures
        exports_of(v, p) == lookup(v, p),
    decreases v.len(),
{
    if v.len() > 0 {
        lemma_exports_of_lookup(v.drop_first(), p);
    }
}

proof fn lemma_bindings_for_lookup(t: Seq<(String, Vec<ExportBinding>)>, n: Seq<char>)
    ensures
        bindings_for(t, n) == match lookup(t, n) {
            Some(b) => b@,
            None => Seq::<ExportBinding>::empty(),
        },
    decreases t.len(),
{
    if t.len() > 0 {
        lemma_bindings_for_lookup(t.drop_first(), n);
    }
}

proof fn lemma_lookup_normalized(t: Seq<(String, Vec<ExportBinding>)>, out: Seq<(String, Vec<ExportBinding>)>, n: Seq<char>)
    requires
        out.len() == t.len(),
        forall|i: int| 0 <= i < t.len() ==> (#[trigger] out[i]).0@ == t[i].0@ && binding_views(out[i].1@) == normalize(
            binding_views(t[i].1@),
        ),
    ensures
        lookup(out, n) is Some <==> lookup(t, n) is Some,
        lookup(t, n) is Some ==> binding_views(lookup(out, n).unwrap()@) == normalize(binding_views(lookup(t, n).unwrap()@)),
    decreases t.len(),
{
    if t.len() > 0 {
        assert(out[0].0@ == t[0].0@);
        assert forall|i: int| 0 <= i < t.len() - 1 implies (#[trigger] out.drop_first()[i]).0@ == t.drop_first()[i].0@
            && binding_views(out.drop_first()[i].1@) == normalize(binding_views(t.drop_first()[i].1@)) by {
            assert(out.drop_first()[i] == out[i + 1]);
            assert(t.drop_first()[i] == t[i + 1]);
        }
        lemma_lookup_normalized(t.drop_first(), out.drop_first(), n);
    }
}

fn add_to_inner(inner: &mut Vec<(String, Vec<ExportBinding>)>, name: &str, b: ExportBinding, m: Ghost<Map<Seq<char>, Seq<BindingView>>>)
    requires
        inner_holds(old(inner)@, m@),
    ensures
        inner_holds(final(inner)@, add_binding(m@, name@, binding_view(b))),
{
    let ghost s = inner@;
    let ghost target = add_binding(m@, name@, binding_view(b));
    let ghost bv = binding_view(b);
    match find_key(inner, name) {
        Some(j) => {
            let mut list: Vec<ExportBinding> = Vec::new();
            std::mem::swap(&mut list, &mut inner[j].1);
            let ghost l0 = list@;
            assert(l0 == s[j as int].1@);
            list.push(b);
            assert(binding_views(list@) =~= binding_views(l0).push(bv));
            let entry = (inner[j].0.clone(), list);
            proof {
                let s2 = s.update(j as int, entry);
                assert forall|n: Seq<char>| #[trigger] lookup(s2, n) is Some <==> target.contains_key(n) by {
                    lemma_lookup_update(s, j as int, entry, n);
                }
                assert forall|n: Seq<char>| #[trigger] lookup(s2, n) is Some implies binding_views(lookup(s2, n).unwrap()@) == target[n] by {
                    lemma_lookup_update(s, j as int, entry, n);
                }
            }
            inner.set(j, entry);
            assert(inner@ =~= s.update(j as int, entry));
        },
        None => {
            let mut list: Vec<ExportBinding> = Vec::new();
            list.push(b);
            assert(binding_views(list@) =~= Seq::<BindingView>::empty().push(bv));
            let entry = (name.to_string(), list);
            proof {
                let s2 = s.push(entry);
                assert forall|n: Seq<char>| #[trigger] lookup(s2, n) is Some <==> target.contains_key(n) by {
                    lemma_lookup_push(s, entry, n);
                }
                assert forall|n: Seq<char>| #[trigger] lookup(s2, n) is Some implies binding_views(lookup(s2, n).unwrap()@) == target[n] by {
                    lemma_lookup_push(s, entry, n);
                }
            }
            inner.push(entry);
        },
    }
}

fn first_import_index(imports: &Vec<TypeScriptImport>, local: &str) -> (r: Option<usize>)
    ensures
        match r {
            Some(k) => k < imports@.len() && first_binding_import(imports@, local@) == Some(imports@[k as int]),
            None => first_binding_import(imports@, local@) is None,
        },
{
    let mut i: usize = 0;
    assert(imports@.skip(0) =~= imports@);
    while i < imports.len()
        invariant
            i <= imports@.len(),
            first_binding_import(imports@, local@) == first_binding_import(imports@.skip(i as int), local@),
        decreases imports@.len() - i,
    {
        assert(imports@.skip(i as int)[0] == imports@[i as int]);
        assert(imports@.skip(i as int).drop_first() =~= imports@.skip(i as int + 1));
        let im = &imports[i];
        if opt_str_eq(&im.local_name, local) && !str_eq(im.kind.as_str(), "side-effect-import") && !str_eq(
            im.kind.as_str(),
            "re-export",
        ) && !im.type_only {
            return Some(i);
        }
        i = i + 1;
    }
    None
}

fn binding_of(
    imports: &Vec<TypeScriptImport>,
    e: &TypeScriptExport,
    locals: Option<&Vec<(String, Vec<String>)>>,
) -> (r: Option<ExportBinding>)
    ensures
        match r {
            Some(b) => export_binding(
                imports@,
                *e,
                match locals {
                    Some(t) => Some(*t),
                    None => None,
                },
            ) == Some(binding_view(b)),
            None => export_binding(
                imports@,
                *e,
                match locals {
                    Some(t) => Some(*t),
                    None => None,
                },
            ) is None,
        },
{
    proof {
        reveal_strlit("Local");
        reveal_strlit("Forward");
        reveal_strlit("Star");
        reveal_strlit("Namespace");
        reveal_strlit("TypeOnly");
    }
    match &e.source {
        Some(src) => {
            if str_eq(e.kind.as_str(), "namespace-re-export") {
                Some(ExportBinding::Namespace { source: src.clone(), type_only: e.type_only })
            } else if str_eq(e.exported_name.as_str(), "*") {
                Some(ExportBinding::Star { source: src.clone(), type_only: e.type_only })
            } else {
                let name = match &e.local_name {
                    Some(l) => l.clone(),
                    None => e.exported_name.clone(),
                };
                Some(ExportBinding::Forward { source: src.clone(), name, type_only: e.type_only })
            }
        },
        None => {
            let local = match &e.local_name {
                None => {
                    return None;
                },
                Some(l) => l.as_str(),
            };
            let targets = match locals {
                Some(t) => match find_key(t, local) {
                    Some(j) => Some(&t[j].1),
                    None => None,
                },
                None => None,
            };
            match targets {
                Some(ids) => {
                    let ids = ids.clone();
                    if e.type_only {
                        Some(ExportBinding::TypeOnly { ids })
                    } else {
                        Some(ExportBinding::Local(ids))
                    }
                },
                None => match first_import_index(imports, local) {
                    Some(k) => {
                        let i = &imports[k];
                        let t = e.type_only || i.type_only;
                        if str_eq(i.kind.as_str(), "namespace-import") {
                            Some(ExportBinding::Namespace { source: i.specifier.clone(), type_only: t })
                        } else {
                            let name = match &i.imported_name {
                                Some(n) => n.clone(),
                                None => "default".to_string(),
                            };
                            Some(ExportBinding::Forward { source: i.specifier.clone(), name, type_only: t })
                        }
                    },
                    None => None,
                },
            }
        },
    }
}

fn normalize_all(inner: Vec<(String, Vec<ExportBinding>)>, m: Ghost<Map<Seq<char>, Seq<BindingView>>>) -> (r: Vec<(String, Vec<ExportBinding>)>)
    requires
        inner_holds(inner@, m@),
    ensures
        inner_holds(r@, m@.map_values(|s: Seq<BindingView>| normalize(s))),
{
    let ghost t = inner@;
    let mut out: Vec<(String, Vec<ExportBinding>)> = Vec::new();
    let mut rest = inner;
    let n = rest.len();
    let mut i: usize = 0;
    while i < n
        invariant
            n == t.len(),
            i <= n,
            rest@ == t.skip(i as int),
            out@.len() == i,
            forall|k: int| 0 <= k < i ==> (#[trigger] out@[k]).0@ == t[k].0@ && binding_views(out@[k].1@) == normalize(
                binding_views(t[k].1@),
            ),
        decreases n - i,
    {
        let entry = rest.remove(0);
        assert(entry == t[i as int]);
        let (key, bindings) = entry;
        let normalized = normalize_bindings(bindings);
        out.push((key, normalized));
        assert(rest@ =~= t.skip(i as int + 1));
        i = i + 1;
    }
    proof {
        let target = m@.map_values(|s: Seq<BindingView>| normalize(s));
        assert forall|x: Seq<char>| #[trigger] lookup(out@, x) is Some <==> target.contains_key(x) by {
            lemma_lookup_normalized(t, out@, x);
        }
        assert forall|x: Seq<char>| #[trigger] lookup(out@, x) is Some implies binding_views(lookup(out@, x).unwrap()@) == target[x] by {
            lemma_lookup_normalized(t, out@, x);
        }
    }
    out
}

/// `table` is the export table of the files: a module for each path the table knows, and
/// for each exported name the bindings the table gives it.
pub open spec fn exports_built(
    table: Seq<(String, Vec<(String, Vec<ExportBinding>)>)>,
    facts: Seq<TypeScriptFacts>,
    symbols_by_path: Seq<(String, Vec<(String, Vec<String>)>)>,
) -> bool {
    &&& forall|p: Seq<char>| #[trigger] exports_of(table, p) is Some <==> module_table(facts, symbols_by_path).contains_key(p)
    &&& forall|p: Seq<char>, n: Seq<char>|
        exports_of(table, p) is Some ==> binding_views(#[trigger] bindings_for(exports_of(table, p).unwrap()@, n)) == {
            let inner = module_table(facts, symbols_by_path)[p];
            if inner.contains_key(n) {
                inner[n]
            } else {
                Seq::empty()
            }
        }
}

/// The export table of each file: for each exported name, what it binds (a re-export, the
/// file's own declarations, or an imported binding), in the order of the bindings'
/// `Debug` texts without adjacent repeats. `symbols_by_path` gives each file's top-level
/// symbol ids by name.
pub fn build_module_exports(
    facts: &[TypeScriptFacts],
    symbols_by_path: &Vec<(String, Vec<(String, Vec<String>)>)>,
) -> (r: Vec<(String, Vec<(String, Vec<ExportBinding>)>)>)
    ensures
        exports_built(r@, facts@, symbols_by_path@),
{
    let mut table: Vec<(String, Vec<(String, Vec<ExportBinding>)>)> = Vec::new();
    let mut i: usize = 0;
    assert(facts@.take(0) =~= Seq::<TypeScriptFacts>::empty());
    while i < facts.len()
        invariant
            i <= facts@.len(),
            table_holds(table@, module_table(facts@.take(i as int), symbols_by_path@)),
        decreases facts@.len() - i,
    {
        assert(facts@.take(i as int + 1).drop_last() =~= facts@.take(i as int));
        assert(facts@.take(i as int + 1).last() == facts@[i as int]);
        let ghost prev = module_table(facts@.take(i as int), symbols_by_path@);
        let f = &facts[i];
        let ghost p = f.path@;
        let ghost inner0 = if prev.contains_key(p) {
            prev[p]
        } else {
            Map::<Seq<char>, Seq<BindingView>>::empty()
        };
        let ghost t0 = table@;
        let k = match find_key(&table, f.path.as_str()) {
            Some(k) => k,
            None => {
                let entry = (f.path.clone(), Vec::new());
                proof {
                    lemma_lookup_absent(t0, p);
                    lemma_lookup_push(t0, entry, p);
                    assert(t0.push(entry)[t0.len() as int] == entry);
                    assert forall|x: Seq<char>| x != p implies #[trigger] lookup(t0.push(entry), x) == lookup(t0, x) by {
                        lemma_lookup_push(t0, entry, x);
                    }
                }
                table.push(entry);
                table.len() - 1
            },
        };
        let ghost t1 = table@;
        assert(k < t1.len() && t1[k as int].0@ == p);
        assert(forall|j: int| 0 <= j < k ==> (#[trigger] t1[j]).0@ != p);
        assert(lookup(t1, p) == Some(t1[k as int].1));
        assert(inner_holds(t1[k as int].1@, inner0));
        assert(forall|x: Seq<char>| x != p ==> #[trigger] lookup(t1, x) == lookup(t0, x));
        let mut inner: Vec<(String, Vec<ExportBinding>)> = Vec::new();
        std::mem::swap(&mut inner, &mut table[k].1);
        let locals = match find_key(symbols_by_path, f.path.as_str()) {
            Some(j) => Some(&symbols_by_path[j].1),
            None => None,
        };
        let ghost lv = lookup(symbols_by_path@, p);
        assert(lv == match locals {
            Some(t) => Some(*t),
            None => None::<Vec<(String, Vec<String>)>>,
        });
        let mut j: usize = 0;
        assert(f.exports@.take(0) =~= Seq::<TypeScriptExport>::empty());
        while j < f.exports.len()
            invariant
                j <= f.exports@.len(),
                lv == match locals {
                    Some(t) => Some(*t),
                    None => None::<Vec<(String, Vec<String>)>>,
                },
                inner_holds(inner@, fact_bindings(inner0, f.imports@, f.exports@.take(j as int), lv)),
            decreases f.exports@.len() - j,
        {
            assert(f.exports@.take(j as int + 1).drop_last() =~= f.exports@.take(j as int));
            assert(f.exports@.take(j as int + 1).last() == f.exports@[j as int]);
            let ghost before = fact_bindings(inner0, f.imports@, f.exports@.take(j as int), lv);
            match binding_of(&f.imports, &f.exports[j], locals) {
                Some(b) => {
                    add_to_inner(&mut inner, f.exports[j].exported_name.as_str(), b, Ghost(before));
                },
                None => {},
            }
            j = j + 1;
        }
        assert(f.exports@.take(f.exports@.len() as int) =~= f.exports@);
        let ghost inner1 = fact_bindings(inner0, f.imports@, f.exports@, lv);
        let normalized = normalize_all(inner, Ghost(inner1));
        let ghost t2 = table@;
        assert(t2.len() == t1.len());
        assert(forall|j: int| 0 <= j < t1.len() && j != k ==> t2[j] == t1[j]);
        assert(t2[k as int].0 == t1[k as int].0);
        let entry = (table[k].0.clone(), normalized);
        proof {
            let target = prev.insert(p, inner1.map_values(|s: Seq<BindingView>| normalize(s)));
            assert(target == module_table(facts@.take(i as int + 1), symbols_by_path@));
            let t3 = t1.update(k as int, entry);
            assert forall|x: Seq<char>| #[trigger] lookup(t3, x) is Some <==> target.contains_key(x) by {
                lemma_lookup_update(t1, k as int, entry, x);
            }
            assert forall|x: Seq<char>| #[trigger] lookup(t3, x) is Some implies inner_holds(lookup(t3, x).unwrap()@, target[x]) by {
                lemma_lookup_update(t1, k as int, entry, x);
            }
        }
        table.set(k, entry);
        assert(table@ =~= t1.update(k as int, entry));
        i = i + 1;
    }
    assert(facts@.take(facts@.len() as int) =~= facts@);
    proof {
        let m = module_table(facts@, symbols_by_path@);
        assert forall|p: Seq<char>| #[trigger] exports_of(table@, p) is Some <==> m.contains_key(p) by {
            lemma_exports_of_lookup(table@, p);
        }
        assert forall|p: Seq<char>, n: Seq<char>|
            exports_of(table@, p) is Some implies binding_views(#[trigger] bindings_for(exports_of(table@, p).unwrap()@, n)) == {
                let inner = m[p];
                if inner.contains_key(n) {
                    inner[n]
                } else {
                    Seq::empty()
                }
            } by {
            lemma_exports_of_lookup(table@, p);
            let t = exports_of(table@, p).unwrap()@;
            lemma_bindings_for_lookup(t, n);
            assert(inner_holds(t, m[p]));
            if lookup(t, n) is None {
                assert(binding_views(Seq::<ExportBinding>::empty()) =~= Seq::<BindingView>::empty());
            }
        }
    }
    table
}

} // verus!
