//! The declaration structure of a graph: a symbol node for each declaration, the edges
//! that declare it, and the indexes that call and heritage resolution read.

use vstd::prelude::*;

use super::calls::{find_key, lemma_lookup_push, lemma_lookup_update, lookup};
use super::call_edges::EdgeView;
use super::fingerprints::{node_id, normalize_symbol_kind, spec_node_id, spec_normalize_symbol_kind};
use super::structure::{edge_view, edge_views, file_id_of, find_file_id, has_node, node_view, node_views};
use super::targets::kind_of;
use crate::model::graph::{GraphEdge, GraphNode};
use crate::model::typescript::{TypeScriptDeclaration, TypeScriptFacts};
use crate::order::{insert_sorted, strictly_sorted};
use crate::text::{str_eq, views};

verus! {

broadcast use vstd::string::group_string_axioms;

/// A node by its id, kind, path, name, language and evidence fingerprint.
pub type NodeView = (Seq<char>, Seq<char>, Option<Seq<char>>, Option<Seq<char>>, Option<Seq<char>>, Seq<char>);

/// Ids grouped by an outer key and a name.
pub type IdIndex = Map<Seq<char>, Map<Seq<char>, Set<Seq<char>>>>;

/// What the declarations seen so far give: nodes, edges, the kind of each symbol id,
/// the first declaration of each id, the top-level ids of each file by name, and the
/// member ids of each owner by name.
pub type DeclState = (
    Seq<NodeView>,
    Seq<EdgeView>,
    Map<Seq<char>, Seq<char>>,
    Map<Seq<char>, TypeScriptDeclaration>,
    IdIndex,
    IdIndex,
);

/// The indexes of the declarations of a graph.
#[derive(Debug)]
pub struct DeclarationIndex {
    /// The top-level symbol ids of each file, by declared name, in ascending order.
    pub symbols_by_path: Vec<(String, Vec<(String, Vec<String>)>)>,
    /// The member ids of each owner node, by member name, in ascending order.
    pub members_by_owner: Vec<(String, Vec<(String, Vec<String>)>)>,
    /// The first declaration of each symbol id.
    pub declarations_by_id: Vec<(String, TypeScriptDeclaration)>,
    /// The kind of each symbol id, as last declared.
    pub symbol_kinds: Vec<(String, String)>,
}

/// The index with `id` added under `outer` and `name`.
pub open spec fn add_id(m: IdIndex, outer: Seq<char>, name: Seq<char>, id: Seq<char>) -> IdIndex {
    let inner = if m.contains_key(outer) {
        m[outer]
    } else {
        Map::empty()
    };
    let ids = if inner.contains_key(name) {
        inner[name]
    } else {
        Set::empty()
    };
    m.insert(outer, inner.insert(name, ids.insert(id)))
}

/// The qualified name a declaration's symbol id is derived from.
pub open spec fn qualified_of(d: TypeScriptDeclaration) -> Seq<char> {
    if d.qualified_name@.len() == 0 {
        spec_normalize_symbol_kind(d.kind@) + ":"@ + d.name@
    } else {
        d.qualified_name@
    }
}

/// The symbol id of a declaration of the file at `path`.
pub open spec fn symbol_id_of(path: Seq<char>, d: TypeScriptDeclaration) -> Seq<char> {
    spec_node_id("symbol"@, path, qualified_of(d))
}

/// The state after one more declaration of the file at `path` (node `file_id`).
pub open spec fn declaration_step(st: DeclState, path: Seq<char>, language: Seq<char>, file_id: Seq<char>, d: TypeScriptDeclaration) -> DeclState {
    let kind = spec_normalize_symbol_kind(d.kind@);
    let q = qualified_of(d);
    let id = symbol_id_of(path, d);
    let node = (id, kind, Some(path), Some(if d.owner is Some { q } else { d.name@ }), Some(language), Seq::empty());
    let nodes = if exists|j: int| 0 <= j < st.0.len() && (#[trigger] st.0[j]).0 == id {
        st.0
    } else {
        st.0.push(node)
    };
    let kinds = st.2.insert(id, kind);
    let decls = if st.3.contains_key(id) {
        st.3
    } else {
        st.3.insert(id, d)
    };
    match d.owner {
        Some(owner) => {
            let owner_id = spec_node_id("symbol"@, path, owner@);
            (
                nodes,
                st.1.push((owner_id, id, "declares-member"@, "typescript-class-member"@)),
                kinds,
                decls,
                st.4,
                add_id(st.5, owner_id, d.name@, id),
            )
        },
        None => (
            nodes,
            st.1.push((file_id, id, "declares"@, "top-level-typescript-declaration"@)),
            kinds,
            decls,
            add_id(st.4, path, d.name@, id),
            st.5,
        ),
    }
}

/// The state after the first declarations of one file.
pub open spec fn declarations_fold(st: DeclState, path: Seq<char>, language: Seq<char>, file_id: Seq<char>, ds: Seq<TypeScriptDeclaration>) -> DeclState
    decreases ds.len(),
{
    if ds.len() == 0 {
        st
    } else {
        declaration_step(declarations_fold(st, path, language, file_id, ds.drop_last()), path, language, file_id, ds.last())
    }
}

/// The state after the declarations of each file, in order, or the first file without a
/// node.
pub open spec fn facts_declarations(st: DeclState, facts: Seq<TypeScriptFacts>, file_ids: Seq<(String, String)>) -> Result<DeclState, Seq<char>>
    decreases facts.len(),
{
    if facts.len() == 0 {
        Ok(st)
    } else {
        match facts_declarations(st, facts.drop_last(), file_ids) {
            Err(e) => Err(e),
            Ok(prev) => {
                let f = facts.last();
                match file_id_of(file_ids, f.path@) {
                    None => Err("Missing file node for "@ + f.path@),
                    Some(fid) => Ok(declarations_fold(prev, f.path@, f.language@, fid, f.declarations@)),
                }
            },
        }
    }
}

/// The ids of a name table are what the index holds under each name, each list strictly
/// increasing.
pub open spec fn table_matches(t: Seq<(String, Vec<String>)>, m: Map<Seq<char>, Set<Seq<char>>>) -> bool {
    &&& forall|n: Seq<char>| #[trigger] lookup(t, n) is Some <==> m.contains_key(n)
    &&& forall|n: Seq<char>|
        #[trigger] lookup(t, n) matches Some(ids) ==> strictly_sorted(views(ids@)) && views(ids@).to_set() == m[n]
}

/// A nested table holds what the index holds.
pub open spec fn index_matches(v: Seq<(String, Vec<(String, Vec<String>)>)>, m: IdIndex) -> bool {
    &&& forall|p: Seq<char>| #[trigger] lookup(v, p) is Some <==> m.contains_key(p)
    &&& forall|p: Seq<char>| #[trigger] lookup(v, p) matches Some(t) ==> table_matches(t@, m[p])
}

/// The kinds table holds the kind map.
pub open spec fn kinds_match(v: Seq<(String, String)>, m: Map<Seq<char>, Seq<char>>) -> bool {
    forall|id: Seq<char>| #[trigger] kind_of(v, id) == if m.contains_key(id) {
        Some(m[id])
    } else {
        None
    }
}

/// The declarations table holds the declaration map.
pub open spec fn declarations_match(v: Seq<(String, TypeScriptDeclaration)>, m: Map<Seq<char>, TypeScriptDeclaration>) -> bool {
    forall|id: Seq<char>| #[trigger] lookup(v, id) == if m.contains_key(id) {
        Some(m[id])
    } else {
        None
    }
}

/// The index holds the state's maps.
pub open spec fn index_holds(x: DeclarationIndex, st: DeclState) -> bool {
    &&& index_matches(x.symbols_by_path@, st.4)
    &&& index_matches(x.members_by_owner@, st.5)
    &&& declarations_match(x.declarations_by_id@, st.3)
    &&& kinds_match(x.symbol_kinds@, st.2)
}

/// The state before any declaration, over the given nodes and edges.
pub open spec fn initial_state(nodes: Seq<NodeView>, edges: Seq<EdgeView>) -> DeclState {
    (nodes, edges, Map::empty(), Map::empty(), Map::empty(), Map::empty())
}

proof fn lemma_kind_of_push(s: Seq<(String, String)>, e: (String, String), k: Seq<char>)
    ensures
        kind_of(s.push(e), k) == if kind_of(s, k) is Some {
            kind_of(s, k)
        } else if e.0@ == k {
            Some(e.1@)
        } else {
            None
        },
    decreases s.len(),
{
    if s.len() > 0 {
        assert(s.push(e)[0] == s[0]);
        assert(s.push(e).drop_first() =~= s.drop_first().push(e));
        lemma_kind_of_push(s.drop_first(), e, k);
    } else {
        assert(s.push(e)[0] == e);
        assert(s.push(e).drop_first() =~= Seq::<(String, String)>::empty());
        assert(kind_of(s.push(e).drop_first(), k) is None);
    }
}

proof fn lemma_kind_of_update(s: Seq<(String, String)>, i: int, e: (String, String), k: Seq<char>)
    requires
        0 <= i < s.len(),
        e.0@ == s[i].0@,
        forall|j: int| 0 <= j < i ==> (#[trigger] s[j]).0@ != s[i].0@,
    ensures
        kind_of(s.update(i, e), k) == if k == s[i].0@ {
            Some(e.1@)
        } else {
            kind_of(s, k)
        },
    decreases s.len(),
{
    assert(s.update(i, e)[0] == if i == 0 {
        e
    } else {
        s[0]
    });
    if i == 0 {
        assert(s.update(i, e).drop_first() =~= s.drop_first());
    } else {
        assert(s[0].0@ != s[i].0@);
        assert(s.update(i, e).drop_first() =~= s.drop_first().update(i - 1, e));
        assert forall|j: int| 0 <= j < i - 1 implies (#[trigger] s.drop_first()[j]).0@ != s.drop_first()[i - 1].0@ by {
            assert(s.drop_first()[j] == s[j + 1]);
        }
        lemma_kind_of_update(s.drop_first(), i - 1, e, k);
    }
}

fn set_kind(kinds: &mut Vec<(String, String)>, id: &str, kind: &str, m: Ghost<Map<Seq<char>, Seq<char>>>)
    requires
        kinds_match(old(kinds)@, m@),
    ensures
        kinds_match(final(kinds)@, m@.insert(id@, kind@)),
{
    let ghost s = kinds@;
    match find_key(kinds, id) {
        Some(k) => {
            let entry = (kinds[k].0.clone(), kind.to_string());
            proof {
                assert forall|x: Seq<char>| #[trigger] kind_of(s.update(k as int, entry), x) == if m@.insert(
                    id@,
                    kind@,
                ).contains_key(x) {
                    Some(m@.insert(id@, kind@)[x])
                } else {
                    None
                } by {
                    lemma_kind_of_update(s, k as int, entry, x);
                }
            }
            kinds.set(k, entry);
        },
        None => {
            let entry = (id.to_string(), kind.to_string());
            proof {
                lemma_kind_of_lookup(s, id@);
                assert forall|x: Seq<char>| #[trigger] kind_of(s.push(entry), x) == if m@.insert(id@, kind@).contains_key(x) {
                    Some(m@.insert(id@, kind@)[x])
                } else {
                    None
                } by {
                    lemma_kind_of_push(s, entry, x);
                }
            }
            kinds.push(entry);
        },
    }
}

proof fn lemma_kind_of_lookup(s: Seq<(String, String)>, k: Seq<char>)
    ensures
        kind_of(s, k) == match lookup(s, k) {
            Some(v) => Some(v@),
            None => None::<Seq<char>>,
        },
    decreases s.len(),
{
    if s.len() > 0 {
        lemma_kind_of_lookup(s.drop_first(), k);
    }
}

fn record_declaration(
    decls: &mut Vec<(String, TypeScriptDeclaration)>,
    id: &str,
    d: &TypeScriptDeclaration,
    m: Ghost<Map<Seq<char>, TypeScriptDeclaration>>,
)
    requires
        declarations_match(old(decls)@, m@),
    ensures
        declarations_match(
            final(decls)@,
            if m@.contains_key(id@) {
                m@
            } else {
                m@.insert(id@, *d)
            },
        ),
{
    let ghost s = decls@;
    if find_key(decls, id).is_some() {
        return;
    }
    let entry = (id.to_string(), d.clone());
    proof {
        assert forall|x: Seq<char>| #[trigger] lookup(s.push(entry), x) == if m@.insert(id@, *d).contains_key(x) {
            Some(m@.insert(id@, *d)[x])
        } else {
            None
        } by {
            lemma_lookup_push(s, entry, x);
        }
    }
    decls.push(entry);
}

proof fn lemma_table_add(t: Seq<(String, Vec<String>)>, m: Map<Seq<char>, Set<Seq<char>>>, name: Seq<char>, id: Seq<char>, t2: Seq<(String, Vec<String>)>)
    requires
        table_matches(t, m),
        forall|n: Seq<char>| n != name ==> #[trigger] lookup(t2, n) == lookup(t, n),
        lookup(t2, name) matches Some(ids) && strictly_sorted(views(ids@)) && views(ids@).to_set() == (if m.contains_key(name) {
            m[name]
        } else {
            Set::empty()
        }).insert(id),
    ensures
        table_matches(
            t2,
            m.insert(
                name,
                (if m.contains_key(name) {
                    m[name]
                } else {
                    Set::empty()
                }).insert(id),
            ),
        ),
{
}

fn add_to_index(
    v: &mut Vec<(String, Vec<(String, Vec<String>)>)>,
    outer: &str,
    name: &str,
    id: &str,
    m: Ghost<IdIndex>,
)
    requires
        index_matches(old(v)@, m@),
    ensures
        index_matches(final(v)@, add_id(m@, outer@, name@, id@)),
{
    let ghost s = v@;
    let ghost inner = if m@.contains_key(outer@) {
        m@[outer@]
    } else {
        Map::<Seq<char>, Set<Seq<char>>>::empty()
    };
    let ghost ids = if inner.contains_key(name@) {
        inner[name@]
    } else {
        Set::<Seq<char>>::empty()
    };
    let ghost target = add_id(m@, outer@, name@, id@);
    match find_key(v, outer) {
        Some(k) => {
            let ghost t = s[k as int].1@;
            assert(table_matches(t, inner));
            let mut table: Vec<(String, Vec<String>)> = Vec::new();
            std::mem::swap(&mut table, &mut v[k].1);
            assert(table@ == t);
            match find_key(&table, name) {
                Some(j) => {
                    let mut list: Vec<String> = Vec::new();
                    std::mem::swap(&mut list, &mut table[j].1);
                    let ghost old_list = list@;
                    assert(old_list == t[j as int].1@);
                    insert_sorted(&mut list, id.to_string());
                    let entry = (table[j].0.clone(), list);
                    proof {
                        let t2 = t.update(j as int, entry);
                        assert forall|n: Seq<char>| n != name@ implies #[trigger] lookup(t2, n) == lookup(t, n) by {
                            lemma_lookup_update(t, j as int, entry, n);
                        }
                        lemma_lookup_update(t, j as int, entry, name@);
                        lemma_table_add(t, inner, name@, id@, t2);
                    }
                    table.set(j, entry);
                    assert(table@ =~= t.update(j as int, entry));
                },
                None => {
                    let mut list: Vec<String> = Vec::new();
                    list.push(id.to_string());
                    assert(views(list@) =~= seq![id@]);
                    assert(seq![id@].to_set() =~= Set::<Seq<char>>::empty().insert(id@)) by {
                        assert(seq![id@].to_set().contains(id@)) by {
                            assert(seq![id@][0] == id@);
                        }
                    }
                    let entry = (name.to_string(), list);
                    proof {
                        let t2 = t.push(entry);
                        assert forall|n: Seq<char>| n != name@ implies #[trigger] lookup(t2, n) == lookup(t, n) by {
                            lemma_lookup_push(t, entry, n);
                        }
                        lemma_lookup_push(t, entry, name@);
                        lemma_table_add(t, inner, name@, id@, t2);
                    }
                    table.push(entry);
                },
            }
            let ghost t_new = table@;
            assert(table_matches(t_new, inner.insert(name@, ids.insert(id@))));
            let entry = (v[k].0.clone(), table);
            proof {
                assert(s[k as int].0@ == outer@);
                let s2 = s.update(k as int, entry);
                assert forall|p: Seq<char>| #[trigger] lookup(s2, p) is Some <==> target.contains_key(p) by {
                    lemma_lookup_update(s, k as int, entry, p);
                }
                assert forall|p: Seq<char>| #[trigger] lookup(s2, p) is Some implies table_matches(lookup(s2, p).unwrap()@, target[p]) by {
                    lemma_lookup_update(s, k as int, entry, p);
                }
            }
            v.set(k, entry);
            assert(v@ =~= s.update(k as int, entry));
        },
        None => {
            let mut list: Vec<String> = Vec::new();
            list.push(id.to_string());
            assert(views(list@) =~= seq![id@]);
            assert(seq![id@].to_set() =~= Set::<Seq<char>>::empty().insert(id@)) by {
                assert(seq![id@].to_set().contains(id@)) by {
                    assert(seq![id@][0] == id@);
                }
            }
            let mut table: Vec<(String, Vec<String>)> = Vec::new();
            let tentry = (name.to_string(), list);
            table.push(tentry);
            proof {
                let t = Seq::<(String, Vec<String>)>::empty();
                assert(table@ =~= t.push(tentry));
                assert forall|n: Seq<char>| n != name@ implies #[trigger] lookup(table@, n) == lookup(t, n) by {
                    lemma_lookup_push(t, tentry, n);
                }
                lemma_lookup_push(t, tentry, name@);
                lemma_table_add(t, Map::empty(), name@, id@, table@);
            }
            let entry = (outer.to_string(), table);
            proof {
                let s2 = s.push(entry);
                assert forall|p: Seq<char>| #[trigger] lookup(s2, p) is Some <==> target.contains_key(p) by {
                    lemma_lookup_push(s, entry, p);
                }
                assert forall|p: Seq<char>| #[trigger] lookup(s2, p) is Some implies table_matches(lookup(s2, p).unwrap()@, target[p]) by {
                    lemma_lookup_push(s, entry, p);
                }
            }
            v.push(entry);
        },
    }
}

fn add_declaration(
    path: &str,
    language: &str,
    file_id: &str,
    d: &TypeScriptDeclaration,
    nodes: &mut Vec<GraphNode>,
    edges: &mut Vec<GraphEdge>,
    index: &mut DeclarationIndex,
    st: Ghost<DeclState>,
)
    requires
        node_views(old(nodes)@) == st@.0,
        edge_views(old(edges)@) == st@.1,
        index_holds(*old(index), st@),
    ensures
        ({
            let st2 = declaration_step(st@, path@, language@, file_id@, *d);
            &&& node_views(final(nodes)@) == st2.0
            &&& edge_views(final(edges)@) == st2.1
            &&& index_holds(*final(index), st2)
        }),
{
    let kind = normalize_symbol_kind(d.kind.as_str());
    proof {
        reveal_strlit("");
    }
    let qualified = if str_eq(d.qualified_name.as_str(), "") {
        assert(d.qualified_name@.len() == 0);
        let mut q = kind.clone();
        assert(q@ == spec_normalize_symbol_kind(d.kind@));
        q.append(":");
        q.append(d.name.as_str());
        assert(q@ == spec_normalize_symbol_kind(d.kind@) + ":"@ + d.name@);
        q
    } else {
        proof {
            if d.qualified_name@.len() == 0 {
                assert(d.qualified_name@ =~= ""@);
            }
        }
        d.qualified_name.clone()
    };
    assert(qualified@ == qualified_of(*d));
    let id = node_id("symbol", path, qualified.as_str());
    assert(id@ == symbol_id_of(path@, *d));
    let ghost nb = node_views(nodes@);
    assert forall|j: int| 0 <= j < nodes@.len() implies (#[trigger] nb[j]).0 == nodes@[j].id@ by {}
    if !has_node(nodes, id.as_str()) {
        let name = if d.owner.is_some() {
            qualified.clone()
        } else {
            d.name.clone()
        };
        let node = GraphNode {
            id: id.clone(),
            kind: kind.clone(),
            path: Some(path.to_string()),
            name: Some(name),
            language: Some(language.to_string()),
            evidence_fingerprint: String::new(),
        };
        let ghost nv = node_view(node);
        nodes.push(node);
        assert(node_views(nodes@) =~= nb.push(nv));
        assert(!(exists|j: int| 0 <= j < nb.len() && (#[trigger] nb[j]).0 == id@));
    } else {
        let ghost j = choose|j: int| 0 <= j < nodes@.len() && #[trigger] nodes@[j].id@ == id@;
        assert(nb[j].0 == id@);
    }
    set_kind(&mut index.symbol_kinds, id.as_str(), kind.as_str(), Ghost(st@.2));
    record_declaration(&mut index.declarations_by_id, id.as_str(), d, Ghost(st@.3));
    let ghost eb = edge_views(edges@);
    match &d.owner {
        Some(owner) => {
            let owner_id = node_id("symbol", path, owner.as_str());
            add_to_index(&mut index.members_by_owner, owner_id.as_str(), d.name.as_str(), id.as_str(), Ghost(st@.5));
            let edge = GraphEdge {
                from: owner_id,
                to: id,
                kind: "declares-member".to_string(),
                evidence: "typescript-class-member".to_string(),
            };
            let ghost ev = edge_view(edge);
            edges.push(edge);
            assert(edge_views(edges@) =~= eb.push(ev));
        },
        None => {
            add_to_index(&mut index.symbols_by_path, path, d.name.as_str(), id.as_str(), Ghost(st@.4));
            let edge = GraphEdge {
                from: file_id.to_string(),
                to: id,
                kind: "declares".to_string(),
                evidence: "top-level-typescript-declaration".to_string(),
            };
            let ghost ev = edge_view(edge);
            edges.push(edge);
            assert(edge_views(edges@) =~= eb.push(ev));
        },
    }
}

proof fn lemma_facts_declarations_err(st: DeclState, facts: Seq<TypeScriptFacts>, file_ids: Seq<(String, String)>, n: int)
    requires
        0 <= n <= facts.len(),
        facts_declarations(st, facts.take(n), file_ids) is Err,
    ensures
        facts_declarations(st, facts, file_ids) == facts_declarations(st, facts.take(n), file_ids),
    decreases facts.len() - n,
{
    if n < facts.len() {
        assert(facts.take(n + 1).drop_last() =~= facts.take(n));
        lemma_facts_declarations_err(st, facts, file_ids, n + 1);
    } else {
        assert(facts.take(n) =~= facts);
    }
}

/// Adds, for each declaration of each file in order, its symbol node (unless a node with
/// that id is there) and the edge that declares it, from its owner or from its file, and
/// indexes the declarations; fails at the first file without a node.
pub fn declaration_structure(
    facts: &[TypeScriptFacts],
    file_ids: &Vec<(String, String)>,
    nodes: &mut Vec<GraphNode>,
    edges: &mut Vec<GraphEdge>,
) -> (r: Result<DeclarationIndex, String>)
    ensures
        match facts_declarations(initial_state(node_views(old(nodes)@), edge_views(old(edges)@)), facts@, file_ids@) {
            Ok(st) => {
                &&& r matches Ok(x) && index_holds(x, st)
                &&& node_views(final(nodes)@) == st.0
                &&& edge_views(final(edges)@) == st.1
            },
            Err(m) => r matches Err(x) && x@ == m,
        },
{
    let ghost st0 = initial_state(node_views(nodes@), edge_views(edges@));
    let mut index = DeclarationIndex {
        symbols_by_path: Vec::new(),
        members_by_owner: Vec::new(),
        declarations_by_id: Vec::new(),
        symbol_kinds: Vec::new(),
    };
    proof {
        assert forall|p: Seq<char>| #[trigger] lookup(index.symbols_by_path@, p) is None by {}
        assert forall|p: Seq<char>| #[trigger] lookup(index.members_by_owner@, p) is None by {}
        assert forall|p: Seq<char>| #[trigger] lookup(index.declarations_by_id@, p) is None by {}
        assert forall|p: Seq<char>| #[trigger] kind_of(index.symbol_kinds@, p) is None by {}
    }
    let mut i: usize = 0;
    assert(facts@.take(0) =~= Seq::<TypeScriptFacts>::empty());
    while i < facts.len()
        invariant
            i <= facts@.len(),
            st0 == initial_state(node_views(old(nodes)@), edge_views(old(edges)@)),
            facts_declarations(st0, facts@.take(i as int), file_ids@) matches Ok(st) && {
                &&& index_holds(index, st)
                &&& node_views(nodes@) == st.0
                &&& edge_views(edges@) == st.1
            },
        decreases facts@.len() - i,
    {
        assert(facts@.take(i as int + 1).drop_last() =~= facts@.take(i as int));
        assert(facts@.take(i as int + 1).last() == facts@[i as int]);
        let ghost prev = facts_declarations(st0, facts@.take(i as int), file_ids@)->Ok_0;
        let f = &facts[i];
        let file_id = match find_file_id(file_ids, f.path.as_str()) {
            None => {
                let mut m = "Missing file node for ".to_string();
                m.append(f.path.as_str());
                proof {
                    lemma_facts_declarations_err(st0, facts@, file_ids@, i as int + 1);
                }
                return Err(m);
            },
            Some(id) => id,
        };
        let mut j: usize = 0;
        assert(f.declarations@.take(0) =~= Seq::<TypeScriptDeclaration>::empty());
        while j < f.declarations.len()
            invariant
                j <= f.declarations@.len(),
                *f == facts@[i as int],
                ({
                    let st = declarations_fold(prev, f.path@, f.language@, file_id@, f.declarations@.take(j as int));
                    &&& index_holds(index, st)
                    &&& node_views(nodes@) == st.0
                    &&& edge_views(edges@) == st.1
                }),
            decreases f.declarations@.len() - j,
        {
            assert(f.declarations@.take(j as int + 1).drop_last() =~= f.declarations@.take(j as int));
            assert(f.declarations@.take(j as int + 1).last() == f.declarations@[j as int]);
            let ghost st = declarations_fold(prev, f.path@, f.language@, file_id@, f.declarations@.take(j as int));
            add_declaration(
                f.path.as_str(),
                f.language.as_str(),
                file_id.as_str(),
                &f.declarations[j],
                nodes,
                edges,
                &mut index,
                Ghost(st),
            );
            j = j + 1;
        }
        assert(f.declarations@.take(f.declarations@.len() as int) =~= f.declarations@);
        i = i + 1;
    }
    assert(facts@.take(facts@.len() as int) =~= facts@);
    Ok(index)
}

} // verus!
