//! Resolution outcomes and the choice among candidate targets.

use vstd::prelude::*;

use crate::order::{contains_str, sorted_unique, strictly_sorted};
use crate::text::{str_eq, views};

verus! {

broadcast use vstd::string::group_string_axioms;

/// How one reference resolved: a status, a categorical reason, the candidate node ids, the
/// modules a namespace binding stands for, and whether only types were bound.
#[derive(Debug)]
pub struct ResolutionOutcome {
    pub status: String,
    pub reason: String,
    pub candidates: Vec<String>,
    pub namespace_modules: Vec<String>,
    pub type_only: bool,
}

/// The plain values of an outcome.
pub open spec fn outcome_view(o: ResolutionOutcome) -> (Seq<char>, Seq<char>, Seq<Seq<char>>, Seq<Seq<char>>, bool) {
    (o.status@, o.reason@, views(o.candidates@), views(o.namespace_modules@), o.type_only)
}

/// An outcome with the given status and reason and nothing bound.
pub open spec fn bare_outcome(o: ResolutionOutcome, status: Seq<char>, reason: Seq<char>) -> bool {
    outcome_view(o) == (status, reason, Seq::<Seq<char>>::empty(), Seq::<Seq<char>>::empty(), false)
}

impl Clone for ResolutionOutcome {
    fn clone(&self) -> (r: Self)
        ensures
            outcome_view(r) == outcome_view(*self),
    {
        let candidates = clone_strings(&self.candidates);
        let namespace_modules = clone_strings(&self.namespace_modules);
        ResolutionOutcome {
            status: self.status.clone(),
            reason: self.reason.clone(),
            candidates,
            namespace_modules,
            type_only: self.type_only,
        }
    }
}

/// A copy of a list of strings.
pub fn clone_strings(v: &Vec<String>) -> (r: Vec<String>)
    ensures
        views(r@) == views(v@),
{
    let mut r: Vec<String> = Vec::new();
    let mut i: usize = 0;
    while i < v.len()
        invariant
            i <= v@.len(),
            views(r@) == views(v@.take(i as int)),
        decreases v@.len() - i,
    {
        r.push(v[i].clone());
        assert(views(v@.take(i as int + 1)) =~= views(v@.take(i as int)).push(v@[i as int]@));
        assert(views(r@) =~= views(v@.take(i as int + 1)));
        i = i + 1;
    }
    assert(v@.take(v@.len() as int) =~= v@);
    r
}

/// An unresolved outcome with the given reason.
pub fn unresolved(reason: &str) -> (r: ResolutionOutcome)
    ensures
        bare_outcome(r, "unresolved"@, reason@),
{
    unresolved_with_status(reason, "unresolved")
}

/// An outcome with the given reason and status that binds nothing.
pub fn unresolved_with_status(reason: &str, status: &str) -> (r: ResolutionOutcome)
    ensures
        bare_outcome(r, status@, reason@),
{
    let r = ResolutionOutcome {
        status: status.to_string(),
        reason: reason.to_string(),
        candidates: Vec::new(),
        namespace_modules: Vec::new(),
        type_only: false,
    };
    assert(views(r.candidates@) =~= Seq::<Seq<char>>::empty());
    assert(views(r.namespace_modules@) =~= Seq::<Seq<char>>::empty());
    r
}

/// An outcome with the given reason and status that reports the distinct `candidates`,
/// sorted.
pub fn unresolved_with_candidates(reason: &str, status: &str, candidates: Vec<String>) -> (r:
    ResolutionOutcome)
    ensures
        r.status@ == status@,
        r.reason@ == reason@,
        strictly_sorted(views(r.candidates@)),
        views(r.candidates@).to_set() == views(candidates@).to_set(),
        r.namespace_modules@.len() == 0,
        !r.type_only,
{
    let sorted = sorted_unique(candidates);
    ResolutionOutcome {
        status: status.to_string(),
        reason: reason.to_string(),
        candidates: sorted,
        namespace_modules: Vec::new(),
        type_only: false,
    }
}

/// `resolved` with `reason` for exactly one candidate, `unresolved-identifier` for none, and
/// `ambiguous-symbol` (keeping every candidate) for more.
pub fn unique_or_unresolved(candidates: Vec<String>, reason: &str) -> (r: ResolutionOutcome)
    ensures
        candidates@.len() == 1 ==> outcome_view(r) == ("resolved"@, reason@, views(candidates@), Seq::<Seq<char>>::empty(), false),
        candidates@.len() == 0 ==> bare_outcome(r, "unresolved"@, "unresolved-identifier"@),
        candidates@.len() > 1 ==> outcome_view(r) == ("ambiguous"@, "ambiguous-symbol"@, views(candidates@), Seq::<Seq<char>>::empty(), false),
{
    if candidates.len() == 0 {
        return unresolved("unresolved-identifier");
    }
    let status = if candidates.len() == 1 {
        "resolved".to_string()
    } else {
        "ambiguous".to_string()
    };
    let reason = if candidates.len() == 1 {
        reason.to_string()
    } else {
        "ambiguous-symbol".to_string()
    };
    let r = ResolutionOutcome {
        status,
        reason,
        candidates,
        namespace_modules: Vec::new(),
        type_only: false,
    };
    assert(views(r.namespace_modules@) =~= Seq::<Seq<char>>::empty());
    r
}

/// The kind recorded for node `id`, if any: the first entry for `id`.
pub open spec fn kind_of(kinds: Seq<(String, String)>, id: Seq<char>) -> Option<Seq<char>>
    decreases kinds.len(),
{
    if kinds.len() == 0 {
        None
    } else if kinds[0].0@ == id {
        Some(kinds[0].1@)
    } else {
        kind_of(kinds.drop_first(), id)
    }
}

/// The recorded kind of node `id`.
pub fn lookup_kind(kinds: &Vec<(String, String)>, id: &str) -> (r: Option<String>)
    ensures
        match r {
            Some(k) => kind_of(kinds@, id@) == Some(k@),
            None => kind_of(kinds@, id@) is None,
        },
{
    let mut i: usize = 0;
    assert(kinds@.skip(0) =~= kinds@);
    while i < kinds.len()
        invariant
            i <= kinds@.len(),
            kind_of(kinds@, id@) == kind_of(kinds@.skip(i as int), id@),
        decreases kinds@.len() - i,
    {
        assert(kinds@.skip(i as int)[0] == kinds@[i as int]);
        assert(kinds@.skip(i as int).drop_first() =~= kinds@.skip(i as int + 1));
        if str_eq(kinds[i].0.as_str(), id) {
            return Some(kinds[i].1.clone());
        }
        i = i + 1;
    }
    None
}

/// Kinds of declaration that a call can target.
pub open spec fn callable_kind(k: Seq<char>) -> bool {
    ||| k == "function"@
    ||| k == "function_signature"@
    ||| k == "class"@
    ||| k == "class_signature"@
    ||| k == "variable"@
    ||| k == "enum"@
}

/// Whether node `id` is recorded with a callable kind.
pub open spec fn is_callable(kinds: Seq<(String, String)>, id: Seq<char>) -> bool {
    kind_of(kinds, id) matches Some(k) && callable_kind(k)
}

/// Whether node `id` is recorded as a class.
pub open spec fn is_class(kinds: Seq<(String, String)>, id: Seq<char>) -> bool {
    kind_of(kinds, id) == Some("class"@)
}

fn callable_kind_name(k: &str) -> (r: bool)
    ensures
        r == callable_kind(k@),
{
    str_eq(k, "function") || str_eq(k, "function_signature") || str_eq(k, "class") || str_eq(
        k,
        "class_signature",
    ) || str_eq(k, "variable") || str_eq(k, "enum")
}

/// Whether node `id` is recorded with a callable kind.
pub fn callable_node(kinds: &Vec<(String, String)>, id: &str) -> (r: bool)
    ensures
        r == is_callable(kinds@, id@),
{
    match lookup_kind(kinds, id) {
        Some(k) => callable_kind_name(k.as_str()),
        None => false,
    }
}

/// Whether node `id` is recorded as a class.
pub fn class_node(kinds: &Vec<(String, String)>, id: &str) -> (r: bool)
    ensures
        r == is_class(kinds@, id@),
{
    match lookup_kind(kinds, id) {
        Some(k) => str_eq(k.as_str(), "class"),
        None => false,
    }
}

/// The distinct candidates that are recorded with a callable kind, sorted.
pub fn callable_candidates(candidates: Vec<String>, symbol_kinds: &Vec<(String, String)>) -> (r: Vec<
    String,
>)
    ensures
        strictly_sorted(views(r@)),
        views(r@).to_set() == views(candidates@).to_set().filter(|c: Seq<char>| is_callable(symbol_kinds@, c)),
{
    let mut kept: Vec<String> = Vec::new();
    let mut i: usize = 0;
    while i < candidates.len()
        invariant
            i <= candidates@.len(),
            views(kept@).to_set() == views(candidates@.take(i as int)).to_set().filter(
                |c: Seq<char>| is_callable(symbol_kinds@, c),
            ),
        decreases candidates@.len() - i,
    {
        let ghost before = views(kept@);
        let ghost prefix = views(candidates@.take(i as int));
        assert(views(candidates@.take(i as int + 1)) =~= prefix.push(candidates@[i as int]@));
        proof {
            prefix.lemma_push_to_set_commute(candidates@[i as int]@);
        }
        if callable_node(symbol_kinds, candidates[i].as_str()) {
            kept.push(candidates[i].clone());
            assert(views(kept@) =~= before.push(candidates@[i as int]@));
            proof {
                before.lemma_push_to_set_commute(candidates@[i as int]@);
            }
            assert(views(kept@).to_set() =~= views(candidates@.take(i as int + 1)).to_set().filter(
                |c: Seq<char>| is_callable(symbol_kinds@, c),
            ));
        } else {
            assert(views(kept@).to_set() =~= views(candidates@.take(i as int + 1)).to_set().filter(
                |c: Seq<char>| is_callable(symbol_kinds@, c),
            ));
        }
        i = i + 1;
    }
    assert(candidates@.take(candidates@.len() as int) =~= candidates@);
    sorted_unique(kept)
}

/// The candidates of all outcomes, in order.
pub open spec fn all_candidates(outcomes: Seq<ResolutionOutcome>) -> Seq<Seq<char>>
    decreases outcomes.len(),
{
    if outcomes.len() == 0 {
        Seq::empty()
    } else {
        all_candidates(outcomes.drop_last()) + views(outcomes.last().candidates@)
    }
}

/// The namespace modules of all outcomes, in order.
pub open spec fn all_namespaces(outcomes: Seq<ResolutionOutcome>) -> Seq<Seq<char>>
    decreases outcomes.len(),
{
    if outcomes.len() == 0 {
        Seq::empty()
    } else {
        all_namespaces(outcomes.drop_last()) + views(outcomes.last().namespace_modules@)
    }
}

/// The reason of the first unresolved outcome, or `missing-export`.
pub open spec fn first_unresolved_reason(outcomes: Seq<ResolutionOutcome>) -> Seq<char>
    decreases outcomes.len(),
{
    if outcomes.len() == 0 {
        "missing-export"@
    } else if outcomes[0].status@ == "unresolved"@ {
        outcomes[0].reason@
    } else {
        first_unresolved_reason(outcomes.drop_first())
    }
}

/// What combining the outcomes of a namespace's modules yields.
pub open spec fn combined(r: ResolutionOutcome, outcomes: Seq<ResolutionOutcome>) -> bool {
    let cands = all_candidates(outcomes).to_set();
    let type_only = exists|i: int| 0 <= i < outcomes.len() && (#[trigger] outcomes[i]).type_only;
    let external = exists|i: int| 0 <= i < outcomes.len() && (#[trigger] outcomes[i]).status@ == "external"@;
    if cands.len() > 1 || cands.len() == 1 {
        &&& strictly_sorted(views(r.candidates@))
        &&& views(r.candidates@).to_set() == cands
        &&& strictly_sorted(views(r.namespace_modules@))
        &&& views(r.namespace_modules@).to_set() == all_namespaces(outcomes).to_set()
        &&& r.type_only == type_only
        &&& if cands.len() > 1 {
            r.status@ == "ambiguous"@ && r.reason@ == "ambiguous-namespace-member"@
        } else {
            r.status@ == "resolved"@ && r.reason@ == "namespace-member-binding"@
        }
    } else if external {
        &&& r.status@ == "external"@
        &&& r.reason@ == "external-reexport"@
        &&& r.candidates@.len() == 0
        &&& strictly_sorted(views(r.namespace_modules@))
        &&& views(r.namespace_modules@).to_set() == all_namespaces(outcomes).to_set()
        &&& r.type_only == type_only
    } else {
        bare_outcome(r, "unresolved"@, first_unresolved_reason(outcomes))
    }
}

/// Combines the outcomes of resolving one member in each module of a namespace.
#[verifier::loop_isolation(false)]
pub fn combine_outcomes(outcomes: &[ResolutionOutcome]) -> (r: ResolutionOutcome)
    ensures
        combined(r, outcomes@),
{
    let mut candidates: Vec<String> = Vec::new();
    let mut namespaces: Vec<String> = Vec::new();
    let mut type_only = false;
    let mut external = false;
    let mut i: usize = 0;
    while i < outcomes.len()
        invariant
            i <= outcomes@.len(),
            views(candidates@) == all_candidates(outcomes@.take(i as int)),
            views(namespaces@) == all_namespaces(outcomes@.take(i as int)),
            type_only == exists|k: int| 0 <= k < i && (#[trigger] outcomes@[k]).type_only,
            external == exists|k: int| 0 <= k < i && (#[trigger] outcomes@[k]).status@ == "external"@,
        decreases outcomes@.len() - i,
    {
        let ghost c0 = candidates@;
        let ghost n0 = namespaces@;
        let o = &outcomes[i];
        let mut k: usize = 0;
        while k < o.candidates.len()
            invariant
                k <= o.candidates@.len(),
                views(candidates@) == views(c0) + views(o.candidates@.take(k as int)),
            decreases o.candidates@.len() - k,
        {
            let ghost cb = views(candidates@);
            candidates.push(o.candidates[k].clone());
            assert(views(candidates@) =~= cb.push(o.candidates@[k as int]@));
            assert(views(o.candidates@.take(k as int + 1)) =~= views(o.candidates@.take(k as int)).push(
                o.candidates@[k as int]@,
            ));
            assert(views(candidates@) =~= views(c0) + views(o.candidates@.take(k as int + 1)));
            k = k + 1;
        }
        let mut k: usize = 0;
        while k < o.namespace_modules.len()
            invariant
                k <= o.namespace_modules@.len(),
                views(namespaces@) == views(n0) + views(o.namespace_modules@.take(k as int)),
            decreases o.namespace_modules@.len() - k,
        {
            let ghost nb = views(namespaces@);
            namespaces.push(o.namespace_modules[k].clone());
            assert(views(namespaces@) =~= nb.push(o.namespace_modules@[k as int]@));
            assert(views(o.namespace_modules@.take(k as int + 1)) =~= views(
                o.namespace_modules@.take(k as int),
            ).push(o.namespace_modules@[k as int]@));
            assert(views(namespaces@) =~= views(n0) + views(o.namespace_modules@.take(k as int + 1)));
            k = k + 1;
        }
        assert(o.candidates@.take(o.candidates@.len() as int) =~= o.candidates@);
        assert(o.namespace_modules@.take(o.namespace_modules@.len() as int) =~= o.namespace_modules@);
        assert(outcomes@.take(i as int + 1).drop_last() =~= outcomes@.take(i as int));
        type_only = type_only || o.type_only;
        external = external || str_eq(o.status.as_str(), "external");
        i = i + 1;
    }
    assert(outcomes@.take(outcomes@.len() as int) =~= outcomes@);
    let candidates = sorted_unique(candidates);
    let namespaces = sorted_unique(namespaces);
    assert(views(candidates@).no_duplicates()) by {
        assert forall|a: int, b: int| 0 <= a < b < views(candidates@).len() implies views(candidates@)[a]
            != views(candidates@)[b] by {
            crate::order::lemma_str_lt_irreflexive(views(candidates@)[a]);
        }
    }
    proof {
        views(candidates@).unique_seq_to_set();
    }
    if candidates.len() > 1 {
        return ResolutionOutcome {
            status: "ambiguous".to_string(),
            reason: "ambiguous-namespace-member".to_string(),
            candidates,
            namespace_modules: namespaces,
            type_only,
        };
    }
    if candidates.len() == 1 {
        return ResolutionOutcome {
            status: "resolved".to_string(),
            reason: "namespace-member-binding".to_string(),
            candidates,
            namespace_modules: namespaces,
            type_only,
        };
    }
    if external {
        return ResolutionOutcome {
            status: "external".to_string(),
            reason: "external-reexport".to_string(),
            candidates: Vec::new(),
            namespace_modules: namespaces,
            type_only,
        };
    }
    let mut j: usize = 0;
    assert(outcomes@.skip(0) =~= outcomes@);
    while j < outcomes.len()
        invariant
            j <= outcomes@.len(),
            first_unresolved_reason(outcomes@) == first_unresolved_reason(outcomes@.skip(j as int)),
        decreases outcomes@.len() - j,
    {
        assert(outcomes@.skip(j as int)[0] == outcomes@[j as int]);
        assert(outcomes@.skip(j as int).drop_first() =~= outcomes@.skip(j as int + 1));
        if str_eq(outcomes[j].status.as_str(), "unresolved") {
            return unresolved(outcomes[j].reason.as_str());
        }
        j = j + 1;
    }
    unresolved("missing-export")
}

} // verus!
