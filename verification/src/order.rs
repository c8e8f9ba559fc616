//! The byte order of strings, and sorted sets of strings.
//!
//! UTF-8 preserves the order of code points, so comparing two strings byte by byte
//! orders them as comparing their characters one by one does; that character order
//! is the one stated here.

use vstd::prelude::*;

use crate::text::{chars_of, str_eq, views};

verus! {

broadcast use vstd::string::group_string_axioms;

/// `a` sorts strictly before `b`.
pub open spec fn str_lt(a: Seq<char>, b: Seq<char>) -> bool
    decreases a.len(),
{
    if a.len() == 0 {
        b.len() > 0
    } else if b.len() == 0 {
        false
    } else if a[0] != b[0] {
        a[0] < b[0]
    } else {
        str_lt(a.drop_first(), b.drop_first())
    }
}

/// Strictly increasing: sorted, with no value twice.
pub open spec fn strictly_sorted(s: Seq<Seq<char>>) -> bool {
    forall|i: int, j: int| 0 <= i < j < s.len() ==> str_lt(#[trigger] s[i], #[trigger] s[j])
}

/// Sorted, possibly with repeated values.
pub open spec fn sorted(s: Seq<Seq<char>>) -> bool {
    forall|i: int, j: int|
        0 <= i < j < s.len() ==> !str_lt(#[trigger] s[j], #[trigger] s[i])
}

pub proof fn lemma_str_lt_irreflexive(a: Seq<char>)
    ensures
        !str_lt(a, a),
    decreases a.len(),
{
    if a.len() > 0 {
        lemma_str_lt_irreflexive(a.drop_first());
    }
}

pub proof fn lemma_str_lt_asymmetric(a: Seq<char>, b: Seq<char>)
    ensures
        !(str_lt(a, b) && str_lt(b, a)),
    decreases a.len(),
{
    if a.len() > 0 && b.len() > 0 && a[0] == b[0] {
        lemma_str_lt_asymmetric(a.drop_first(), b.drop_first());
    }
}

pub proof fn lemma_str_lt_transitive(a: Seq<char>, b: Seq<char>, c: Seq<char>)
    requires
        str_lt(a, b),
        str_lt(b, c),
    ensures
        str_lt(a, c),
    decreases a.len(),
{
    if a.len() > 0 && b.len() > 0 && c.len() > 0 && a[0] == b[0] && b[0] == c[0] {
        lemma_str_lt_transitive(a.drop_first(), b.drop_first(), c.drop_first());
    }
}

pub proof fn lemma_str_lt_total(a: Seq<char>, b: Seq<char>)
    ensures
        a == b || str_lt(a, b) || str_lt(b, a),
    decreases a.len(),
{
    if a.len() > 0 && b.len() > 0 {
        if a[0] == b[0] {
            lemma_str_lt_total(a.drop_first(), b.drop_first());
            if a.drop_first() == b.drop_first() {
                assert(a =~= seq![a[0]] + a.drop_first());
                assert(b =~= seq![b[0]] + b.drop_first());
            }
        }
    } else if a.len() == 0 && b.len() == 0 {
        assert(a =~= b);
    }
}

/// The order facts as ambient knowledge.
pub broadcast proof fn lemma_str_lt_order(a: Seq<char>, b: Seq<char>, c: Seq<char>)
    ensures
        !str_lt(a, a),
        #[trigger] str_lt(a, b) ==> !str_lt(b, a),
        (#[trigger] str_lt(a, b) && #[trigger] str_lt(b, c)) ==> str_lt(a, c),
{
    lemma_str_lt_irreflexive(a);
    lemma_str_lt_asymmetric(a, b);
    if str_lt(a, b) && str_lt(b, c) {
        lemma_str_lt_transitive(a, b, c);
    }
}

/// Whether `a` sorts strictly before `b`.
pub fn str_less(a: &str, b: &str) -> (r: bool)
    ensures
        r == str_lt(a@, b@),
{
    let ac = chars_of(a);
    let bc = chars_of(b);
    let mut i: usize = 0;
    assert(a@.skip(0) =~= a@);
    assert(b@.skip(0) =~= b@);
    while i < ac.len() && i < bc.len()
        invariant
            ac@ == a@,
            bc@ == b@,
            i <= ac@.len(),
            i <= bc@.len(),
            str_lt(a@, b@) == str_lt(a@.skip(i as int), b@.skip(i as int)),
        decreases ac@.len() - i,
    {
        assert(a@.skip(i as int)[0] == ac@[i as int]);
        assert(b@.skip(i as int)[0] == bc@[i as int]);
        if ac[i] != bc[i] {
            return ac[i] < bc[i];
        }
        assert(a@.skip(i as int).drop_first() =~= a@.skip(i as int + 1));
        assert(b@.skip(i as int).drop_first() =~= b@.skip(i as int + 1));
        i = i + 1;
    }
    i < bc.len()
}

/// The index at which `s` belongs in the strictly sorted `v`, and whether it is there already.
fn sorted_position(v: &Vec<String>, s: &str) -> (r: (usize, bool))
    requires
        strictly_sorted(views(v@)),
    ensures
        r.0 <= v@.len(),
        forall|k: int| 0 <= k < r.0 ==> str_lt(#[trigger] v@[k]@, s@),
        r.1 ==> r.0 < v@.len() && v@[r.0 as int]@ == s@,
        !r.1 ==> forall|k: int| r.0 <= k < v@.len() ==> str_lt(s@, #[trigger] v@[k]@),
{
    let mut i: usize = 0;
    while i < v.len()
        invariant
            i <= v@.len(),
            strictly_sorted(views(v@)),
            forall|k: int| 0 <= k < i ==> str_lt(#[trigger] v@[k]@, s@),
        decreases v@.len() - i,
    {
        if str_eq(v[i].as_str(), s) {
            return (i, true);
        }
        if !str_less(v[i].as_str(), s) {
            proof {
                lemma_str_lt_total(v@[i as int]@, s@);
                assert forall|k: int| i <= k < v@.len() implies str_lt(s@, #[trigger] v@[k]@) by {
                    if k > i {
                        assert(str_lt(views(v@)[i as int], views(v@)[k]));
                        lemma_str_lt_transitive(s@, v@[i as int]@, v@[k]@);
                    }
                }
            }
            return (i, false);
        }
        i = i + 1;
    }
    (i, false)
}

/// Adds `s` to the strictly sorted `v`, keeping it strictly sorted.
pub fn insert_sorted(v: &mut Vec<String>, s: String)
    requires
        strictly_sorted(views(old(v)@)),
    ensures
        strictly_sorted(views(final(v)@)),
        views(final(v)@).to_set() == views(old(v)@).to_set().insert(s@),
{
    let (pos, present) = sorted_position(v, s.as_str());
    if present {
        assert(views(v@)[pos as int] == s@);
        assert(views(v@).to_set().insert(s@) =~= views(v@).to_set());
        return;
    }
    let ghost before = views(v@);
    let ghost sv = s@;
    v.insert(pos, s);
    let ghost after = views(v@);
    assert(after =~= before.take(pos as int).push(sv) + before.skip(pos as int));
    assert forall|i: int, j: int| 0 <= i < j < after.len() implies str_lt(
        #[trigger] after[i],
        #[trigger] after[j],
    ) by {
        if j < pos {
            assert(after[i] == before[i] && after[j] == before[j]);
        } else if j == pos {
            assert(after[i] == before[i]);
        } else if i == pos {
            assert(after[j] == before[j - 1]);
        } else if i < pos {
            assert(after[i] == before[i] && after[j] == before[j - 1]);
            assert(str_lt(before[i], sv));
            assert(str_lt(sv, before[j - 1]));
            lemma_str_lt_transitive(before[i], sv, before[j - 1]);
        } else {
            assert(after[i] == before[i - 1] && after[j] == before[j - 1]);
        }
    }
    assert(after.to_set() =~= before.to_set().insert(sv)) by {
        assert forall|x: Seq<char>| after.to_set().contains(x) implies before.to_set().insert(
            sv,
        ).contains(x) by {
            let k = choose|k: int| 0 <= k < after.len() && after[k] == x;
            if k < pos {
                assert(before[k] == x);
            } else if k > pos {
                assert(before[k - 1] == x);
            }
        }
        assert forall|x: Seq<char>| before.to_set().insert(sv).contains(x) implies after.to_set().contains(
            x,
        ) by {
            if x == sv {
                assert(after[pos as int] == x);
            } else {
                let k = choose|k: int| 0 <= k < before.len() && before[k] == x;
                if k < pos {
                    assert(after[k] == x);
                } else {
                    assert(after[k + 1] == x);
                }
            }
        }
    }
}

/// The distinct values of `items`, in ascending order (a sort followed by a dedup).
pub fn sorted_unique(items: Vec<String>) -> (r: Vec<String>)
    ensures
        strictly_sorted(views(r@)),
        views(r@).to_set() == views(items@).to_set(),
{
    let mut r: Vec<String> = Vec::new();
    let mut i: usize = 0;
    assert(views(r@).to_set() =~= views(items@).take(0).to_set());
    while i < items.len()
        invariant
            i <= items@.len(),
            strictly_sorted(views(r@)),
            views(r@).to_set() == views(items@).take(i as int).to_set(),
        decreases items@.len() - i,
    {
        insert_sorted(&mut r, items[i].clone());
        assert(views(items@).take(i as int + 1) =~= views(items@).take(i as int).push(
            items@[i as int]@,
        ));
        proof {
            views(items@).take(i as int).lemma_push_to_set_commute(items@[i as int]@);
        }
        i = i + 1;
    }
    assert(views(items@).take(items@.len() as int) =~= views(items@));
    r
}

/// Whether `s` is one of `items`.
pub fn contains_str(items: &Vec<String>, s: &str) -> (r: bool)
    ensures
        r == views(items@).contains(s@),
{
    let mut i: usize = 0;
    while i < items.len()
        invariant
            i <= items@.len(),
            forall|k: int| 0 <= k < i ==> items@[k]@ != s@,
        decreases items@.len() - i,
    {
        if str_eq(items[i].as_str(), s) {
            assert(views(items@)[i as int] == s@);
            return true;
        }
        i = i + 1;
    }
    proof {
        if views(items@).contains(s@) {
            let k = choose|k: int| 0 <= k < views(items@).len() && views(items@)[k] == s@;
            assert(items@[k]@ == s@);
        }
    }
    false
}

/// A strictly sorted sequence is fixed by the set of its values.
pub proof fn lemma_strictly_sorted_unique(a: Seq<Seq<char>>, b: Seq<Seq<char>>)
    requires
        strictly_sorted(a),
        strictly_sorted(b),
        a.to_set() == b.to_set(),
    ensures
        a == b,
    decreases a.len(),
{
    if a.len() == 0 {
        if b.len() > 0 {
            assert(b.to_set().contains(b[0]));
        }
        assert(a =~= b);
    } else if b.len() == 0 {
        assert(a.to_set().contains(a[0]));
    } else {
        assert(a.to_set().contains(a[0]));
        assert(b.to_set().contains(b[0]));
        let ka = choose|k: int| 0 <= k < b.len() && b[k] == a[0];
        let kb = choose|k: int| 0 <= k < a.len() && a[k] == b[0];
        if ka > 0 {
            assert(str_lt(b[0], b[ka]));
            if kb > 0 {
                assert(str_lt(a[0], a[kb]));
                lemma_str_lt_asymmetric(a[0], b[0]);
            } else {
                lemma_str_lt_irreflexive(a[0]);
            }
        } else if kb > 0 {
            assert(str_lt(a[0], a[kb]));
            lemma_str_lt_irreflexive(b[0]);
        }
        assert(a[0] == b[0]);
        let at = a.drop_first();
        let bt = b.drop_first();
        assert(at.to_set() =~= bt.to_set()) by {
            assert forall|x: Seq<char>| at.to_set().contains(x) implies bt.to_set().contains(x) by {
                let k = choose|k: int| 0 <= k < at.len() && at[k] == x;
                assert(a[k + 1] == x);
                assert(str_lt(a[0], x));
                assert(b.to_set().contains(x));
                let m = choose|m: int| 0 <= m < b.len() && b[m] == x;
                if m == 0 {
                    lemma_str_lt_irreflexive(x);
                }
                assert(bt[m - 1] == x);
            }
            assert forall|x: Seq<char>| bt.to_set().contains(x) implies at.to_set().contains(x) by {
                let k = choose|k: int| 0 <= k < bt.len() && bt[k] == x;
                assert(b[k + 1] == x);
                assert(str_lt(b[0], x));
                assert(a.to_set().contains(x));
                let m = choose|m: int| 0 <= m < a.len() && a[m] == x;
                if m == 0 {
                    lemma_str_lt_irreflexive(x);
                }
                assert(at[m - 1] == x);
            }
        }
        lemma_strictly_sorted_unique(at, bt);
        assert(a =~= seq![a[0]] + at);
        assert(b =~= seq![b[0]] + bt);
    }
}

/// Whether `a` sorts no later than `b`.
pub open spec fn str_le(a: Seq<char>, b: Seq<char>) -> bool {
    !str_lt(b, a)
}

/// The values of `s`, repeats kept, in ascending order (a sort).
pub open spec fn sorted_copy(s: Seq<Seq<char>>) -> Seq<Seq<char>> {
    choose|t: Seq<Seq<char>>| sorted(t) && t.to_multiset() == s.to_multiset()
}

/// `str_le` is a total order.
pub proof fn lemma_str_le_total_ordering()
    ensures
        vstd::relations::total_ordering(|a: Seq<char>, b: Seq<char>| str_le(a, b)),
{
    let le = |a: Seq<char>, b: Seq<char>| str_le(a, b);
    assert forall|x: Seq<char>| #[trigger] le(x, x) by {
        lemma_str_lt_irreflexive(x);
    }
    assert forall|x: Seq<char>, y: Seq<char>| #[trigger] le(x, y) && #[trigger] le(y, x) implies x == y by {
        lemma_str_lt_total(x, y);
    }
    assert forall|x: Seq<char>, y: Seq<char>, z: Seq<char>| #[trigger] le(x, y) && #[trigger] le(y, z) implies le(
        x,
        z,
    ) by {
        lemma_str_lt_total(x, y);
        lemma_str_lt_total(y, z);
        lemma_str_lt_total(x, z);
        if str_lt(z, x) {
            if str_lt(x, y) {
                lemma_str_lt_transitive(z, x, y);
                lemma_str_lt_asymmetric(z, y);
            } else if x == y {
            } else {
                lemma_str_lt_asymmetric(x, y);
            }
        }
    }
    assert forall|x: Seq<char>, y: Seq<char>| #[trigger] le(x, y) || #[trigger] le(y, x) by {
        lemma_str_lt_asymmetric(x, y);
    }
}

/// Two sorted sequences with the same values, repeats counted, are equal.
pub proof fn lemma_sorted_copy_unique(a: Seq<Seq<char>>, b: Seq<Seq<char>>)
    requires
        sorted(a),
        sorted(b),
        a.to_multiset() == b.to_multiset(),
    ensures
        a == b,
{
    let le = |x: Seq<char>, y: Seq<char>| str_le(x, y);
    lemma_str_le_total_ordering();
    assert(vstd::relations::sorted_by(a, le));
    assert(vstd::relations::sorted_by(b, le));
    vstd::seq_lib::lemma_sorted_unique(a, b, le);
}

/// The values of `items`, repeats kept, in ascending order.
pub fn sort_strings(items: Vec<String>) -> (r: Vec<String>)
    ensures
        views(r@) == sorted_copy(views(items@)),
{
    let ghost original = views(items@);
    let mut input = items;
    let mut out: Vec<String> = Vec::new();
    proof {
        broadcast use vstd::multiset::group_multiset_axioms, vstd::seq_lib::group_to_multiset_ensures;
        assert(views(out@) =~= Seq::<Seq<char>>::empty());
        assert(views(out@).to_multiset() =~= vstd::multiset::Multiset::empty());
        assert(views(input@) == original);
        assert(views(out@).to_multiset().add(views(input@).to_multiset()) =~= original.to_multiset());
    }
    while input.len() > 0
        invariant
            sorted(views(out@)),
            views(out@).to_multiset().add(views(input@).to_multiset()) == original.to_multiset(),
        decreases input@.len(),
    {
        let ghost in_before = views(input@);
        let c = input.remove(0);
        proof {
            assert(views(input@) =~= in_before.remove(0));
            vstd::seq_lib::to_multiset_remove(in_before, 0);
            vstd::seq_lib::to_multiset_contains(in_before, c@);
            assert(in_before.contains(c@)) by {
                assert(in_before[0] == c@);
            }
        }
        let mut pos: usize = out.len();
        while pos > 0 && str_less(c.as_str(), out[pos - 1].as_str())
            invariant
                pos <= out@.len(),
                forall|k: int| pos <= k < out@.len() ==> str_lt(c@, #[trigger] out@[k]@),
            decreases pos,
        {
            pos = pos - 1;
        }
        let ghost ob = views(out@);
        proof {
            assert forall|k: int| 0 <= k < pos implies !str_lt(c@, #[trigger] ob[k]) by {
                assert(!str_lt(c@, ob[pos - 1]));
                if k < pos - 1 {
                    assert(!str_lt(ob[pos - 1], ob[k]));
                    lemma_str_lt_total(c@, ob[pos - 1]);
                    lemma_str_lt_total(ob[k], ob[pos - 1]);
                    if str_lt(c@, ob[k]) {
                        if str_lt(ob[pos - 1], c@) {
                            lemma_str_lt_transitive(ob[pos - 1], c@, ob[k]);
                        }
                    }
                }
            }
        }
        let ghost cv = c@;
        out.insert(pos, c);
        proof {
            assert(views(out@) =~= ob.insert(pos as int, cv));
            vstd::seq_lib::to_multiset_insert(ob, pos as int, cv);
            let after = views(out@);
            assert forall|i: int, j: int| 0 <= i < j < after.len() implies !str_lt(#[trigger] after[j], #[trigger] after[i]) by {
                if i < pos && j == pos {
                    assert(after[i] == ob[i]);
                } else if i == pos && j > pos {
                    assert(after[j] == ob[j - 1]);
                    assert(str_lt(cv, out@[j]@));
                    lemma_str_lt_asymmetric(cv, ob[j - 1]);
                } else if i < pos && j > pos {
                    assert(after[i] == ob[i]);
                    assert(after[j] == ob[j - 1]);
                } else if i > pos {
                    assert(after[i] == ob[i - 1]);
                    assert(after[j] == ob[j - 1]);
                } else {
                    assert(after[i] == ob[i]);
                    assert(after[j] == ob[j]);
                }
            }
            broadcast use vstd::multiset::group_multiset_axioms;
            assert(views(out@).to_multiset().add(views(input@).to_multiset()) =~= original.to_multiset());
        }
    }
    proof {
        broadcast use vstd::multiset::group_multiset_axioms, vstd::seq_lib::group_to_multiset_ensures;
        assert(views(input@) =~= Seq::<Seq<char>>::empty());
        assert(views(input@).to_multiset() =~= vstd::multiset::Multiset::empty());
        assert(views(out@).to_multiset() =~= original.to_multiset());
        let t = sorted_copy(original);
        assert(sorted(views(out@)) && views(out@).to_multiset() == original.to_multiset());
        lemma_sorted_copy_unique(views(out@), t);
    }
    out
}

} // verus!
