//! Canonical Diagnostic Context definition identity.

use vstd::prelude::*;

use super::diagnostic::DiagnosticContext;
use crate::graph::targets::clone_strings;
use crate::hashing::{sha256_hex, sha256_hex_of};
use crate::json::{json_uint, push_json_uint};
use crate::order::{lemma_strictly_sorted_unique, sorted_unique, strictly_sorted};
use crate::text::views;

verus! {

broadcast use vstd::string::group_string_axioms;

/// The schema of the canonical definition a Diagnostic Context basis is hashed from.
pub const DIAGNOSTIC_CONTEXT_BASIS_SCHEMA: &'static str = "flopeek-diagnostic-context-basis/v1";

/// The UTF-8 bytes of a text.
pub open spec fn utf8(s: Seq<char>) -> Seq<u8> {
    vstd::utf8::encode_utf8(s)
}

/// A number as eight big-endian bytes.
pub open spec fn be64(n: u64) -> Seq<u8> {
    seq![
        ((n / 0x100000000000000) % 256) as u8,
        ((n / 0x1000000000000) % 256) as u8,
        ((n / 0x10000000000) % 256) as u8,
        ((n / 0x100000000) % 256) as u8,
        ((n / 0x1000000) % 256) as u8,
        ((n / 0x10000) % 256) as u8,
        ((n / 0x100) % 256) as u8,
        (n % 256) as u8,
    ]
}

/// One named value, each part preceded by its byte length.
pub open spec fn field_bytes(name: Seq<char>, value: Seq<char>) -> Seq<u8> {
    be64(utf8(name).len() as u64) + utf8(name) + be64(utf8(value).len() as u64) + utf8(value)
}

/// The fields of the values of a list, in order.
pub open spec fn values_bytes(name: Seq<char>, values: Seq<Seq<char>>) -> Seq<u8>
    decreases values.len(),
{
    if values.len() == 0 {
        Seq::empty()
    } else {
        values_bytes(name, values.drop_last()) + field_bytes(name, values.last())
    }
}

/// A list: its length, then each of its values.
pub open spec fn list_bytes(name: Seq<char>, values: Seq<Seq<char>>) -> Seq<u8> {
    field_bytes(name, json_uint(values.len())) + values_bytes(name, values)
}

/// The distinct values of a list, in ascending order.
pub open spec fn canonical_set(values: Seq<Seq<char>>) -> Seq<Seq<char>> {
    choose|t: Seq<Seq<char>>| strictly_sorted(t) && t.to_set() == values.to_set()
}

/// The canonical definition of a Diagnostic Context: its intent, symptom and expected
/// behavior, its focus refs as sets, and its constraints, acceptance criteria and open
/// questions as lists.
pub open spec fn basis_bytes(c: DiagnosticContext) -> Seq<u8> {
    utf8(DIAGNOSTIC_CONTEXT_BASIS_SCHEMA@)
        + field_bytes("intent"@, c.intent@)
        + field_bytes("symptom"@, c.symptom@)
        + field_bytes("expectedBehavior"@, c.expected_behavior@)
        + list_bytes("focusContextRefs"@, canonical_set(views(c.focus_context_refs@)))
        + list_bytes("focusFlowRefs"@, canonical_set(views(c.focus_flow_refs@)))
        + list_bytes("constraints"@, views(c.constraints@))
        + list_bytes("acceptanceCriteria"@, views(c.acceptance_criteria@))
        + list_bytes("unresolvedQuestions"@, views(c.unresolved_questions@))
}

/// The definition fingerprint of a Diagnostic Context.
pub open spec fn spec_basis_fingerprint(c: DiagnosticContext) -> Seq<char> {
    "sha256:"@ + sha256_hex(basis_bytes(c))
}

fn push_bytes(out: &mut Vec<u8>, bytes: &[u8])
    ensures
        final(out)@ == old(out)@ + bytes@,
{
    let ghost start = out@;
    let mut i: usize = 0;
    while i < bytes.len()
        invariant
            i <= bytes@.len(),
            out@ == start + bytes@.take(i as int),
        decreases bytes@.len() - i,
    {
        out.push(bytes[i]);
        assert(bytes@.take(i as int + 1) =~= bytes@.take(i as int).push(bytes@[i as int]));
        i = i + 1;
    }
    assert(bytes@.take(bytes@.len() as int) =~= bytes@);
}

fn push_be64(out: &mut Vec<u8>, n: u64)
    ensures
        final(out)@ == old(out)@ + be64(n),
{
    let ghost start = out@;
    out.push(((n / 0x100000000000000) % 256) as u8);
    out.push(((n / 0x1000000000000) % 256) as u8);
    out.push(((n / 0x10000000000) % 256) as u8);
    out.push(((n / 0x100000000) % 256) as u8);
    out.push(((n / 0x1000000) % 256) as u8);
    out.push(((n / 0x10000) % 256) as u8);
    out.push(((n / 0x100) % 256) as u8);
    out.push((n % 256) as u8);
    assert(out@ =~= start + be64(n));
}

fn push_field(out: &mut Vec<u8>, name: &str, value: &str)
    ensures
        final(out)@ == old(out)@ + field_bytes(name@, value@),
{
    let ghost start = out@;
    let nb = name.as_bytes();
    let vb = value.as_bytes();
    push_be64(out, nb.len() as u64);
    push_bytes(out, nb);
    push_be64(out, vb.len() as u64);
    push_bytes(out, vb);
    assert(out@ =~= start + field_bytes(name@, value@));
}

fn push_list(out: &mut Vec<u8>, name: &str, values: &Vec<String>)
    ensures
        final(out)@ == old(out)@ + list_bytes(name@, views(values@)),
{
    let ghost start = out@;
    let mut count = String::new();
    push_json_uint(&mut count, values.len() as u64);
    push_field(out, name, count.as_str());
    let ghost mid = out@;
    let mut i: usize = 0;
    while i < values.len()
        invariant
            i <= values@.len(),
            out@ == mid + values_bytes(name@, views(values@).take(i as int)),
        decreases values@.len() - i,
    {
        let ghost t = views(values@).take(i as int + 1);
        assert(t.drop_last() =~= views(values@).take(i as int));
        assert(t.last() == values@[i as int]@);
        push_field(out, name, values[i].as_str());
        i = i + 1;
    }
    assert(views(values@).take(values@.len() as int) =~= views(values@));
    assert(out@ =~= start + list_bytes(name@, views(values@)));
}

pub(crate) fn canonical(values: &Vec<String>) -> (r: Vec<String>)
    ensures
        views(r@) == canonical_set(views(values@)),
{
    let copy = clone_strings(values);
    let r = sorted_unique(copy);
    proof {
        let t = canonical_set(views(values@));
        assert(strictly_sorted(views(r@)) && views(r@).to_set() == views(values@).to_set());
        assert(strictly_sorted(t) && t.to_set() == views(values@).to_set());
        lemma_strictly_sorted_unique(views(r@), t);
    }
    r
}

/// The definition fingerprint of a Diagnostic Context: a SHA-256 hash of its canonical
/// definition, which treats focus refs as sets and ignores its revisions, actor, status
/// and graph basis.
pub fn diagnostic_context_basis_fingerprint(context: &DiagnosticContext) -> (r: String)
    ensures
        r@ == spec_basis_fingerprint(*context),
{
    let mut bytes: Vec<u8> = Vec::new();
    push_bytes(&mut bytes, DIAGNOSTIC_CONTEXT_BASIS_SCHEMA.as_bytes());
    push_field(&mut bytes, "intent", context.intent.as_str());
    push_field(&mut bytes, "symptom", context.symptom.as_str());
    push_field(&mut bytes, "expectedBehavior", context.expected_behavior.as_str());
    let focus_context = canonical(&context.focus_context_refs);
    push_list(&mut bytes, "focusContextRefs", &focus_context);
    let focus_flow = canonical(&context.focus_flow_refs);
    push_list(&mut bytes, "focusFlowRefs", &focus_flow);
    push_list(&mut bytes, "constraints", &context.constraints);
    push_list(&mut bytes, "acceptanceCriteria", &context.acceptance_criteria);
    push_list(&mut bytes, "unresolvedQuestions", &context.unresolved_questions);
    assert(bytes@ =~= basis_bytes(*context));
    let digest = sha256_hex_of(bytes.as_slice());
    let mut r = "sha256:".to_string();
    r.append(digest.as_str());
    r
}

/// Two contexts with the same intent, symptom, expected behavior, constraints,
/// acceptance criteria and open questions, and the same sets of focus Context Refs and
/// focus Flow Refs (in any order, repeated or not), have the same definition fingerprint,
/// whatever their ids, projects, revisions, actors, times, status, graph bases and
/// last-known-good fields.
pub proof fn law_basis_fingerprint_ignores_focus_order(a: DiagnosticContext, b: DiagnosticContext)
    requires
        a.intent@ == b.intent@,
        a.symptom@ == b.symptom@,
        a.expected_behavior@ == b.expected_behavior@,
        views(a.focus_context_refs@).to_set() == views(b.focus_context_refs@).to_set(),
        views(a.focus_flow_refs@).to_set() == views(b.focus_flow_refs@).to_set(),
        views(a.constraints@) == views(b.constraints@),
        views(a.acceptance_criteria@) == views(b.acceptance_criteria@),
        views(a.unresolved_questions@) == views(b.unresolved_questions@),
    ensures
        spec_basis_fingerprint(a) == spec_basis_fingerprint(b),
{
    assert(basis_bytes(a) =~= basis_bytes(b));
}

} // verus!
