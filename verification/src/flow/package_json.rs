//! Reading the fields of a package manifest that entries come from, as JSON.

use vstd::prelude::*;

use super::manifest::{BinField, ManifestJson, PackageFields};
use crate::text::str_eq;

verus! {

broadcast use vstd::string::group_string_axioms;

/// A JSON value as `serde_json` parses it.
#[verifier::external_type_specification]
#[verifier::external_body]
pub struct ExJsonValue(serde_json::Value);

/// A parsed JSON value with its items and members copied out, members in the order the
/// parsed object holds them.
#[derive(Debug)]
pub enum JsonTree {
    Null,
    Bool(bool),
    /// A number, as `serde_json` writes it.
    Number(String),
    Text(String),
    Array(Vec<JsonTree>),
    Object(Vec<(String, JsonTree)>),
}

/// A JSON value by its plain values.
pub enum JsonView {
    Null,
    Bool(bool),
    Number(Seq<char>),
    Text(Seq<char>),
    Array(Seq<JsonView>),
    Object(Seq<(Seq<char>, JsonView)>),
}

/// The plain values of a parsed JSON value.
pub open spec fn tree_view(t: JsonTree) -> JsonView
    decreases t,
{
    match t {
        JsonTree::Null => JsonView::Null,
        JsonTree::Bool(b) => JsonView::Bool(b),
        JsonTree::Number(n) => JsonView::Number(n@),
        JsonTree::Text(s) => JsonView::Text(s@),
        JsonTree::Array(items) => JsonView::Array(trees_view(items@)),
        JsonTree::Object(members) => JsonView::Object(members_view(members@)),
    }
}

/// The plain values of each item.
pub open spec fn trees_view(items: Seq<JsonTree>) -> Seq<JsonView>
    decreases items,
{
    if items.len() == 0 {
        Seq::empty()
    } else {
        trees_view(items.drop_last()).push(tree_view(items[items.len() - 1]))
    }
}

/// The plain values of each member.
pub open spec fn members_view(members: Seq<(String, JsonTree)>) -> Seq<(Seq<char>, JsonView)>
    decreases members,
{
    if members.len() == 0 {
        Seq::empty()
    } else {
        members_view(members.drop_last()).push((members[members.len() - 1].0@, tree_view(members[members.len() - 1].1)))
    }
}

/// What `serde_json` parses from `bytes`: the value, or nothing where the bytes are not
/// JSON.
pub uninterp spec fn json_parse(bytes: Seq<u8>) -> Option<JsonView>;

/// `serde_json::from_slice` into a `serde_json::Value`, copied out as a `JsonTree`;
/// `None` where the bytes are not JSON. The parse is named, not stated: it depends on the
/// bytes alone.
#[verifier::external_body]
fn parse_json_tree(bytes: &[u8]) -> (r: Option<JsonTree>)
    ensures
        match r {
            Some(t) => json_parse(bytes@) == Some(tree_view(t)),
            None => json_parse(bytes@) is None,
        },
{
    serde_json::from_slice::<serde_json::Value>(bytes).ok().map(|value| json_tree_of(&value))
}

/// Copies a `serde_json::Value` out as a `JsonTree`, variant by variant (numbers by
/// their `serde_json` text); the copying half of `parse_json_tree`.
#[verifier::external_body]
fn json_tree_of(value: &serde_json::Value) -> JsonTree {
    match value {
        serde_json::Value::Null => JsonTree::Null,
        serde_json::Value::Bool(b) => JsonTree::Bool(*b),
        serde_json::Value::Number(n) => JsonTree::Number(n.to_string()),
        serde_json::Value::String(s) => JsonTree::Text(s.clone()),
        serde_json::Value::Array(items) => JsonTree::Array(items.iter().map(json_tree_of).collect()),
        serde_json::Value::Object(members) => JsonTree::Object(
            members.iter().map(|(key, member)| (key.clone(), json_tree_of(member))).collect(),
        ),
    }
}

/// The value of the first member named `key`.
pub open spec fn member_of(members: Seq<(Seq<char>, JsonView)>, key: Seq<char>) -> Option<JsonView>
    decreases members.len(),
{
    if members.len() == 0 {
        None
    } else if members[0].0 == key {
        Some(members[0].1)
    } else {
        member_of(members.drop_first(), key)
    }
}

/// The text of a string value.
pub open spec fn text_view(v: JsonView) -> Option<Seq<char>> {
    match v {
        JsonView::Text(s) => Some(s),
        _ => None,
    }
}

/// Each member with its text, where its value is a string.
pub open spec fn member_texts(members: Seq<(Seq<char>, JsonView)>) -> Seq<(Seq<char>, Option<Seq<char>>)> {
    members.map_values(|m: (Seq<char>, JsonView)| (m.0, text_view(m.1)))
}

/// Named texts by their plain values.
pub open spec fn named_texts_view(v: Seq<(String, Option<String>)>) -> Seq<(Seq<char>, Option<Seq<char>>)> {
    v.map_values(|m: (String, Option<String>)| (
        m.0@,
        match m.1 {
            Some(t) => Some(t@),
            None => None,
        },
    ))
}

/// The `scripts` field: the object's members, each with its text.
pub open spec fn scripts_of(members: Seq<(Seq<char>, JsonView)>) -> Option<Seq<(Seq<char>, Option<Seq<char>>)>> {
    match member_of(members, "scripts"@) {
        Some(JsonView::Object(s)) => Some(member_texts(s)),
        _ => None,
    }
}

/// The `bin` field by its plain values: a text, named texts, or another value.
pub open spec fn bin_view(b: BinField) -> (Option<Seq<char>>, Option<Seq<(Seq<char>, Option<Seq<char>>)>>) {
    match b {
        BinField::Text(t) => (Some(t@), None),
        BinField::Named(m) => (None, Some(named_texts_view(m@))),
        BinField::Other => (None, None),
    }
}

/// The `bin` field as the manifest gives it.
pub open spec fn bin_of(members: Seq<(Seq<char>, JsonView)>) -> Option<(Option<Seq<char>>, Option<Seq<(Seq<char>, Option<Seq<char>>)>>)> {
    match member_of(members, "bin"@) {
        None => None,
        Some(JsonView::Text(t)) => Some((Some(t), None)),
        Some(JsonView::Object(m)) => Some((None, Some(member_texts(m)))),
        Some(_) => Some((None, None)),
    }
}

/// A text field as the manifest gives it: absent, or present with its text where it is
/// a string.
pub open spec fn text_field_of(members: Seq<(Seq<char>, JsonView)>, key: Seq<char>) -> Option<Option<Seq<char>>> {
    match member_of(members, key) {
        None => None,
        Some(v) => Some(text_view(v)),
    }
}

/// An optional text field by its plain values.
pub open spec fn opt_text_view(f: Option<Option<String>>) -> Option<Option<Seq<char>>> {
    match f {
        None => None,
        Some(None) => Some(None),
        Some(Some(t)) => Some(Some(t@)),
    }
}

/// The fields hold what the object's members give.
pub open spec fn fields_of(f: PackageFields, members: Seq<(Seq<char>, JsonView)>) -> bool {
    &&& match f.scripts {
        Some(s) => scripts_of(members) == Some(named_texts_view(s@)),
        None => scripts_of(members) is None,
    }
    &&& match f.bin {
        Some(b) => bin_of(members) == Some(bin_view(b)),
        None => bin_of(members) is None,
    }
    &&& opt_text_view(f.main) == text_field_of(members, "main"@)
    &&& opt_text_view(f.module) == text_field_of(members, "module"@)
}

fn find_member<'a>(members: &'a Vec<(String, JsonTree)>, key: &str) -> (r: Option<&'a JsonTree>)
    ensures
        match r {
            Some(v) => member_of(members_view(members@), key@) == Some(tree_view(*v)),
            None => member_of(members_view(members@), key@) is None,
        },
{
    let ghost mv = members_view(members@);
    let mut i: usize = 0;
    proof {
        lemma_members_view(members@);
    }
    assert(mv.skip(0) =~= mv);
    while i < members.len()
        invariant
            i <= members@.len(),
            mv == members_view(members@),
            mv.len() == members@.len(),
            forall|k: int| 0 <= k < members@.len() ==> (#[trigger] mv[k]) == (members@[k].0@, tree_view(members@[k].1)),
            member_of(mv, key@) == member_of(mv.skip(i as int), key@),
        decreases members@.len() - i,
    {
        assert(mv.skip(i as int)[0] == mv[i as int]);
        assert(mv.skip(i as int).drop_first() =~= mv.skip(i as int + 1));
        if str_eq(members[i].0.as_str(), key) {
            return Some(&members[i].1);
        }
        i = i + 1;
    }
    None
}

proof fn lemma_members_view(members: Seq<(String, JsonTree)>)
    ensures
        members_view(members).len() == members.len(),
        forall|k: int| 0 <= k < members.len() ==> (#[trigger] members_view(members)[k]) == (members[k].0@, tree_view(members[k].1)),
    decreases members.len(),
{
    if members.len() > 0 {
        lemma_members_view(members.drop_last());
        assert forall|k: int| 0 <= k < members.len() implies (#[trigger] members_view(members)[k]) == (members[k].0@, tree_view(members[k].1)) by {
            if k < members.len() - 1 {
                assert(members.drop_last()[k] == members[k]);
            }
        }
    }
}

fn text_of(value: &JsonTree) -> (r: Option<String>)
    ensures
        match r {
            Some(t) => text_view(tree_view(*value)) == Some(t@),
            None => text_view(tree_view(*value)) is None,
        },
{
    match value {
        JsonTree::Text(s) => Some(s.clone()),
        _ => None,
    }
}

fn texts_of(members: &Vec<(String, JsonTree)>) -> (r: Vec<(String, Option<String>)>)
    ensures
        named_texts_view(r@) == member_texts(members_view(members@)),
{
    proof {
        lemma_members_view(members@);
    }
    let mut r: Vec<(String, Option<String>)> = Vec::new();
    let mut i: usize = 0;
    while i < members.len()
        invariant
            i <= members@.len(),
            members_view(members@).len() == members@.len(),
            forall|k: int| 0 <= k < members@.len() ==> (#[trigger] members_view(members@)[k]) == (members@[k].0@, tree_view(members@[k].1)),
            named_texts_view(r@) == member_texts(members_view(members@).take(i as int)),
        decreases members@.len() - i,
    {
        let text = text_of(&members[i].1);
        let ghost before = named_texts_view(r@);
        let entry = (members[i].0.clone(), text);
        r.push(entry);
        assert(named_texts_view(r@) =~= before.push(named_texts_view(r@).last()));
        assert(member_texts(members_view(members@).take(i as int + 1)) =~= member_texts(members_view(members@).take(i as int)).push(
            (members@[i as int].0@, text_view(tree_view(members@[i as int].1))),
        ));
        i = i + 1;
    }
    assert(members_view(members@).take(members@.len() as int) =~= members_view(members@));
    r
}

/// Whether `m` is what reading `bytes` as a package manifest gives.
pub open spec fn manifest_read(bytes: Seq<u8>, m: ManifestJson) -> bool {
    match json_parse(bytes) {
        None => m is Invalid,
        Some(JsonView::Object(members)) => m matches ManifestJson::Object(f) && fields_of(f, members),
        Some(_) => m is NotObject,
    }
}

/// The package manifest fields that entries are read from, as the JSON parse of `bytes`
/// gives them: not JSON, not an object, or the object's `scripts` (when an object),
/// `bin`, `main` and `module`.
pub fn manifest_json(bytes: &[u8]) -> (r: ManifestJson)
    ensures
        manifest_read(bytes@, r),
{
    let value = match parse_json_tree(bytes) {
        None => return ManifestJson::Invalid,
        Some(value) => value,
    };
    let members = match &value {
        JsonTree::Object(members) => members,
        _ => return ManifestJson::NotObject,
    };
    let scripts = match find_member(members, "scripts") {
        Some(JsonTree::Object(s)) => Some(texts_of(s)),
        _ => None,
    };
    let bin = match find_member(members, "bin") {
        None => None,
        Some(b) => match b {
            JsonTree::Text(target) => Some(BinField::Text(target.clone())),
            JsonTree::Object(named) => Some(BinField::Named(texts_of(named))),
            _ => Some(BinField::Other),
        },
    };
    let main = match find_member(members, "main") {
        None => None,
        Some(m) => Some(text_of(m)),
    };
    let module = match find_member(members, "module") {
        None => None,
        Some(m) => Some(text_of(m)),
    };
    ManifestJson::Object(PackageFields { scripts, bin, main, module })
}

} // verus!
