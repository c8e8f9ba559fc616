//! Repository and checkout identity.

use vstd::prelude::*;

use crate::graph::fingerprints::{labelled_hash, nul_join_seq, nul_joined};
use crate::hashing::{blake3_hex, blake3_hex_of};
use crate::text::{chars_of, seq_starts_with, split, split_seq, starts_with, str_eq, views};
use crate::flow::manifest::opt_view;

verus! {

broadcast use vstd::string::group_string_axioms;

pub const MANIFEST_PATH: &'static str = ".flopeek-repository.json";
pub const MANIFEST_SCHEMA: &'static str = "flopeek-repository-identity/v1";
pub const MAX_MANIFEST_BYTES: usize = 16 * 1024;

/// The repository identity manifest committed at the repository root.
#[derive(Debug, Clone, PartialEq, Eq)]
pub struct IdentityManifest {
    pub schema_version: String,
    pub repository_id: String,
}

/// The identity evidence an observation was derived under.
#[derive(Debug, Clone, PartialEq, Eq, Default)]
pub struct IdentityBasis {
    pub schema_version: String,
    pub status: String,
    pub repository_id: Option<String>,
    pub manifest_path: Option<String>,
    pub manifest_bytes: Option<u64>,
    pub manifest_hash: Option<String>,
    pub limitations: Vec<String>,
}

/// A resolved project identity.
#[derive(Debug, Clone, PartialEq, Eq)]
pub struct ResolvedIdentity {
    pub project_id: String,
    pub checkout_id: String,
    pub repository_id: Option<String>,
    pub basis: IdentityBasis,
    pub manifest: Option<IdentityManifest>,
}

/// Whether `c` is an ASCII hexadecimal digit.
pub open spec fn is_hex_digit(c: char) -> bool {
    ('0' <= c && c <= '9') || ('a' <= c && c <= 'f') || ('A' <= c && c <= 'F')
}

/// Whether `value` is `repo_` followed by a UUID in its 8-4-4-4-12 hexadecimal form.
pub open spec fn spec_valid_repository_id(value: Seq<char>) -> bool {
    let uuid = value.skip(5);
    &&& seq_starts_with(value, "repo_"@)
    &&& uuid.len() == 36
    &&& forall|i: int|
        0 <= i < 36 ==> if i == 8 || i == 13 || i == 18 || i == 23 {
            #[trigger] uuid[i] == '-'
        } else {
            is_hex_digit(uuid[i])
        }
}

/// Whether `value` is a repository id: `repo_` and a UUID.
pub fn valid_repository_id(value: &str) -> (r: bool)
    ensures
        r == spec_valid_repository_id(value@),
{
    if !starts_with(value, "repo_") {
        return false;
    }
    let chars = chars_of(value);
    proof {
        reveal_strlit("repo_");
    }
    if chars.len() != 41 {
        return false;
    }
    let mut i: usize = 0;
    while i < 36
        invariant
            chars@ == value@,
            chars@.len() == 41,
            i <= 36,
            forall|k: int|
                0 <= k < i ==> if k == 8 || k == 13 || k == 18 || k == 23 {
                    #[trigger] value@.skip(5)[k] == '-'
                } else {
                    is_hex_digit(value@.skip(5)[k])
                },
        decreases 36 - i,
    {
        let c = chars[i + 5];
        assert(value@.skip(5)[i as int] == c);
        let ok = if i == 8 || i == 13 || i == 18 || i == 23 {
            c == '-'
        } else {
            ('0' <= c && c <= '9') || ('a' <= c && c <= 'f') || ('A' <= c && c <= 'F')
        };
        if !ok {
            return false;
        }
        i = i + 1;
    }
    true
}

/// The project id derived from a repository id, shared by every checkout of it.
pub open spec fn spec_repository_project_id(repository_id: Seq<char>) -> Seq<char> {
    "project_"@ + blake3_hex(vstd::utf8::encode_utf8("flopeek-project-repository-v1"@ + seq!['\0'] + repository_id))
}

/// The project id derived from a local checkout path.
pub open spec fn spec_checkout_id(identity: Seq<char>) -> Seq<char> {
    "project_"@ + blake3_hex(vstd::utf8::encode_utf8("flopeek-project-v1"@ + seq!['\0'] + identity))
}

/// The portable project id of a repository id.
pub fn repository_project_id(repository_id: &str) -> (r: String)
    ensures
        r@ == spec_repository_project_id(repository_id@),
{
    let mut parts: Vec<&str> = Vec::new();
    parts.push(repository_id);
    let input = nul_joined("flopeek-project-repository-v1", &parts);
    proof {
        let ps = parts@.map_values(|p: &str| p@);
        assert(ps.drop_last() =~= Seq::<Seq<char>>::empty());
        assert(ps.len() == 1 && ps[0] == repository_id@);
        assert(nul_join_seq("flopeek-project-repository-v1"@, ps.drop_last()) == "flopeek-project-repository-v1"@);
        assert(nul_join_seq("flopeek-project-repository-v1"@, ps) == "flopeek-project-repository-v1"@ + seq!['\0'] + ps.last());
        assert(input@ == "flopeek-project-repository-v1"@ + seq!['\0'] + repository_id@);
    }
    labelled_hash("project_", input.as_str())
}

/// The local project id of a checkout, from the canonical path of its root.
pub fn checkout_id(identity: &str) -> (r: String)
    ensures
        r@ == spec_checkout_id(identity@),
{
    let mut parts: Vec<&str> = Vec::new();
    parts.push(identity);
    let input = nul_joined("flopeek-project-v1", &parts);
    proof {
        let ps = parts@.map_values(|p: &str| p@);
        assert(ps.drop_last() =~= Seq::<Seq<char>>::empty());
        assert(ps.len() == 1 && ps[0] == identity@);
        assert(nul_join_seq("flopeek-project-v1"@, ps.drop_last()) == "flopeek-project-v1"@);
        assert(nul_join_seq("flopeek-project-v1"@, ps) == "flopeek-project-v1"@ + seq!['\0'] + ps.last());
        assert(input@ == "flopeek-project-v1"@ + seq!['\0'] + identity@);
    }
    labelled_hash("project_", input.as_str())
}

/// Whether the manifest path under `root` has no parent-directory component.
pub open spec fn spec_manifest_path_is_safe(root: Seq<char>) -> bool {
    !split_seq(root, '/').contains(".."@)
}

/// Whether the manifest path under `root` stays free of parent-directory components.
pub fn manifest_path_is_safe(root: &str) -> (r: bool)
    ensures
        r == spec_manifest_path_is_safe(root@),
{
    let parts = split(root, '/');
    let mut i: usize = 0;
    while i < parts.len()
        invariant
            i <= parts@.len(),
            views(parts@) == split_seq(root@, '/'),
            forall|k: int| 0 <= k < i ==> parts@[k]@ != ".."@,
        decreases parts@.len() - i,
    {
        if str_eq(parts[i].as_str(), "..") {
            assert(views(parts@)[i as int] == ".."@);
            return false;
        }
        i = i + 1;
    }
    proof {
        if views(parts@).contains(".."@) {
            let k = choose|k: int| 0 <= k < views(parts@).len() && views(parts@)[k] == ".."@;
            assert(parts@[k]@ == ".."@);
        }
    }
    true
}

/// The path of the identity manifest under `root`, joined as `Path::join` joins.
pub open spec fn spec_manifest_path(root: Seq<char>) -> Seq<char> {
    if root.len() == 0 {
        MANIFEST_PATH@
    } else if root.last() == '/' {
        root + MANIFEST_PATH@
    } else {
        root + "/"@ + MANIFEST_PATH@
    }
}

/// The path of the identity manifest under `root`.
pub fn manifest_path(root: &str) -> (r: String)
    ensures
        r@ == spec_manifest_path(root@),
{
    let chars = chars_of(root);
    let mut r = root.to_string();
    if chars.len() > 0 && chars[chars.len() - 1] != '/' {
        r.append("/");
    }
    r.append(MANIFEST_PATH);
    r
}

/// The identity of a checkout without a repository manifest: local only.
pub fn unavailable_identity(checkout: String) -> (r: ResolvedIdentity)
    ensures
        r.project_id@ == checkout@,
        r.checkout_id@ == checkout@,
        r.repository_id is None,
        r.manifest is None,
        r.basis.schema_version@ == MANIFEST_SCHEMA@,
        r.basis.status@ == "unavailable"@,
        r.basis.repository_id is None,
        r.basis.manifest_path is None,
        r.basis.manifest_bytes is None,
        r.basis.manifest_hash is None,
        views(r.basis.limitations@) == seq![
            "repository-identity-manifest-unavailable"@,
            "cross-checkout-context-unavailable"@,
        ],
{
    let mut limitations: Vec<String> = Vec::new();
    limitations.push("repository-identity-manifest-unavailable".to_string());
    limitations.push("cross-checkout-context-unavailable".to_string());
    assert(views(limitations@) =~= seq![
        "repository-identity-manifest-unavailable"@,
        "cross-checkout-context-unavailable"@,
    ]);
    ResolvedIdentity {
        project_id: checkout.clone(),
        checkout_id: checkout,
        repository_id: None,
        basis: IdentityBasis {
            schema_version: MANIFEST_SCHEMA.to_string(),
            status: "unavailable".to_string(),
            repository_id: None,
            manifest_path: None,
            manifest_bytes: None,
            manifest_hash: None,
            limitations,
        },
        manifest: None,
    }
}

/// The value given for `key` among `fields`, if any: the first such field.
pub open spec fn field_value(fields: Seq<(String, Option<String>)>, key: Seq<char>) -> Option<Option<Seq<char>>>
    decreases fields.len(),
{
    if fields.len() == 0 {
        None
    } else if fields[0].0@ == key {
        Some(match fields[0].1 {
            Some(v) => Some(v@),
            None => None,
        })
    } else {
        field_value(fields.drop_first(), key)
    }
}

/// The first field name that occurs twice among `fields`, if any.
pub open spec fn first_duplicate(fields: Seq<(String, Option<String>)>) -> Option<Seq<char>>
    decreases fields.len(),
{
    if fields.len() == 0 {
        None
    } else {
        match first_duplicate(fields.drop_last()) {
            Some(k) => Some(k),
            None => if exists|i: int| 0 <= i < fields.len() - 1 && #[trigger] fields[i].0@ == fields.last().0@ {
                Some(fields.last().0@)
            } else {
                None
            },
        }
    }
}

/// Whether `fields` names exactly the two manifest fields.
pub open spec fn manifest_keys(fields: Seq<(String, Option<String>)>) -> bool {
    &&& field_value(fields, "schemaVersion"@) is Some
    &&& field_value(fields, "repositoryId"@) is Some
    &&& forall|i: int|
        0 <= i < fields.len() ==> (#[trigger] fields[i]).0@ == "schemaVersion"@ || fields[i].0@
            == "repositoryId"@
}

/// The prefix of every manifest error.
pub const MANIFEST_INVALID: &'static str = "repository-identity-manifest-invalid: ";

/// What reading a manifest from its top-level fields yields.
pub open spec fn spec_manifest_from_fields(fields: Seq<(String, Option<String>)>) -> Result<(Seq<char>, Seq<char>), Seq<char>> {
    match first_duplicate(fields) {
        Some(k) => Err(MANIFEST_INVALID@ + "duplicate field "@ + k),
        None => if !manifest_keys(fields) {
            Err(MANIFEST_INVALID@ + "unknown or missing fields"@)
        } else {
            match (field_value(fields, "schemaVersion"@), field_value(fields, "repositoryId"@)) {
                (Some(Some(schema)), Some(Some(id))) => if schema != MANIFEST_SCHEMA@ {
                    Err(MANIFEST_INVALID@ + "unsupported schema "@ + schema)
                } else if !spec_valid_repository_id(id) {
                    Err(MANIFEST_INVALID@ + "repositoryId must be repo_<uuid>"@)
                } else {
                    Ok((schema, id))
                },
                _ => Err(MANIFEST_INVALID@ + "fields must be strings"@),
            }
        }
    }
}

fn find_field(fields: &Vec<(String, Option<String>)>, key: &str) -> (r: Option<Option<String>>)
    ensures
        match r {
            None => field_value(fields@, key@) is None,
            Some(None) => field_value(fields@, key@) == Some(None::<Seq<char>>),
            Some(Some(v)) => field_value(fields@, key@) == Some(Some(v@)),
        },
{
    let mut i: usize = 0;
    assert(fields@.skip(0) =~= fields@);
    while i < fields.len()
        invariant
            i <= fields@.len(),
            field_value(fields@, key@) == field_value(fields@.skip(i as int), key@),
        decreases fields@.len() - i,
    {
        assert(fields@.skip(i as int)[0] == fields@[i as int]);
        assert(fields@.skip(i as int).drop_first() =~= fields@.skip(i as int + 1));
        if str_eq(fields[i].0.as_str(), key) {
            return match &fields[i].1 {
                Some(v) => Some(Some(v.clone())),
                None => Some(None),
            };
        }
        i = i + 1;
    }
    None
}

/// Reads the repository identity manifest from its top-level JSON fields, each with its
/// value when that value is a string.
pub fn manifest_from_fields(fields: &Vec<(String, Option<String>)>) -> (r: Result<IdentityManifest, String>)
    ensures
        match spec_manifest_from_fields(fields@) {
            Ok((schema, id)) => (r matches Ok(m) && m.schema_version@ == schema && m.repository_id@ == id),
            Err(e) => (r matches Err(x) && x@ == e),
        },
{
    let mut i: usize = 0;
    while i < fields.len()
        invariant
            i <= fields@.len(),
            first_duplicate(fields@.take(i as int)) is None,
        decreases fields@.len() - i,
    {
        assert(fields@.take(i as int + 1).drop_last() =~= fields@.take(i as int));
        let mut j: usize = 0;
        while j < i
            invariant
                j <= i < fields@.len(),
                first_duplicate(fields@.take(i as int)) is None,
                forall|k: int| 0 <= k < j ==> fields@[k].0@ != fields@[i as int].0@,
            decreases i - j,
        {
            if str_eq(fields[j].0.as_str(), fields[i].0.as_str()) {
                proof {
                    let t = fields@.take(i as int + 1);
                    assert(t.drop_last() =~= fields@.take(i as int));
                    assert(t[j as int].0@ == t.last().0@);
                    assert(first_duplicate(t) == Some(fields@[i as int].0@));
                }
                let mut e = MANIFEST_INVALID.to_string();
                e.append("duplicate field ");
                e.append(fields[i].0.as_str());
                proof {
                    lemma_first_duplicate_prefix(fields@, i as int + 1);
                }
                return Err(e);
            }
            j = j + 1;
        }
        proof {
            let t = fields@.take(i as int + 1);
            assert forall|k: int| 0 <= k < t.len() - 1 implies #[trigger] t[k].0@ != t.last().0@ by {
                assert(t[k] == fields@[k]);
            }
        }
        i = i + 1;
    }
    assert(fields@.take(fields@.len() as int) =~= fields@);
    let schema = find_field(fields, "schemaVersion");
    let id = find_field(fields, "repositoryId");
    let mut k: usize = 0;
    let mut only_known = true;
    while k < fields.len()
        invariant
            k <= fields@.len(),
            only_known == forall|m: int|
                0 <= m < k ==> (#[trigger] fields@[m]).0@ == "schemaVersion"@ || fields@[m].0@
                    == "repositoryId"@,
        decreases fields@.len() - k,
    {
        if !(str_eq(fields[k].0.as_str(), "schemaVersion") || str_eq(fields[k].0.as_str(), "repositoryId")) {
            only_known = false;
        }
        k = k + 1;
    }
    if schema.is_none() || id.is_none() || !only_known {
        let mut e = MANIFEST_INVALID.to_string();
        e.append("unknown or missing fields");
        return Err(e);
    }
    match (schema, id) {
        (Some(Some(schema)), Some(Some(id))) => {
            if !str_eq(schema.as_str(), MANIFEST_SCHEMA) {
                let mut e = MANIFEST_INVALID.to_string();
                e.append("unsupported schema ");
                e.append(schema.as_str());
                return Err(e);
            }
            if !valid_repository_id(id.as_str()) {
                let mut e = MANIFEST_INVALID.to_string();
                e.append("repositoryId must be repo_<uuid>");
                return Err(e);
            }
            Ok(IdentityManifest { schema_version: schema, repository_id: id })
        },
        _ => {
            let mut e = MANIFEST_INVALID.to_string();
            e.append("fields must be strings");
            Err(e)
        },
    }
}

proof fn lemma_first_duplicate_prefix(fields: Seq<(String, Option<String>)>, n: int)
    requires
        0 < n <= fields.len(),
        first_duplicate(fields.take(n)) == Some(fields[n - 1].0@),
    ensures
        first_duplicate(fields) == Some(fields[n - 1].0@),
    decreases fields.len() - n,
{
    if n < fields.len() {
        assert(fields.drop_last().take(n) =~= fields.take(n));
        lemma_first_duplicate_prefix(fields.drop_last(), n);
    } else {
        assert(fields.take(n) =~= fields);
    }
}

/// The identity of a checkout whose repository manifest is `bytes`, read into its top-level
/// `fields`.
pub open spec fn manifest_identity(
    r: Result<ResolvedIdentity, String>,
    checkout: Seq<char>,
    bytes: Seq<u8>,
    fields: Result<Vec<(String, Option<String>)>, String>,
) -> bool {
    &&& bytes.len() > MAX_MANIFEST_BYTES ==> (r matches Err(e) && e@ == MANIFEST_INVALID@
            + "manifest exceeds 16384 bytes"@)
    &&& bytes.len() <= MAX_MANIFEST_BYTES ==> match fields {
            Err(m) => (r matches Err(e) && e@ == MANIFEST_INVALID@ + m@),
            Ok(fs) => match spec_manifest_from_fields(fs@) {
                Err(m) => (r matches Err(e) && e@ == m),
                Ok((schema, id)) => (r matches Ok(ident) && {
                    &&& ident.project_id@ == spec_repository_project_id(id)
                    &&& ident.checkout_id@ == checkout
                    &&& ident.repository_id matches Some(x) && x@ == id
                    &&& ident.manifest matches Some(m) && m.schema_version@ == schema && m.repository_id@ == id
                    &&& ident.basis.schema_version@ == MANIFEST_SCHEMA@
                    &&& ident.basis.status@ == "available"@
                    &&& ident.basis.repository_id matches Some(x) && x@ == id
                    &&& ident.basis.manifest_path matches Some(p) && p@ == MANIFEST_PATH@
                    &&& ident.basis.manifest_bytes == Some(bytes.len() as u64)
                    &&& ident.basis.manifest_hash matches Some(h) && h@ == blake3_hex(bytes)
                    &&& views(ident.basis.limitations@) == seq!["checkout-identity-is-local-only"@]
                }),
            },
        }
}

/// The identity of a checkout whose repository manifest is `bytes`, read into its top-level
/// `fields`: refused when the manifest is over its size bound or invalid.
pub fn identity_from_manifest(
    checkout: String,
    bytes: &[u8],
    fields: Result<Vec<(String, Option<String>)>, String>,
) -> (r: Result<ResolvedIdentity, String>)
    ensures
        manifest_identity(r, checkout@, bytes@, fields),
{
    if bytes.len() > MAX_MANIFEST_BYTES {
        let mut e = MANIFEST_INVALID.to_string();
        e.append("manifest exceeds 16384 bytes");
        return Err(e);
    }
    let fields = match fields {
        Ok(f) => f,
        Err(m) => {
            let mut e = MANIFEST_INVALID.to_string();
            e.append(m.as_str());
            return Err(e);
        },
    };
    let manifest = match manifest_from_fields(&fields) {
        Ok(m) => m,
        Err(e) => return Err(e),
    };
    let manifest_hash = blake3_hex_of(bytes);
    let project_id = repository_project_id(manifest.repository_id.as_str());
    let mut limitations: Vec<String> = Vec::new();
    limitations.push("checkout-identity-is-local-only".to_string());
    assert(views(limitations@) =~= seq!["checkout-identity-is-local-only"@]);
    Ok(ResolvedIdentity {
        project_id,
        checkout_id: checkout,
        repository_id: Some(manifest.repository_id.clone()),
        basis: IdentityBasis {
            schema_version: MANIFEST_SCHEMA.to_string(),
            status: "available".to_string(),
            repository_id: Some(manifest.repository_id.clone()),
            manifest_path: Some(MANIFEST_PATH.to_string()),
            manifest_bytes: Some(bytes.len() as u64),
            manifest_hash: Some(manifest_hash),
            limitations,
        },
        manifest: Some(manifest),
    })
}

/// Two checkouts of one repository, whose manifests hold the same bytes, share their
/// project identity and repository id and keep their own checkout identity; an invalid
/// manifest is refused alike in both.
pub proof fn law_identity_is_shared_across_checkouts(
    first: Result<ResolvedIdentity, String>,
    second: Result<ResolvedIdentity, String>,
    first_checkout: Seq<char>,
    second_checkout: Seq<char>,
    bytes: Seq<u8>,
    fields: Result<Vec<(String, Option<String>)>, String>,
)
    requires
        manifest_identity(first, first_checkout, bytes, fields),
        manifest_identity(second, second_checkout, bytes, fields),
    ensures
        first is Ok <==> second is Ok,
        first matches Ok(a) ==> (second matches Ok(b) && a.project_id@ == b.project_id@ && opt_view(a.repository_id)
            == opt_view(b.repository_id) && a.checkout_id@ == first_checkout && b.checkout_id@ == second_checkout),
        first matches Err(e) ==> (second matches Err(f) && e@ == f@),
{
}

} // verus!
