//! The decisions of loading a configuration chain: what reading one file gives, what its
//! parsed content records and where the chain goes next, and the resolver the loaded
//! chain yields.

use vstd::prelude::*;

use vstd::utf8::{decode_utf8, valid_utf8};

use super::config::{
    add_config_bytes, base_view, config_document, config_file, config_files_json, document_index,
    effective_json, effective_wf, extends_chain, extends_order, files_sorted, find_document, mappings_view,
    merge_document, merged_base, merged_paths, raw_paths_wf, resolve_extends_path, spec_resolve_extends_path,
    ConfigDocument, EffectiveConfig, RawCompilerOptions,
};
use super::ModuleResolver;
use crate::flow::manifest::text_hash;
use crate::hashing::blake3_hex;
use crate::model::typescript::ModuleResolutionConfigFile;
use crate::order::str_lt;
use crate::text::{seq_contains, views};

verus! {

broadcast use vstd::string::group_string_axioms;

/// The text `bytes` encode, where they are UTF-8.
///
/// Wraps `std::str::from_utf8`, which std documents to succeed exactly when the bytes are
/// valid UTF-8, giving the string slice they encode.
#[verifier::external_body]
fn utf8_text(bytes: &[u8]) -> (r: Option<&str>)
    ensures
        r is Some <==> valid_utf8(bytes@),
        r matches Some(t) ==> t@ == decode_utf8(bytes@),
{
    std::str::from_utf8(bytes).ok()
}

/// What reading one configuration file gives.
pub enum ConfigRead {
    /// The file could not be read; loading stops with the error and records nothing.
    Unreadable(String),
    /// The file is recorded without options and loading stops with the error.
    Refused(ConfigDocument, String),
    /// The file's bytes and the text they encode, to be parsed.
    Text(Vec<u8>, String),
}

/// Whether `d` records the file at `path` with content `bytes` and no options.
pub open spec fn empty_document(d: ConfigDocument, path: Seq<char>, bytes: Seq<u8>) -> bool {
    &&& d.path@ == path
    &&& d.bytes == bytes.len()
    &&& d.hash@ == blake3_hex(bytes)
    &&& d.extends is None
    &&& d.compiler_options.base_url is None
    &&& d.compiler_options.paths is None
}

/// The bytes read so far after adding `len` more, saturating.
pub open spec fn bytes_after(total: usize, len: nat) -> int {
    if total + len > usize::MAX {
        usize::MAX as int
    } else {
        total + len
    }
}

/// Decides what reading the configuration at `path` gives, with `total` bytes read before
/// it: a failed read is unreadable; a file that takes the chain over its byte cap, or is
/// not UTF-8, is recorded without options and refused; otherwise its text is to be
/// parsed. Returns the bytes read so far with it.
pub fn config_read(path: &str, read: Result<Vec<u8>, String>, total: usize) -> (r: (usize, ConfigRead))
    ensures
        match read {
            Err(e) => r.0 == total && (r.1 matches ConfigRead::Unreadable(m) && m@ == "tsconfig-read-failed:"@ + e@),
            Ok(bytes) => {
                let next = bytes_after(total, bytes@.len());
                &&& r.0 == next
                &&& if next > 1048576 {
                    (r.1 matches ConfigRead::Refused(d, m) && empty_document(d, path@, bytes@)
                        && m@ == "tsconfig-bytes-capped-at-1048576"@)
                } else if !valid_utf8(bytes@) {
                    (r.1 matches ConfigRead::Refused(d, m) && empty_document(d, path@, bytes@)
                        && m@ == "tsconfig-not-utf8:"@ + path@)
                } else {
                    (r.1 matches ConfigRead::Text(b, t) && b@ == bytes@ && t@ == decode_utf8(bytes@))
                }
            },
        },
{
    let bytes = match read {
        Err(e) => {
            let mut m = "tsconfig-read-failed:".to_string();
            m.append(e.as_str());
            return (total, ConfigRead::Unreadable(m));
        },
        Ok(b) => b,
    };
    let (next, capped) = add_config_bytes(total, bytes.len());
    if let Some(m) = capped {
        let d = config_document(path, bytes.as_slice(), None, RawCompilerOptions { base_url: None, paths: None });
        return (next, ConfigRead::Refused(d, m));
    }
    let text = match utf8_text(bytes.as_slice()) {
        None => {
            let d = config_document(path, bytes.as_slice(), None, RawCompilerOptions { base_url: None, paths: None });
            let mut m = "tsconfig-not-utf8:".to_string();
            m.append(path);
            return (next, ConfigRead::Refused(d, m));
        },
        Some(t) => t.to_string(),
    };
    (next, ConfigRead::Text(bytes, text))
}

/// Decides what the parsed configuration at `path` records and where the chain goes
/// next: a parse error records the file without options and stops loading; otherwise the
/// file is recorded with its options, and the chain goes on to the file it extends, if
/// any, or stops with the error that resolving it gives.
pub fn config_parsed(
    path: &str,
    bytes: &[u8],
    parsed: Result<(Option<String>, RawCompilerOptions), String>,
) -> (r: (ConfigDocument, Result<Option<String>, String>))
    ensures
        match parsed {
            Err(e) => empty_document(r.0, path@, bytes@)
                && (r.1 matches Err(m) && m@ == "tsconfig-invalid-jsonc:"@ + path@ + ":"@ + e@),
            Ok(p) => {
                &&& r.0.path@ == path@
                &&& r.0.bytes == bytes@.len()
                &&& r.0.hash@ == blake3_hex(bytes@)
                &&& r.0.extends == p.0
                &&& r.0.compiler_options == p.1
                &&& match p.0 {
                    None => r.1 matches Ok(n) && n is None,
                    Some(x) => match spec_resolve_extends_path(path@, x@) {
                        Ok(q) => r.1 matches Ok(Some(n)) && n@ == q,
                        Err(e) => r.1 matches Err(m) && m@ == e,
                    },
                }
            },
        },
{
    match parsed {
        Err(e) => {
            let d = config_document(path, bytes, None, RawCompilerOptions { base_url: None, paths: None });
            let mut m = "tsconfig-invalid-jsonc:".to_string();
            m.append(path);
            m.append(":");
            m.append(e.as_str());
            (d, Err(m))
        },
        Ok((extends, options)) => {
            let next = match &extends {
                None => Ok(None),
                Some(x) => match resolve_extends_path(path, x.as_str()) {
                    Ok(q) => Ok(Some(q)),
                    Err(e) => Err(e),
                },
            };
            let d = config_document(path, bytes, extends, options);
            (d, next)
        },
    }
}

/// The `baseUrl` and mappings after merging the documents named by `chain`, in order,
/// passing over a name no document carries; or the first error a merge gives.
pub open spec fn merge_chain(chain: Seq<Seq<char>>, docs: Seq<ConfigDocument>) -> Result<
    (Option<(Seq<char>, Seq<char>)>, Seq<(Seq<char>, Seq<(Seq<char>, Seq<char>)>)>),
    Seq<char>,
>
    decreases chain.len(),
{
    if chain.len() == 0 {
        Ok((None, Seq::empty()))
    } else {
        match merge_chain(chain.drop_last(), docs) {
            Err(e) => Err(e),
            Ok(st) => match document_index(docs, chain.last()) {
                None => Ok(st),
                Some(i) => match merged_base(docs[i].path@, docs[i].compiler_options, st.0) {
                    Err(e) => Err(e),
                    Ok(b) => match merged_paths(docs[i].path@, docs[i].compiler_options, b, st.1) {
                        Err(e) => Err(e),
                        Ok(ms) => Ok((b, ms)),
                    },
                },
            },
        }
    }
}

/// The chain of documents from the root `tsconfig.json`, or none where it cannot be followed.
pub open spec fn root_chain(docs: Seq<ConfigDocument>) -> Seq<Seq<char>> {
    match extends_chain("tsconfig.json"@, docs, Seq::empty(), docs.len() as nat + 1) {
        Ok(c) => c,
        Err(_) => Seq::empty(),
    }
}

/// Whether resolver `r` lists the loaded documents `docs`, in their order, under the root
/// `tsconfig.json`.
pub open spec fn lists_documents(r: ModuleResolver, docs: Seq<ConfigDocument>) -> bool {
    &&& r.wf()
    &&& (r.basis.root_config matches Some(c) && c@ == "tsconfig.json"@)
    &&& r.basis.config_files@.len() == docs.len()
    &&& forall|i: int| 0 <= i < docs.len() ==> {
        &&& (#[trigger] r.basis.config_files@[i]).path@ == docs[i].path@
        &&& r.basis.config_files@[i].bytes == docs[i].bytes
        &&& r.basis.config_files@[i].hash@ == docs[i].hash@
    }
    &&& r.basis.exact_fingerprint@ == text_hash(config_files_json(r.basis.config_files@))
}

/// Whether resolver `r` is refused for `reason`: truncated when the reason is a cap,
/// else unavailable, with no effective options.
pub open spec fn refused_for(r: ModuleResolver, reason: Seq<char>) -> bool {
    &&& r.basis.status@ == if seq_contains(reason, "capped"@) {
        "truncated"@
    } else {
        "unavailable"@
    }
    &&& r.basis.effective_fingerprint@.len() == 0
    &&& views(r.basis.limitations@) == seq![reason]
    &&& r.effective_config() is None
}

/// Whether resolver `r` is complete with `baseUrl` `base` and mappings `ms`.
pub open spec fn completed_with(
    r: ModuleResolver,
    base: Option<(Seq<char>, Seq<char>)>,
    ms: Seq<(Seq<char>, Seq<(Seq<char>, Seq<char>)>)>,
) -> bool {
    &&& r.basis.status@ == "complete"@
    &&& (r.effective_config() matches Some(e) && base_view(e.base_url) == base && mappings_view(e.paths@) == ms)
    &&& r.basis.effective_fingerprint@ == text_hash(effective_json(base, ms))
}

fn files_of(docs: &Vec<ConfigDocument>) -> (r: Vec<ModuleResolutionConfigFile>)
    ensures
        r@.len() == docs@.len(),
        forall|i: int| 0 <= i < docs@.len() ==> {
            &&& (#[trigger] r@[i]).path@ == docs@[i].path@
            &&& r@[i].bytes == docs@[i].bytes
            &&& r@[i].hash@ == docs@[i].hash@
        },
{
    let mut files: Vec<ModuleResolutionConfigFile> = Vec::new();
    let mut i: usize = 0;
    while i < docs.len()
        invariant
            i <= docs@.len(),
            files@.len() == i,
            forall|k: int| 0 <= k < i ==> {
                &&& (#[trigger] files@[k]).path@ == docs@[k].path@
                &&& files@[k].bytes == docs@[k].bytes
                &&& files@[k].hash@ == docs@[k].hash@
            },
        decreases docs@.len() - i,
    {
        files.push(config_file(&docs[i]));
        i = i + 1;
    }
    files
}

/// The resolver a loaded configuration chain yields: refused for the loading error where
/// loading failed; otherwise the documents of the chain from the root `tsconfig.json` are
/// merged in order, refused for the first merge error, else complete. The documents are
/// listed in path order either way.
pub fn resolver_from_documents(docs: Vec<ConfigDocument>, loaded: Result<(), String>) -> (r: ModuleResolver)
    requires
        forall|i: int, j: int| 0 <= i < j < docs@.len() ==> str_lt(#[trigger] docs@[i].path@, #[trigger] docs@[j].path@),
        forall|i: int| 0 <= i < docs@.len() ==>
            ((#[trigger] docs@[i]).compiler_options.paths matches Some(ps) ==> raw_paths_wf(ps@)),
        docs@.len() < usize::MAX,
    ensures
        lists_documents(r, docs@),
        match loaded {
            Err(reason) => refused_for(r, reason@),
            Ok(_) => match merge_chain(root_chain(docs@), docs@) {
                Err(e) => refused_for(r, e),
                Ok(st) => completed_with(r, st.0, st.1),
            },
        },
{
    let files = files_of(&docs);
    assert(files_sorted(files@));
    if let Err(reason) = loaded {
        return ModuleResolver::unavailable(files, reason);
    }
    assert forall|i: int, j: int|
        0 <= i < docs@.len() && 0 <= j < docs@.len() && i != j implies #[trigger] docs@[i].path@
            != #[trigger] docs@[j].path@ by {
        crate::order::lemma_str_lt_irreflexive(docs@[i].path@);
    }
    let chain = match extends_order("tsconfig.json", &docs) {
        Ok(c) => c,
        Err(_) => Vec::new(),
    };
    let ghost cv = root_chain(docs@);
    assert(views(chain@) == cv);
    let mut effective = EffectiveConfig { base_url: None, paths: Vec::new() };
    assert(mappings_view(effective.paths@) =~= Seq::empty());
    let mut k: usize = 0;
    while k < chain.len()
        invariant
            k <= chain@.len(),
            views(chain@) == cv,
            cv == root_chain(docs@),
            effective_wf(effective),
            forall|i: int| 0 <= i < docs@.len() ==>
                ((#[trigger] docs@[i]).compiler_options.paths matches Some(ps) ==> raw_paths_wf(ps@)),
            forall|i: int, j: int|
                0 <= i < docs@.len() && 0 <= j < docs@.len() && i != j ==> #[trigger] docs@[i].path@
                    != #[trigger] docs@[j].path@,
            merge_chain(cv.take(k as int), docs@) == Ok::<_, Seq<char>>(
                (base_view(effective.base_url), mappings_view(effective.paths@)),
            ),
            files_sorted(files@),
            files@.len() == docs@.len(),
            forall|i: int| 0 <= i < docs@.len() ==> {
                &&& (#[trigger] files@[i]).path@ == docs@[i].path@
                &&& files@[i].bytes == docs@[i].bytes
                &&& files@[i].hash@ == docs@[i].hash@
            },
            loaded is Ok,
        decreases chain@.len() - k,
    {
        assert(cv.take(k as int + 1).drop_last() =~= cv.take(k as int));
        assert(cv.take(k as int + 1).last() == chain@[k as int]@);
        match find_document(&docs, chain[k].as_str()) {
            None => {},
            Some(i) => {
                let merged = merge_document(docs[i].path.as_str(), &docs[i].compiler_options, &mut effective);
                if let Err(reason) = merged {
                    proof {
                        assert(merge_chain(cv.take(k as int + 1), docs@) matches Err(x) && x == reason@);
                        lemma_merge_error_persists(cv, docs@, k as int + 1);
                        assert(cv.take(cv.len() as int) =~= cv);
                        assert(merge_chain(cv, docs@) matches Err(x) && x == reason@);
                    }
                    return ModuleResolver::unavailable(files, reason);
                }
            },
        }
        k = k + 1;
    }
    assert(cv.take(cv.len() as int) =~= cv);
    ModuleResolver::with_config(files, effective)
}

/// A merge error in a prefix of a chain is the error of the whole chain.
proof fn lemma_merge_error_persists(chain: Seq<Seq<char>>, docs: Seq<ConfigDocument>, n: int)
    requires
        0 <= n <= chain.len(),
        merge_chain(chain.take(n), docs) is Err,
    ensures
        merge_chain(chain.take(chain.len() as int), docs) == merge_chain(chain.take(n), docs),
    decreases chain.len() - n,
{
    if n < chain.len() {
        assert(chain.take(n + 1).drop_last() =~= chain.take(n));
        lemma_merge_error_persists(chain, docs, n + 1);
    }
}

} // verus!
