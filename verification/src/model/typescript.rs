//! TypeScript structural facts and resolution evidence.

use vstd::prelude::*;

use super::schemas::{SourcePosition, TYPESCRIPT_RESOLUTION_SCHEMA};

verus! {

/// One import statement of a file.
#[derive(Debug, PartialEq, Eq)]
pub struct TypeScriptImport {
    pub specifier: String,
    pub kind: String,
    pub position: SourcePosition,
    pub local_name: Option<String>,
    pub imported_name: Option<String>,
    pub type_only: bool,
}

impl Clone for TypeScriptImport {
    fn clone(&self) -> (r: Self)
        ensures
            r == *self,
    {
        TypeScriptImport {
            specifier: self.specifier.clone(),
            kind: self.kind.clone(),
            position: self.position,
            local_name: self.local_name.clone(),
            imported_name: self.imported_name.clone(),
            type_only: self.type_only,
        }
    }
}

/// One declaration of a file.
#[derive(Debug, PartialEq, Eq)]
pub struct TypeScriptDeclaration {
    pub name: String,
    pub kind: String,
    pub exported: bool,
    pub position: SourcePosition,
    pub qualified_name: String,
    pub ast_fingerprint: String,
    pub owner: Option<String>,
    pub static_member: bool,
    pub visibility: String,
    pub abstract_member: bool,
    pub declaration_only: bool,
}

impl Clone for TypeScriptDeclaration {
    fn clone(&self) -> (r: Self)
        ensures
            r == *self,
    {
        TypeScriptDeclaration {
            name: self.name.clone(),
            kind: self.kind.clone(),
            exported: self.exported,
            position: self.position,
            qualified_name: self.qualified_name.clone(),
            ast_fingerprint: self.ast_fingerprint.clone(),
            owner: self.owner.clone(),
            static_member: self.static_member,
            visibility: self.visibility.clone(),
            abstract_member: self.abstract_member,
            declaration_only: self.declaration_only,
        }
    }
}

/// One call or construction site of a file.
#[derive(Debug, Clone, PartialEq, Eq)]
pub struct TypeScriptCall {
    pub callee: Option<String>,
    pub dynamic: bool,
    pub position: SourcePosition,
    pub caller: Option<String>,
    pub callee_form: String,
    pub receiver: Option<String>,
    pub shadowed: bool,
    pub enclosing_type: Option<String>,
}

/// One `extends` or `implements` clause of a class or interface.
#[derive(Debug, Clone, PartialEq, Eq)]
pub struct TypeScriptHeritage {
    pub owner: String,
    pub relation: String,
    pub reference: String,
    pub form: String,
    pub position: SourcePosition,
    pub type_only: bool,
}

/// One export of a file.
#[derive(Debug, PartialEq, Eq)]
pub struct TypeScriptExport {
    pub exported_name: String,
    pub local_name: Option<String>,
    pub kind: String,
    pub source: Option<String>,
    pub type_only: bool,
}

impl Clone for TypeScriptExport {
    fn clone(&self) -> (r: Self)
        ensures
            r == *self,
    {
        TypeScriptExport {
            exported_name: self.exported_name.clone(),
            local_name: self.local_name.clone(),
            kind: self.kind.clone(),
            source: self.source.clone(),
            type_only: self.type_only,
        }
    }
}

/// How one reference of a file resolved.
#[derive(Debug, PartialEq, Eq)]
pub struct SymbolResolution {
    pub path: String,
    pub caller_node_id: String,
    pub reference: String,
    pub form: String,
    pub status: String,
    pub reason: String,
    pub candidate_node_ids: Vec<String>,
    pub occurrence_count: u64,
}

/// Whether two resolution records carry the same fields.
pub open spec fn same_resolution(a: SymbolResolution, b: SymbolResolution) -> bool {
    &&& a.path == b.path
    &&& a.caller_node_id == b.caller_node_id
    &&& a.reference == b.reference
    &&& a.form == b.form
    &&& a.status == b.status
    &&& a.reason == b.reason
    &&& a.candidate_node_ids@ == b.candidate_node_ids@
    &&& a.occurrence_count == b.occurrence_count
}

impl Clone for SymbolResolution {
    fn clone(&self) -> (r: Self)
        ensures
            same_resolution(r, *self),
    {
        let candidate_node_ids = self.candidate_node_ids.clone();
        proof {
            assert(candidate_node_ids@ =~= self.candidate_node_ids@);
        }
        SymbolResolution {
            path: self.path.clone(),
            caller_node_id: self.caller_node_id.clone(),
            reference: self.reference.clone(),
            form: self.form.clone(),
            status: self.status.clone(),
            reason: self.reason.clone(),
            candidate_node_ids,
            occurrence_count: self.occurrence_count,
        }
    }
}

/// The structural facts of one parsed file.
#[derive(Debug, Clone, PartialEq, Eq)]
pub struct TypeScriptFacts {
    pub schema_version: String,
    pub path: String,
    pub language: String,
    pub source_hash: String,
    pub parser: String,
    pub parse_status: String,
    pub imports: Vec<TypeScriptImport>,
    pub declarations: Vec<TypeScriptDeclaration>,
    pub exports: Vec<TypeScriptExport>,
    pub calls: Vec<TypeScriptCall>,
    pub unsupported: Vec<String>,
    pub resolution_records: Vec<SymbolResolution>,
    pub canonical_fingerprint: String,
    pub heritage: Vec<TypeScriptHeritage>,
}

/// The bounded resolution records of one observation.
#[derive(Debug, Clone, PartialEq, Eq)]
pub struct ResolutionEvidence {
    pub schema_version: String,
    pub status: String,
    pub records: Vec<SymbolResolution>,
    pub truncated: bool,
    pub omissions: Vec<String>,
}

/// One module-resolution configuration file that was read.
#[derive(Debug, PartialEq, Eq)]
pub struct ModuleResolutionConfigFile {
    pub path: String,
    pub bytes: u64,
    pub hash: String,
}

impl Clone for ModuleResolutionConfigFile {
    fn clone(&self) -> (r: Self)
        ensures
            r == *self,
    {
        ModuleResolutionConfigFile { path: self.path.clone(), bytes: self.bytes, hash: self.hash.clone() }
    }
}

/// The module-resolution configuration an observation was derived under.
#[derive(Debug, PartialEq, Eq)]
pub struct ModuleResolutionBasis {
    pub schema_version: String,
    pub status: String,
    pub root_config: Option<String>,
    pub config_files: Vec<ModuleResolutionConfigFile>,
    pub exact_fingerprint: String,
    pub effective_fingerprint: String,
    pub limitations: Vec<String>,
    pub omissions: Vec<String>,
}

impl Clone for ModuleResolutionBasis {
    fn clone(&self) -> (r: Self)
        ensures
            r.schema_version == self.schema_version,
            r.status == self.status,
            r.root_config == self.root_config,
            r.config_files@ == self.config_files@,
            r.exact_fingerprint == self.exact_fingerprint,
            r.effective_fingerprint == self.effective_fingerprint,
            r.limitations@ == self.limitations@,
            r.omissions@ == self.omissions@,
    {
        let config_files = self.config_files.clone();
        let limitations = self.limitations.clone();
        let omissions = self.omissions.clone();
        proof {
            assert(config_files@ =~= self.config_files@);
            assert(limitations@ =~= self.limitations@);
            assert(omissions@ =~= self.omissions@);
        }
        ModuleResolutionBasis {
            schema_version: self.schema_version.clone(),
            status: self.status.clone(),
            root_config: self.root_config.clone(),
            config_files,
            exact_fingerprint: self.exact_fingerprint.clone(),
            effective_fingerprint: self.effective_fingerprint.clone(),
            limitations,
            omissions,
        }
    }
}

impl Default for ModuleResolutionBasis {
    fn default() -> (r: Self)
        ensures
            r.schema_version@ == "flopeek-typescript-module-resolution/v1"@,
            r.status@ == "unavailable"@,
            r.root_config is None,
            r.config_files@.len() == 0,
            r.exact_fingerprint@.len() == 0,
            r.effective_fingerprint@.len() == 0,
            r.limitations@.len() == 1,
            r.limitations@[0]@ == "module-resolution-basis-unavailable"@,
            r.omissions@.len() == 0,
    {
        let mut limitations = Vec::new();
        limitations.push("module-resolution-basis-unavailable".to_string());
        ModuleResolutionBasis {
            schema_version: "flopeek-typescript-module-resolution/v1".to_string(),
            status: "unavailable".to_string(),
            root_config: None,
            config_files: Vec::new(),
            exact_fingerprint: String::new(),
            effective_fingerprint: String::new(),
            limitations,
            omissions: Vec::new(),
        }
    }
}

impl Default for ResolutionEvidence {
    fn default() -> (r: Self)
        ensures
            r.schema_version@ == TYPESCRIPT_RESOLUTION_SCHEMA@,
            r.status@ == "unavailable"@,
            r.records@.len() == 0,
            !r.truncated,
            r.omissions@.len() == 1,
            r.omissions@[0]@
                == "resolution evidence is unavailable until a v2 TypeScript facts scan"@,
    {
        let mut omissions = Vec::new();
        omissions.push("resolution evidence is unavailable until a v2 TypeScript facts scan".to_string());
        ResolutionEvidence {
            schema_version: TYPESCRIPT_RESOLUTION_SCHEMA.to_string(),
            status: "unavailable".to_string(),
            records: Vec::new(),
            truncated: false,
            omissions,
        }
    }
}

} // verus!
