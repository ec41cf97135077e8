use vstd::prelude::*;

verus! {

/// The trust root of a deployment. The operator name is made unique per run
/// (see `normalize_config`) unless `reuse_existing` asks for a previously
/// minted operator identity.
#[derive(Debug, Clone, PartialEq, Eq)]
pub struct OperatorConfig {
    pub name: String,
    pub reuse_existing: bool,
}

/// A subject made available by one account to others, either with stream or
/// with request/reply (service) semantics.
#[derive(Debug, Clone, PartialEq, Eq)]
pub struct ExportConfig {
    pub subject: String,
    pub is_service: bool,
}

/// A subject pulled in from the account whose human label is `account`.
#[derive(Debug, Clone, PartialEq, Eq)]
pub struct ImportConfig {
    pub subject: String,
    pub account: String,
    pub local_subject: Option<String>,
    pub service: bool,
}

/// A credential principal scoped to one account.
#[derive(Debug, Clone, PartialEq, Eq)]
pub struct UserConfig {
    pub name: String,
    pub allowed_subjects: Vec<String>,
    pub denied_subjects: Vec<String>,
    pub expiry: Option<String>,
}

/// One tenant subject-space. `unique_name` is globally unique within the
/// deployment; when left empty it is assigned during normalization.
#[derive(Debug, Clone, PartialEq, Eq)]
pub struct AccountConfig {
    pub name: String,
    pub users: Vec<UserConfig>,
    pub is_system_account: bool,
    pub unique_name: String,
    pub max_connections: Option<i32>,
    pub max_payload: Option<i64>,
    pub exports: Vec<ExportConfig>,
    pub imports: Vec<ImportConfig>,
}

/// A `src`-to-`dest` subject rewrite, used for Jetstream subject transforms
/// and republish rules.
#[derive(Debug, Clone, PartialEq, Eq)]
pub struct SubjectTransformConfig {
    pub src: String,
    pub dest: String,
}

#[derive(Debug, Clone, PartialEq, Eq)]
pub struct JetStreamConfig {
    pub enabled: bool,
    pub store_dir: Option<String>,
    pub domain: Option<String>,
    pub max_memory: Option<i64>,
    pub max_storage: Option<i64>,
    pub subject_transform: Option<SubjectTransformConfig>,
    pub republish: Vec<SubjectTransformConfig>,
}

/// A leafnode link to another broker: where to dial and which produced
/// credential bundle to present.
#[derive(Debug, Clone, PartialEq, Eq)]
pub struct RemoteConfig {
    pub url: String,
    pub account: String,
    pub credentials: String,
}

#[derive(Debug, Clone, PartialEq, Eq)]
pub struct LeafNodeConfig {
    pub port: Option<u16>,
    pub remotes: Vec<RemoteConfig>,
}

#[derive(Debug, Clone, PartialEq, Eq)]
pub struct TlsConfig {
    pub cert_file: String,
    pub key_file: String,
    pub ca_file: Option<String>,
}

/// One server unit of the deployment. `mappings` are rendered as a
/// subject-mappings block, in the order given here.
#[derive(Debug, Clone, PartialEq, Eq)]
pub struct ServerConfig {
    pub name: String,
    pub port: u16,
    pub jetstream: JetStreamConfig,
    pub leafnodes: LeafNodeConfig,
    pub accounts: Vec<AccountConfig>,
    pub output_dir: String,
    pub tls: Option<TlsConfig>,
    pub mappings: Vec<SubjectTransformConfig>,
}

/// The whole deployment descriptor: one operator, one or more server units.
#[derive(Debug, Clone, PartialEq, Eq)]
pub struct NatsConfig {
    pub name: Option<String>,
    pub operator: OperatorConfig,
    pub servers: Vec<ServerConfig>,
}

/// How a server resolves account tokens: an in-place preload map, or an
/// externally hosted resolver.
#[derive(Debug, Clone, PartialEq, Eq)]
pub enum ResolverType {
    Memory,
    Url(String),
}

#[derive(Debug, Clone, PartialEq, Eq)]
pub struct ServerOptions {
    pub port: u16,
    pub jetstream: bool,
    pub resolver: ResolverType,
}

/// The manifest of a completed run: where every produced artifact was put.
#[derive(Debug, Clone, PartialEq, Eq)]
pub struct SetupResult {
    pub operator_jwt_path: String,
    pub account_jwt_paths: Vec<String>,
    pub user_creds_paths: Vec<String>,
    pub server_config_path: String,
    pub server_config_paths: Option<Vec<String>>,
}

} // verus!
