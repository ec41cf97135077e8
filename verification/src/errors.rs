use vstd::prelude::*;

verus! {

/// Everything that can make a run abort. Each variant carries the entity it
/// is about, so a caller can surface a full context chain.
#[derive(Debug, Clone, PartialEq, Eq)]
pub enum ForgeError {
    /// Configuration validation: an import names an account label that no
    /// account of the deployment carries.
    UnknownImportTarget { account: String, target_name: String },
    /// Configuration validation: two accounts resolved to the same
    /// `unique_name`, so the deployment-wide uniqueness invariant is broken.
    DuplicateUniqueName { unique_name: String },
    /// Configuration validation: a leafnode remote of a server references an
    /// account label for which no identity artifact was produced.
    UnknownRemoteAccount { server: String, account: String },
    /// The account import graph contains a cycle through the named account.
    DependencyCycle { involved_account: String },
    /// A token does not consist of exactly three dot-separated segments.
    MalformedToken { segments: usize },
    /// A token payload is not valid encoded structured data.
    ClaimDecodeError,
    /// A token payload decodes but holds no subject claim.
    MissingSubjectClaim,
    /// Credential distribution found no produced bundle with the file name
    /// that a leafnode remote references.
    MissingCredential { remote: String },
}

} // verus!
