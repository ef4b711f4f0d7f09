//! Core of a self-healing launcher for a long-running server process.
//!
//! Remote artifacts are kept in a per-destination content-addressed cache
//! ([`cache`]), resolved from declarative source specifications
//! ([`destination`], [`modrinth`], [`github`]), passed through a transform
//! pipeline ([`transform`]), and materialized into destination directories,
//! while a supervisor ([`supervisor`]) restarts the server process under a
//! minimum-interval backoff policy.
use vstd::prelude::*;

pub mod cache;
pub mod config;
pub mod destination;
pub mod github;
pub mod loader;
pub mod modrinth;
pub mod supervisor;
pub mod transform;

verus! {

/// Declared so that zip's failures can flow through the library's own
/// `Result` values, as the transform pipeline reports them.
#[verifier::external_type_specification]
#[verifier::external_body]
pub struct ExZipError(zip::result::ZipError);

/// Failure taxonomy for the synchronization engine.
///
/// `Io` and `Reqwest` stand for filesystem and network transport failures,
/// which only the unverified edge of the program can observe; it records them
/// here so that per-source outcomes can be aggregated by the materializer.
#[derive(Debug)]
pub enum Error {
    Io,
    Zip(zip::result::ZipError),
    Reqwest,
    MalformedGitHubReference(String),
    MissingArtifact,
}

/// Shared per-cycle context: the values the resolvers and the status channel
/// are built from. The unverified edge turns the GitHub token into an
/// authenticated HTTP client and the webhook URL into a status writer.
pub struct Context {
    pub github: Option<String>,
    pub status: Option<String>,
}

impl Clone for Context {
    fn clone(&self) -> (r: Self)
        ensures
            r == *self,
    {
        Context {
            github: match &self.github {
                Some(t) => Some(t.clone()),
                None => None,
            },
            status: match &self.status {
                Some(u) => Some(u.clone()),
                None => None,
            },
        }
    }
}

} // verus!
