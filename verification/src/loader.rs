//! Source loader: decides, for one source, whether the cached artifact can be
//! reused, a download is owed, or the source has nothing to offer.
//!
//! Resolution and the artifact fetch are network work done by the unverified
//! edge of the program; the decisions between them are taken here. A cycle for
//! one source is: resolve a candidate, call [`plan_source`], fetch bytes only
//! when the plan says so, then finish with [`complete_fetch`].
use vstd::prelude::*;

use crate::cache::Entry;
use crate::cache::File;
use crate::cache::Reference;
use crate::cache::ReferenceView;
use crate::cache::Token;
use crate::cache::Updater;
use crate::cache::UpdateResult;
use crate::cache::entry_after_update;
use crate::cache::entry_matches;
use crate::transform::Transform;
use crate::transform::apply_ops_spec;
use crate::Error;

verus! {

/// A resolved download candidate: content fingerprint, download locator and
/// suggested file name, exactly as a source resolver reports them.
pub struct Candidate {
    pub token: Token,
    pub url: String,
    pub name: String,
}

/// The loader's decision once resolution has finished and before any
/// artifact bytes are fetched.
pub enum LoadPlan {
    /// The artifact is already in the cache: reuse it, download nothing.
    Ready(Entry, Reference),
    /// A download is owed: fetch the locator's bytes, then finish the plan
    /// with [`complete_fetch`]. Carries the write capability, the URL and the
    /// suggested file name.
    Fetch(Updater, String, String),
    /// Resolution yielded no candidate and nothing is cached: the source
    /// fails with a missing artifact, and the slot is handed back unchanged.
    Missing(Entry),
}

/// Decide what to do for one source from the resolver's answer.
///
/// With no candidate, a previously accepted artifact is the fallback and its
/// absence is the only failure. With a candidate, the fingerprint comparison
/// decides: a match reuses the cached artifact without fetching the payload,
/// a mismatch hands out the single-use commit capability.
pub fn plan_source(entry: Entry, candidate: Option<Candidate>) -> (r: LoadPlan)
    ensures
        (candidate is None && entry@.stored is Some) ==> (r matches LoadPlan::Ready(e, rf)
            && e@ == entry@
            && rf@ == (ReferenceView { file: entry@.stored->Some_0, changed: false })),
        (candidate is None && entry@.stored is None) ==> (r matches LoadPlan::Missing(e)
            && e@ == entry@),
        (candidate is Some && entry_matches(entry@, candidate->Some_0.token@)) ==> (r
            matches LoadPlan::Ready(e, rf)
            && e@ == entry@
            && rf@ == (ReferenceView { file: entry@.stored->Some_0, changed: false })),
        (candidate is Some && !entry_matches(entry@, candidate->Some_0.token@)) ==> (r
            matches LoadPlan::Fetch(u, url, name)
            && u.prior() == entry@
            && u.pending() == candidate->Some_0.token@
            && url@ == candidate->Some_0.url@
            && name@ == candidate->Some_0.name@),
{
    match candidate {
        Some(c) => match entry.try_update(c.token) {
            UpdateResult::Match(e, rf) => LoadPlan::Ready(e, rf),
            UpdateResult::Mismatch(u) => LoadPlan::Fetch(u, c.url, c.name),
        },
        None => match entry.get_existing() {
            Some(rf) => LoadPlan::Ready(entry, rf),
            None => LoadPlan::Missing(entry),
        },
    }
}

/// Finish a `Fetch` plan once the artifact bytes have arrived: run the
/// transform pipeline, commit through the capability only when it yields a
/// file, and otherwise hand the slot back untouched — a fresh download whose
/// bytes the transforms reject must fail rather than silently keep going,
/// while the stale-but-valid cache entry stays intact for the next cycle.
///
/// Success is owed whenever the pipeline yields a file: the commit then
/// happens, with exactly the pipeline's output and the pending fingerprint.
/// Every failure leaves the slot at its prior state; a missing-artifact
/// failure means the pipeline rejected the bytes, a zip failure means the
/// archive could not be read — and in both those cases the pipeline yields
/// nothing.
pub fn complete_fetch(updater: Updater, fetched: &File, transform: &Transform) -> (r: (
    Entry,
    Result<Reference, Error>,
))
    ensures
        (apply_ops_spec(transform@, fetched@) matches Some(out) ==> (r.1 matches Ok(rf)
            && rf@ == (ReferenceView { file: out, changed: true })
            && r.0@ == entry_after_update(updater.prior(), updater.pending(), out))),
        (r.1 matches Ok(rf) ==> apply_ops_spec(transform@, fetched@) matches Some(out)
            && rf@ == (ReferenceView { file: out, changed: true })
            && r.0@ == entry_after_update(updater.prior(), updater.pending(), out)),
        (r.1 is Err ==> r.0@ == updater.prior() && apply_ops_spec(transform@, fetched@) is None),
        (r.1 matches Err(e) ==> e is MissingArtifact || e is Zip),
{
    match transform.apply(fetched) {
        Ok(Some(out)) => {
            let (entry, rf) = updater.update(out);
            (entry, Ok(rf))
        },
        Ok(None) => (updater.reject(), Err(Error::MissingArtifact)),
        Err(e) => (updater.reject(), Err(e)),
    }
}

} // verus!
