//! Destination materializer: the declared destinations, the aggregation of
//! per-source load outcomes, and the plan for rebuilding a destination
//! directory from cache references.
//!
//! A source that fails to load is excluded from the destination's output and
//! never aborts the destination's build (partial-failure isolation). A
//! destination is always fully rebuilt, never patched incrementally, so a
//! partially applied directory is repaired by the next successful cycle.
use vstd::prelude::*;

use crate::cache::File;
use crate::cache::FileView;
use crate::cache::Reference;
use crate::cache::ReferenceView;
use crate::transform::Transform;
use crate::Error;

verus! {

/// Pairwise-distinct keys: at most one entry per name.
pub open spec fn distinct_keys<T>(entries: Seq<(String, T)>) -> bool {
    forall|i: int, j: int| 0 <= i < j < entries.len() ==> entries[i].0@ != entries[j].0@
}

/// Declarative pointer to one remote artifact; the set of providers is
/// closed and dispatched by variant.
pub enum SourceSpec {
    GitHub { owner: String, repo: String, asset: String },
    Modrinth { project_id: String, game_version: Option<String>, loader: Option<String> },
}

/// A named group of sources sharing one transform pipeline.
pub struct SourceSet {
    pub transform: Transform,
    /// Source key to source spec; keys identify sources within a destination.
    pub sources: Vec<(String, SourceSpec)>,
}

impl SourceSet {
    /// Each source key names at most one source in the set.
    pub open spec fn wf(self) -> bool {
        distinct_keys(self.sources@)
    }
}

/// A target directory and the source sets that populate it.
pub struct Destination {
    pub path: String,
    /// Group name to source set.
    pub sources: Vec<(String, SourceSet)>,
}

impl Destination {
    /// Group names are unique, and every source key is unique within the
    /// destination — across its source sets, not only within one.
    pub open spec fn wf(self) -> bool {
        &&& distinct_keys(self.sources@)
        &&& forall|g1: int, g2: int, s1: int, s2: int|
            0 <= g1 < self.sources@.len() && 0 <= g2 < self.sources@.len() && 0 <= s1
                < self.sources@[g1].1.sources@.len() && 0 <= s2
                < self.sources@[g2].1.sources@.len() && (g1 != g2 || s1 != s2)
                ==> self.sources@[g1].1.sources@[s1].0@ != self.sources@[g2].1.sources@[s2].0@
    }
}

/// The declared destinations, by name.
pub struct Destinations {
    pub destinations: Vec<(String, Destination)>,
}

impl Destinations {
    /// Destination names are unique and every destination is well-formed.
    pub open spec fn wf(self) -> bool {
        &&& distinct_keys(self.destinations@)
        &&& forall|i: int|
            0 <= i < self.destinations@.len() ==> self.destinations@[i].1.wf()
    }
}

/// One source's outcome, as views: its key and either the loaded reference
/// or nothing when the source failed.
pub open spec fn outcome_view(o: (String, Result<Reference, Error>)) -> (
    Seq<char>,
    Option<ReferenceView>,
) {
    (
        o.0@,
        match o.1 {
            Ok(r) => Some(r@),
            Err(_) => None,
        },
    )
}

pub open spec fn outcomes_view(os: Seq<(String, Result<Reference, Error>)>) -> Seq<
    (Seq<char>, Option<ReferenceView>),
> {
    os.map_values(|o: (String, Result<Reference, Error>)| outcome_view(o))
}

/// The `(key, reference)` pairs that survive a load pass: failed sources are
/// excluded, declaration order is kept.
pub open spec fn kept(os: Seq<(Seq<char>, Option<ReferenceView>)>) -> Seq<
    (Seq<char>, ReferenceView),
>
    decreases os.len(),
{
    if os.len() == 0 {
        Seq::empty()
    } else {
        let rest = kept(os.drop_last());
        match os.last().1 {
            Some(r) => rest.push((os.last().0, r)),
            None => rest,
        }
    }
}

pub open spec fn pairs_view(v: Seq<(String, Reference)>) -> Seq<(Seq<char>, ReferenceView)> {
    v.map_values(|p: (String, Reference)| (p.0@, p.1@))
}

/// Ephemeral result of materializing one destination: its root directory and
/// the pairs that are guaranteed present once the directory is rebuilt.
pub struct PreparedDestination {
    pub root: String,
    pub cache_files: Vec<(String, Reference)>,
}

pub struct PreparedDestinationView {
    pub root: Seq<char>,
    pub cache_files: Seq<(Seq<char>, ReferenceView)>,
}

impl View for PreparedDestination {
    type V = PreparedDestinationView;

    open spec fn view(&self) -> PreparedDestinationView {
        PreparedDestinationView { root: self.root@, cache_files: pairs_view(self.cache_files@) }
    }
}

/// Aggregate one destination's per-source outcomes: sources that loaded are
/// retained in order, failed ones are excluded.
pub fn collect_prepared(root: String, outcomes: &Vec<(String, Result<Reference, Error>)>) -> (p:
    PreparedDestination)
    ensures
        p@.root == root@,
        p@.cache_files == kept(outcomes_view(outcomes@)),
{
    let ghost all = outcomes_view(outcomes@);
    let mut files: Vec<(String, Reference)> = Vec::new();
    let mut i: usize = 0;
    proof {
        assert(pairs_view(files@) =~= kept(all.take(0)));
    }
    while i < outcomes.len()
        invariant
            i <= outcomes@.len(),
            all == outcomes_view(outcomes@),
            all.len() == outcomes@.len(),
            pairs_view(files@) == kept(all.take(i as int)),
        decreases outcomes@.len() - i,
    {
        proof {
            assert(all.take(i as int + 1).drop_last() =~= all.take(i as int));
            assert(all.take(i as int + 1).last() == all[i as int]);
            assert(all[i as int] == outcome_view(outcomes@[i as int]));
        }
        let ghost before = files@;
        match &outcomes[i].1 {
            Ok(r) => {
                files.push((outcomes[i].0.clone(), r.clone()));
                proof {
                    assert(pairs_view(files@) =~= pairs_view(before).push(
                        (outcomes@[i as int].0@, all[i as int].1->Some_0),
                    ));
                }
            },
            Err(_) => {},
        }
        i = i + 1;
    }
    proof {
        assert(all.take(all.len() as int) =~= all);
    }
    PreparedDestination { root, cache_files: files }
}

/// The keys in `files` whose reference was downloaded this cycle, in order.
pub open spec fn changed_in(files: Seq<(Seq<char>, ReferenceView)>) -> Seq<Seq<char>>
    decreases files.len(),
{
    if files.len() == 0 {
        Seq::empty()
    } else {
        let rest = changed_in(files.drop_last());
        if files.last().1.changed {
            rest.push(files.last().0)
        } else {
            rest
        }
    }
}

/// The changed keys of all destinations, destination by destination.
pub open spec fn changed_keys_of(ds: Seq<PreparedDestinationView>) -> Seq<Seq<char>>
    decreases ds.len(),
{
    if ds.len() == 0 {
        Seq::empty()
    } else {
        changed_keys_of(ds.drop_last()) + changed_in(ds.last().cache_files)
    }
}

pub open spec fn strings_view(v: Seq<String>) -> Seq<Seq<char>> {
    v.map_values(|s: String| s@)
}

pub open spec fn prepared_views(ds: Seq<PreparedDestination>) -> Seq<PreparedDestinationView> {
    ds.map_values(|d: PreparedDestination| d@)
}

/// The keys that actually downloaded new bytes this cycle, across all
/// destinations: what the status summary announces before a restart.
pub fn changed_keys(prepared: &Vec<PreparedDestination>) -> (keys: Vec<String>)
    ensures
        strings_view(keys@) == changed_keys_of(prepared_views(prepared@)),
{
    let ghost all = prepared_views(prepared@);
    let mut keys: Vec<String> = Vec::new();
    let mut d: usize = 0;
    proof {
        assert(strings_view(keys@) =~= changed_keys_of(all.take(0)));
    }
    while d < prepared.len()
        invariant
            d <= prepared@.len(),
            all == prepared_views(prepared@),
            all.len() == prepared@.len(),
            strings_view(keys@) == changed_keys_of(all.take(d as int)),
        decreases prepared@.len() - d,
    {
        let ghost dest = all[d as int];
        let files = &prepared[d].cache_files;
        proof {
            assert(dest.cache_files == pairs_view(files@));
            assert(dest.cache_files.len() == files@.len());
        }
        let mut j: usize = 0;
        proof {
            assert(dest.cache_files.take(0) =~= Seq::<(Seq<char>, ReferenceView)>::empty());
            assert(strings_view(keys@) + changed_in(dest.cache_files.take(0)) =~= strings_view(
                keys@,
            ));
        }
        let ghost keys_before = keys@;
        while j < files.len()
            invariant
                j <= files@.len(),
                dest.cache_files == pairs_view(files@),
                dest.cache_files.len() == files@.len(),
                strings_view(keys@) == strings_view(keys_before) + changed_in(
                    dest.cache_files.take(j as int),
                ),
            decreases files@.len() - j,
        {
            proof {
                assert(dest.cache_files.take(j as int + 1).drop_last() =~= dest.cache_files.take(
                    j as int,
                ));
                assert(dest.cache_files.take(j as int + 1).last() == dest.cache_files[j as int]);
                assert(dest.cache_files[j as int] == (files@[j as int].0@, files@[j as int].1@));
            }
            let ghost before = keys@;
            if files[j].1.changed() {
                keys.push(files[j].0.clone());
                proof {
                    assert(strings_view(keys@) =~= strings_view(before).push(
                        files@[j as int].0@,
                    ));
                }
            }
            j = j + 1;
        }
        proof {
            assert(dest.cache_files.take(dest.cache_files.len() as int) =~= dest.cache_files);
            assert(all.take(d as int + 1).drop_last() =~= all.take(d as int));
            assert(all.take(d as int + 1).last() == all[d as int]);
        }
        d = d + 1;
    }
    proof {
        assert(all.take(all.len() as int) =~= all);
    }
    keys
}

/// The directory contents a rebuild produces: every retained reference's
/// file, in order — and nothing else, since the directory is recreated from
/// scratch.
pub open spec fn planned_contents(files: Seq<(Seq<char>, ReferenceView)>) -> Seq<FileView> {
    files.map_values(|p: (Seq<char>, ReferenceView)| p.1.file)
}

pub open spec fn files_view(v: Seq<File>) -> Seq<FileView> {
    v.map_values(|f: File| f@)
}

impl PreparedDestination {
    /// The files to write when rebuilding the destination directory: the
    /// unverified edge deletes the directory, recreates it, and writes
    /// exactly these files into it.
    pub fn apply_plan(&self) -> (out: Vec<File>)
        ensures
            files_view(out@) == planned_contents(self@.cache_files),
    {
        let mut out: Vec<File> = Vec::new();
        let mut i: usize = 0;
        proof {
            assert(files_view(out@) =~= planned_contents(self@.cache_files).take(0));
        }
        while i < self.cache_files.len()
            invariant
                i <= self.cache_files@.len(),
                self@.cache_files.len() == self.cache_files@.len(),
                files_view(out@) == planned_contents(self@.cache_files).take(i as int),
            decreases self.cache_files@.len() - i,
        {
            let ghost before = out@;
            out.push(self.cache_files[i].1.file().clone());
            proof {
                assert(self@.cache_files[i as int] == (
                    self.cache_files@[i as int].0@,
                    self.cache_files@[i as int].1@,
                ));
                assert(files_view(out@) =~= files_view(before).push(
                    self.cache_files@[i as int].1@.file,
                ));
                assert(planned_contents(self@.cache_files).take(i as int + 1) =~= planned_contents(
                    self@.cache_files,
                ).take(i as int).push(planned_contents(self@.cache_files)[i as int]));
            }
            i = i + 1;
        }
        proof {
            assert(planned_contents(self@.cache_files).take(
                planned_contents(self@.cache_files).len() as int,
            ) =~= planned_contents(self@.cache_files));
        }
        out
    }
}

/// Law (partial-failure isolation, exclusion): a key that never loaded
/// successfully does not appear in the retained pairs — one source's outage
/// only narrows the directory contents.
pub proof fn lemma_partial_failure_isolation(
    os: Seq<(Seq<char>, Option<ReferenceView>)>,
    key: Seq<char>,
)
    requires
        forall|i: int| 0 <= i < os.len() && os[i].0 == key ==> os[i].1 is None,
    ensures
        forall|k: int| 0 <= k < kept(os).len() ==> kept(os)[k].0 != key,
    decreases os.len(),
{
    if os.len() > 0 {
        assert forall|i: int| 0 <= i < os.drop_last().len() && os.drop_last()[i].0 == key implies
            os.drop_last()[i].1 is None by {
            assert(os.drop_last()[i] == os[i]);
        }
        lemma_partial_failure_isolation(os.drop_last(), key);
        assert forall|k: int| 0 <= k < kept(os).len() implies kept(os)[k].0 != key by {
            if os.last().1 is Some && k == kept(os).len() - 1 {
                assert(os[os.len() - 1].0 != key);
            } else {
                assert(kept(os)[k] == kept(os.drop_last())[k]);
            }
        }
    }
}

/// Law (partial-failure isolation, retention): every source that did load
/// keeps its pair in the result.
pub proof fn lemma_kept_complete(os: Seq<(Seq<char>, Option<ReferenceView>)>, i: int)
    requires
        0 <= i < os.len(),
        os[i].1 is Some,
    ensures
        exists|k: int|
            0 <= k < kept(os).len() && kept(os)[k] == (os[i].0, os[i].1->Some_0),
    decreases os.len(),
{
    if i == os.len() - 1 {
        assert(kept(os)[kept(os).len() - 1] == (os[i].0, os[i].1->Some_0));
    } else {
        assert(os.drop_last()[i] == os[i]);
        lemma_kept_complete(os.drop_last(), i);
        let k = choose|k: int|
            0 <= k < kept(os.drop_last()).len() && kept(os.drop_last())[k] == (
                os[i].0,
                os[i].1->Some_0,
            );
        assert(kept(os)[k] == (os[i].0, os[i].1->Some_0));
    }
}

/// Every retained pair comes from a source that loaded: the key and the
/// reference at some outcome index.
pub proof fn lemma_kept_sound(os: Seq<(Seq<char>, Option<ReferenceView>)>, k: int)
    requires
        0 <= k < kept(os).len(),
    ensures
        exists|i: int|
            0 <= i < os.len() && os[i].0 == kept(os)[k].0 && os[i].1 == Some(kept(os)[k].1),
    decreases os.len(),
{
    if os.len() > 0 {
        if os.last().1 is Some && k == kept(os).len() - 1 {
            assert(os[os.len() - 1].0 == kept(os)[k].0 && os[os.len() - 1].1 == Some(
                kept(os)[k].1,
            ));
        } else {
            assert(kept(os)[k] == kept(os.drop_last())[k]);
            lemma_kept_sound(os.drop_last(), k);
            let i = choose|i: int|
                0 <= i < os.drop_last().len() && os.drop_last()[i].0 == kept(os)[k].0
                    && os.drop_last()[i].1 == Some(kept(os)[k].1);
            assert(os[i] == os.drop_last()[i]);
        }
    }
}

/// Law (one reference per key): distinct source keys stay distinct among the
/// retained pairs, so a rebuilt destination never holds two references for
/// one key.
pub proof fn lemma_kept_keys_distinct(os: Seq<(Seq<char>, Option<ReferenceView>)>)
    requires
        forall|i: int, j: int| 0 <= i < j < os.len() ==> os[i].0 != os[j].0,
    ensures
        forall|k1: int, k2: int|
            0 <= k1 < k2 < kept(os).len() ==> kept(os)[k1].0 != kept(os)[k2].0,
    decreases os.len(),
{
    if os.len() > 0 {
        assert forall|i: int, j: int| 0 <= i < j < os.drop_last().len() implies
            os.drop_last()[i].0 != os.drop_last()[j].0 by {
            assert(os.drop_last()[i] == os[i] && os.drop_last()[j] == os[j]);
        }
        lemma_kept_keys_distinct(os.drop_last());
        assert forall|k1: int, k2: int| 0 <= k1 < k2 < kept(os).len() implies
            kept(os)[k1].0 != kept(os)[k2].0 by {
            if os.last().1 is Some && k2 == kept(os).len() - 1 {
                assert(kept(os)[k1] == kept(os.drop_last())[k1]);
                lemma_kept_sound(os.drop_last(), k1);
                let i = choose|i: int|
                    0 <= i < os.drop_last().len() && os.drop_last()[i].0 == kept(
                        os.drop_last(),
                    )[k1].0 && os.drop_last()[i].1 == Some(kept(os.drop_last())[k1].1);
                assert(os[i] == os.drop_last()[i]);
                assert(os[i].0 != os[os.len() - 1].0);
                assert(kept(os)[k2].0 == os[os.len() - 1].0);
            } else {
                assert(kept(os)[k1] == kept(os.drop_last())[k1]);
                assert(kept(os)[k2] == kept(os.drop_last())[k2]);
            }
        }
    }
}

/// No reference in `files` is marked changed, so no key is reported.
pub proof fn lemma_no_changes(files: Seq<(Seq<char>, ReferenceView)>)
    requires
        forall|i: int| 0 <= i < files.len() ==> !files[i].1.changed,
    ensures
        changed_in(files) =~= Seq::<Seq<char>>::empty(),
    decreases files.len(),
{
    if files.len() > 0 {
        assert forall|i: int| 0 <= i < files.drop_last().len() implies
            !files.drop_last()[i].1.changed by {
            assert(files.drop_last()[i] == files[i]);
        }
        lemma_no_changes(files.drop_last());
    }
}

/// Law (rebuild completeness): when every source's load took the `Match`
/// path — the reference handed back is the cached artifact, not a download —
/// the rebuild retains every source, reports zero changed keys, and the
/// planned directory contents are exactly the cached artifacts in order.
/// Re-running materialization with identical sources and no remote changes
/// therefore reproduces identical contents.
pub proof fn lemma_rebuild_completeness(os: Seq<(Seq<char>, Option<ReferenceView>)>)
    requires
        forall|i: int| 0 <= i < os.len() ==> os[i].1 is Some && !os[i].1->Some_0.changed,
    ensures
        kept(os).len() == os.len(),
        forall|i: int| 0 <= i < os.len() ==> kept(os)[i] == (os[i].0, os[i].1->Some_0),
        changed_in(kept(os)) =~= Seq::<Seq<char>>::empty(),
        planned_contents(kept(os)) =~= os.map_values(
            |o: (Seq<char>, Option<ReferenceView>)| o.1->Some_0.file,
        ),
    decreases os.len(),
{
    if os.len() > 0 {
        assert forall|i: int| 0 <= i < os.drop_last().len() implies os.drop_last()[i].1 is Some
            && !os.drop_last()[i].1->Some_0.changed by {
            assert(os.drop_last()[i] == os[i]);
        }
        lemma_rebuild_completeness(os.drop_last());
        assert forall|i: int| 0 <= i < os.len() implies kept(os)[i] == (
            os[i].0,
            os[i].1->Some_0,
        ) by {
            if i < os.len() - 1 {
                assert(os.drop_last()[i] == os[i]);
                assert(kept(os)[i] == kept(os.drop_last())[i]);
            }
        }
    }
    assert forall|i: int| 0 <= i < kept(os).len() implies !kept(os)[i].1.changed by {
        assert(kept(os)[i] == (os[i].0, os[i].1->Some_0));
    }
    lemma_no_changes(kept(os));
}

} // verus!
