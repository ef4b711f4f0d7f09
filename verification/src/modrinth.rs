//! Modrinth source resolution: pick the newest published version whose
//! provider-marked primary file carries a usable content hash.
//!
//! The unverified edge fetches the version list (filtered server-side by the
//! optional game-version and loader constraints) and converts each publish
//! timestamp to seconds since the Unix epoch; the selection itself happens
//! here. A version whose primary file has no hash is skipped with a warning
//! and the scan continues with the next older version; a version with no
//! primary file is skipped silently; when no version yields a hash the result
//! is "no candidate", which is not an error — the loader then falls back to
//! the cached artifact.
use vstd::prelude::*;
use vstd::string::StringExecFns;

use crate::cache::Token;
use crate::cache::TokenView;
use crate::loader::Candidate;

verus! {

/// Content hashes the provider reports for one file.
pub struct FileHashes {
    pub sha512: Option<String>,
}

/// One downloadable file of a project version.
pub struct ProjectFile {
    pub url: String,
    pub filename: String,
    pub primary: bool,
    pub hashes: FileHashes,
}

/// One published version of a project, with its publish timestamp in seconds
/// since the Unix epoch.
pub struct ProjectVersion {
    pub date_published: i64,
    pub files: Vec<ProjectFile>,
}

/// The provider-marked primary file of a version: the first file flagged
/// `primary`, if any. Only this one file per version is ever considered.
pub open spec fn spec_primary(files: Seq<ProjectFile>) -> Option<ProjectFile>
    decreases files.len(),
{
    if files.len() == 0 {
        None
    } else if files[0].primary {
        Some(files[0])
    } else {
        spec_primary(files.drop_first())
    }
}

/// A version the scan can accept: its primary file carries a sha512 hash.
pub open spec fn usable(v: ProjectVersion) -> bool {
    spec_primary(v.files@) matches Some(f) && f.hashes.sha512 is Some
}

/// A version the scan warns about: it has a primary file but no sha512 hash.
pub open spec fn lacks_hash(v: ProjectVersion) -> bool {
    spec_primary(v.files@) matches Some(f) && f.hashes.sha512 is None
}

/// Scan order: versions are visited newest first; among equal publish
/// timestamps the one declared later comes first.
pub open spec fn scanned_before(vs: Seq<ProjectVersion>, i: int, j: int) -> bool {
    vs[i].date_published > vs[j].date_published || (vs[i].date_published == vs[j].date_published
        && i > j)
}

/// `i` is the version the scan selects: usable, and scanned before every
/// other usable version.
pub open spec fn is_selected(vs: Seq<ProjectVersion>, i: int) -> bool {
    &&& 0 <= i < vs.len()
    &&& usable(vs[i])
    &&& forall|j: int|
        0 <= j < vs.len() && usable(vs[j]) && j != i ==> scanned_before(vs, i, j)
}

/// What a usable version resolves to: its primary file's sha512 fingerprint,
/// download URL and file name.
pub open spec fn candidate_view_of(v: ProjectVersion) -> (TokenView, Seq<char>, Seq<char>)
    recommends
        usable(v),
{
    let f = spec_primary(v.files@)->Some_0;
    (TokenView::Sha512(f.hashes.sha512->Some_0@), f.url@, f.filename@)
}

/// A version is warned about when it lacks a hash and the scan visits it
/// before accepting `sel` (all such versions are warned about when the scan
/// accepts none).
pub open spec fn warned_at(vs: Seq<ProjectVersion>, j: int, sel: Option<int>) -> bool {
    lacks_hash(vs[j]) && match sel {
        Some(i) => scanned_before(vs, j, i),
        None => true,
    }
}

/// The warning list holds exactly the warned-about versions, as strictly
/// increasing indices into the version list.
pub open spec fn warned_exactly(vs: Seq<ProjectVersion>, w: Seq<usize>, sel: Option<int>) -> bool {
    &&& forall|k: int| 0 <= k < w.len() ==> 0 <= w[k] < vs.len() && warned_at(vs, w[k] as int, sel)
    &&& forall|j: int|
        0 <= j < vs.len() && warned_at(vs, j, sel) ==> exists|k: int|
            0 <= k < w.len() && w[k] == j as usize
    &&& forall|k1: int, k2: int| 0 <= k1 < k2 < w.len() ==> w[k1] < w[k2]
}

/// First file flagged primary, in declaration order.
pub fn find_primary(files: &Vec<ProjectFile>) -> (r: Option<&ProjectFile>)
    ensures
        r matches Some(f) ==> spec_primary(files@) == Some(*f),
        r is None ==> spec_primary(files@) is None,
{
    let mut i: usize = 0;
    proof {
        assert(files@.skip(0) =~= files@);
    }
    while i < files.len()
        invariant
            i <= files@.len(),
            spec_primary(files@) == spec_primary(files@.skip(i as int)),
            forall|j: int| 0 <= j < i ==> !files@[j].primary,
        decreases files@.len() - i,
    {
        proof {
            assert(files@.skip(i as int)[0] == files@[i as int]);
            assert(files@.skip(i as int).drop_first() =~= files@.skip(i as int + 1));
        }
        if files[i].primary {
            return Some(&files[i]);
        }
        i = i + 1;
    }
    proof {
        assert(files@.skip(files@.len() as int) =~= Seq::<ProjectFile>::empty());
    }
    None
}

/// Whether the scan can accept this version.
fn version_usable(v: &ProjectVersion) -> (r: bool)
    ensures
        r == usable(*v),
{
    match find_primary(&v.files) {
        Some(f) => f.hashes.sha512.is_some(),
        None => false,
    }
}

/// Whether the scan would warn about this version.
fn version_lacks_hash(v: &ProjectVersion) -> (r: bool)
    ensures
        r == lacks_hash(*v),
{
    match find_primary(&v.files) {
        Some(f) => f.hashes.sha512.is_none(),
        None => false,
    }
}

/// The candidate a usable version yields.
fn version_candidate(v: &ProjectVersion) -> (r: Option<Candidate>)
    ensures
        r is Some <==> usable(*v),
        r matches Some(c) ==> (c.token@, c.url@, c.name@) == candidate_view_of(*v),
{
    match find_primary(&v.files) {
        Some(f) => match &f.hashes.sha512 {
            Some(h) => Some(
                Candidate {
                    token: Token::Sha512(h.clone()),
                    url: f.url.clone(),
                    name: f.filename.clone(),
                },
            ),
            None => None,
        },
        None => None,
    }
}

/// Resolve the newest matching version.
///
/// Returns the selected candidate (none when no version is usable) together
/// with the indices of the versions the scan warned about, in declaration
/// order; the caller logs one warning per index.
pub fn resolve_version(versions: &Vec<ProjectVersion>) -> (r: (Option<Candidate>, Vec<usize>))
    ensures
        r.0 is Some <==> exists|i: int| 0 <= i < versions@.len() && usable(versions@[i]),
        r.0 matches Some(c) ==> exists|i: int|
            is_selected(versions@, i) && (c.token@, c.url@, c.name@) == candidate_view_of(
                versions@[i],
            ) && warned_exactly(versions@, r.1@, Some(i)),
        r.0 is None ==> warned_exactly(versions@, r.1@, None),
{
    let mut best: Option<usize> = None;
    let mut i: usize = 0;
    while i < versions.len()
        invariant
            i <= versions@.len(),
            best matches Some(b) ==> b < i && usable(versions@[b as int]) && forall|j: int|
                0 <= j < i && usable(versions@[j]) && j != b as int ==> scanned_before(
                    versions@,
                    b as int,
                    j,
                ),
            best is None ==> forall|j: int| 0 <= j < i ==> !usable(versions@[j]),
        decreases versions@.len() - i,
    {
        let ghost prev = best;
        if version_usable(&versions[i]) {
            match best {
                Some(b) => {
                    if versions[i].date_published >= versions[b].date_published {
                        best = Some(i);
                        proof {
                            let bi = b as int;
                            assert forall|j: int|
                                0 <= j < i + 1 && usable(versions@[j]) && j != i as int implies
                                scanned_before(versions@, i as int, j) by {
                                if j != bi {
                                    assert(scanned_before(versions@, bi, j));
                                }
                            }
                        }
                    } else {
                        proof {
                            assert(scanned_before(versions@, b as int, i as int));
                        }
                    }
                },
                None => {
                    best = Some(i);
                },
            }
        }
        i = i + 1;
    }
    let ghost sel: Option<int> = match best {
        Some(b) => Some(b as int),
        None => None,
    };
    proof {
        if best is Some {
            assert(is_selected(versions@, best->Some_0 as int));
        }
    }
    let mut warnings: Vec<usize> = Vec::new();
    let mut j: usize = 0;
    while j < versions.len()
        invariant
            j <= versions@.len(),
            sel matches Some(b) ==> 0 <= b < versions@.len() && is_selected(versions@, b)
                && best == Some(b as usize),
            sel is None ==> best is None && (forall|q: int|
                0 <= q < versions@.len() ==> !usable(versions@[q])),
            forall|k: int|
                0 <= k < warnings@.len() ==> warnings@[k] < j && warned_at(
                    versions@,
                    warnings@[k] as int,
                    sel,
                ),
            forall|q: int|
                0 <= q < j && warned_at(versions@, q, sel) ==> exists|k: int|
                    0 <= k < warnings@.len() && warnings@[k] == q as usize,
            forall|k1: int, k2: int|
                0 <= k1 < k2 < warnings@.len() ==> warnings@[k1] < warnings@[k2],
        decreases versions@.len() - j,
    {
        let warn = if version_lacks_hash(&versions[j]) {
            match best {
                Some(b) => {
                    versions[j].date_published > versions[b].date_published || (
                    versions[j].date_published == versions[b].date_published && j > b)
                },
                None => true,
            }
        } else {
            false
        };
        proof {
            assert(warn == warned_at(versions@, j as int, sel));
        }
        if warn {
            let ghost before = warnings@;
            warnings.push(j);
            proof {
                assert(warnings@ == before.push(j));
                assert forall|q: int|
                    0 <= q < j + 1 && warned_at(versions@, q, sel) implies exists|k: int|
                    0 <= k < warnings@.len() && warnings@[k] == q as usize by {
                    if q == j as int {
                        assert(warnings@[warnings@.len() - 1] == j);
                    } else {
                        let k = choose|k: int| 0 <= k < before.len() && before[k] == q as usize;
                        assert(warnings@[k] == q as usize);
                    }
                }
            }
        }
        j = j + 1;
    }
    match best {
        Some(b) => {
            let c = version_candidate(&versions[b]);
            proof {
                assert(c is Some);
            }
            (c, warnings)
        },
        None => (None, warnings),
    }
}

pub open spec fn string_opt_view(s: Option<String>) -> Option<Seq<char>> {
    match s {
        Some(x) => Some(x@),
        None => None,
    }
}

/// The query string of the version-list request: the optional game-version
/// and loader constraints, joined with `&`. Each constraint, when present,
/// contributes a nonempty part, so the query is empty exactly when both are
/// absent.
pub open spec fn versions_query_spec(
    game_version: Option<Seq<char>>,
    loader: Option<Seq<char>>,
) -> Seq<char> {
    match (game_version, loader) {
        (None, None) => Seq::<char>::empty(),
        (Some(g), None) => "game_versions=[\""@ + g + "\"]"@,
        (None, Some(l)) => "loaders=[\""@ + l + "\"]"@,
        (Some(g), Some(l)) => "game_versions=[\""@ + g + "\"]"@ + "&"@ + "loaders=[\""@ + l
            + "\"]"@,
    }
}

/// The version-list URL for a project: the versions endpoint, with the query
/// appended after `?` whenever a constraint is present.
pub open spec fn versions_url_spec(
    project_id: Seq<char>,
    game_version: Option<Seq<char>>,
    loader: Option<Seq<char>>,
) -> Seq<char> {
    let base = "https://api.modrinth.com/v2/project/"@ + project_id + "/version"@;
    match (game_version, loader) {
        (None, None) => base,
        _ => base + "?"@ + versions_query_spec(game_version, loader),
    }
}

/// Build the version-list request URL; the unverified edge only sends it.
pub fn versions_url(
    project_id: &str,
    game_version: &Option<String>,
    loader: &Option<String>,
) -> (u: String)
    ensures
        u@ == versions_url_spec(
            project_id@,
            string_opt_view(*game_version),
            string_opt_view(*loader),
        ),
{
    let mut url = "https://api.modrinth.com/v2/project/".to_owned();
    url.append(project_id);
    url.append("/version");
    match (game_version, loader) {
        (None, None) => {},
        (Some(g), None) => {
            url.append("?");
            url.append("game_versions=[\"");
            url.append(g.as_str());
            url.append("\"]");
        },
        (None, Some(l)) => {
            url.append("?");
            url.append("loaders=[\"");
            url.append(l.as_str());
            url.append("\"]");
        },
        (Some(g), Some(l)) => {
            url.append("?");
            url.append("game_versions=[\"");
            url.append(g.as_str());
            url.append("\"]");
            url.append("&");
            url.append("loaders=[\"");
            url.append(l.as_str());
            url.append("\"]");
        },
    }
    proof {
        assert(url@ =~= versions_url_spec(
            project_id@,
            string_opt_view(*game_version),
            string_opt_view(*loader),
        ));
    }
    url
}

/// Law (selection uniqueness): at most one version is ever selected, so the
/// scan's answer is determined by the version list alone.
pub proof fn lemma_selection_unique(vs: Seq<ProjectVersion>, i: int, j: int)
    requires
        is_selected(vs, i),
        is_selected(vs, j),
    ensures
        i == j,
{
    if i != j {
        assert(scanned_before(vs, i, j));
        assert(scanned_before(vs, j, i));
    }
}

} // verus!
