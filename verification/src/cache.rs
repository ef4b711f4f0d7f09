//! Content-addressed cache: per-destination slots mapping a source key to the
//! last accepted artifact and its fingerprint.
//!
//! Staleness is decided purely by fingerprint comparison ([`Entry::try_update`]);
//! new bytes can only be committed through the single-use [`Updater`] capability
//! that a mismatch hands out, so a slot is never overwritten when its
//! fingerprint already matches.
use vstd::prelude::*;

verus! {

/// Content fingerprint: a hash value tagged with its algorithm.
///
/// Fingerprints of different algorithms are never comparable, which forces a
/// re-fetch when a resolver changes its hashing scheme.
pub enum Token {
    Sha512(String),
    Sha256(String),
}

pub enum TokenView {
    Sha512(Seq<char>),
    Sha256(Seq<char>),
}

impl View for Token {
    type V = TokenView;

    open spec fn view(&self) -> TokenView {
        match self {
            Token::Sha512(h) => TokenView::Sha512(h@),
            Token::Sha256(h) => TokenView::Sha256(h@),
        }
    }
}

impl Clone for Token {
    fn clone(&self) -> (r: Self)
        ensures
            r@ == self@,
    {
        match self {
            Token::Sha512(h) => Token::Sha512(h.clone()),
            Token::Sha256(h) => Token::Sha256(h.clone()),
        }
    }
}

impl Token {
    /// Fingerprint equality: same algorithm and same hash value.
    pub fn matches(&self, other: &Token) -> (r: bool)
        ensures
            r == (self@ == other@),
    {
        match (self, other) {
            (Token::Sha512(a), Token::Sha512(b)) => *a == *b,
            (Token::Sha256(a), Token::Sha256(b)) => *a == *b,
            _ => false,
        }
    }
}

/// A named artifact: what a resolver downloads and a transform produces.
pub struct File {
    pub name: String,
    pub bytes: Vec<u8>,
}

pub struct FileView {
    pub name: Seq<char>,
    pub bytes: Seq<u8>,
}

impl View for File {
    type V = FileView;

    open spec fn view(&self) -> FileView {
        FileView { name: self.name@, bytes: self.bytes@ }
    }
}

impl Clone for File {
    fn clone(&self) -> (r: Self)
        ensures
            r@ == self@,
    {
        File { name: self.name.clone(), bytes: clone_bytes(&self.bytes) }
    }
}

/// Byte-for-byte copy of a buffer.
pub fn clone_bytes(v: &Vec<u8>) -> (r: Vec<u8>)
    ensures
        r@ == v@,
{
    let mut r: Vec<u8> = Vec::new();
    let mut i: usize = 0;
    while i < v.len()
        invariant
            i <= v.len(),
            r@ == v@.take(i as int),
        decreases v.len() - i,
    {
        r.push(v[i]);
        assert(v@.take(i as int).push(v@[i as int]) =~= v@.take(i + 1 as int));
        i = i + 1;
    }
    assert(v@.take(v.len() as int) =~= v@);
    r
}

/// Copyable handle to a cached artifact.
///
/// `changed` records whether this cycle actually committed new bytes for the
/// slot (the `Mismatch` path ran to completion), which is what the status
/// summary reports before a restart.
pub struct Reference {
    file: File,
    changed: bool,
}

pub struct ReferenceView {
    pub file: FileView,
    pub changed: bool,
}

impl View for Reference {
    type V = ReferenceView;

    closed spec fn view(&self) -> ReferenceView {
        ReferenceView { file: self.file@, changed: self.changed }
    }
}

impl Clone for Reference {
    fn clone(&self) -> (r: Self)
        ensures
            r@ == self@,
    {
        Reference { file: self.file.clone(), changed: self.changed }
    }
}

impl Reference {
    /// Whether this cycle downloaded and committed new bytes for the slot.
    pub fn changed(&self) -> (r: bool)
        ensures
            r == self@.changed,
    {
        self.changed
    }

    /// The cached artifact this handle points at.
    pub fn file(&self) -> (f: &File)
        ensures
            f@ == self@.file,
    {
        &self.file
    }
}

pub open spec fn token_opt_view(t: Option<Token>) -> Option<TokenView> {
    match t {
        Some(x) => Some(x@),
        None => None,
    }
}

pub open spec fn file_opt_view(f: Option<File>) -> Option<FileView> {
    match f {
        Some(x) => Some(x@),
        None => None,
    }
}

/// One cache slot: the last accepted fingerprint and artifact for a key.
pub struct Entry {
    key: String,
    token: Option<Token>,
    stored: Option<File>,
}

pub struct EntryView {
    pub key: Seq<char>,
    pub token: Option<TokenView>,
    pub stored: Option<FileView>,
}

impl View for Entry {
    type V = EntryView;

    closed spec fn view(&self) -> EntryView {
        EntryView {
            key: self.key@,
            token: token_opt_view(self.token),
            stored: file_opt_view(self.stored),
        }
    }
}

/// The slot already holds an artifact carrying exactly this fingerprint.
pub open spec fn entry_matches(e: EntryView, t: TokenView) -> bool {
    e.token == Some(t) && e.stored is Some
}

/// The slot state after a commit: the fingerprint the comparison was made
/// with and the new artifact, superseding whatever was there before.
pub open spec fn entry_after_update(e: EntryView, t: TokenView, f: FileView) -> EntryView {
    EntryView { key: e.key, token: Some(t), stored: Some(f) }
}

/// Outcome of comparing a freshly resolved fingerprint against a slot:
/// either the existing artifact is reused, or the caller receives the
/// single-use capability to commit new bytes.
pub enum UpdateResult {
    Match(Entry, Reference),
    Mismatch(Updater),
}

/// Single-use write capability bound to one slot and one fingerprint.
///
/// Only [`Entry::try_update`] creates one, and only when the fingerprints
/// differ, so bytes can never be committed over a slot that already matched.
pub struct Updater {
    entry: Entry,
    token: Token,
}

impl Updater {
    /// The slot state the capability was created from.
    pub closed spec fn prior(self) -> EntryView {
        self.entry@
    }

    /// The fingerprint the comparison was made with.
    pub closed spec fn pending(self) -> TokenView {
        self.token@
    }

    /// Commit fetched bytes: the slot's recorded fingerprint becomes the one
    /// the comparison was made with, atomically with the new artifact.
    pub fn update(self, file: File) -> (r: (Entry, Reference))
        ensures
            r.0@ == entry_after_update(self.prior(), self.pending(), file@),
            r.1@ == (ReferenceView { file: file@, changed: true }),
    {
        let Updater { entry, token } = self;
        let reference = Reference { file: file.clone(), changed: true };
        (Entry { key: entry.key, token: Some(token), stored: Some(file) }, reference)
    }

    /// Hand the slot back untouched: the fetched bytes were rejected, so the
    /// prior fingerprint and artifact stay valid for the next cycle.
    pub fn reject(self) -> (e: Entry)
        ensures
            e@ == self.prior(),
    {
        self.entry
    }
}

impl Entry {
    /// A fresh slot with no recorded artifact.
    pub fn new(key: String) -> (e: Entry)
        ensures
            e@ == (EntryView { key: key@, token: None, stored: None }),
    {
        Entry { key, token: None, stored: None }
    }

    /// Rebuild a slot from persisted metadata when reopening a store.
    pub fn restore(key: String, token: Token, file: File) -> (e: Entry)
        ensures
            e@ == (EntryView { key: key@, token: Some(token@), stored: Some(file@) }),
    {
        Entry { key, token: Some(token), stored: Some(file) }
    }

    pub fn key(&self) -> (k: &String)
        ensures
            k@ == self@.key,
    {
        &self.key
    }

    /// The recorded fingerprint, if any.
    pub fn recorded_token(&self) -> (t: &Option<Token>)
        ensures
            token_opt_view(*t) == self@.token,
    {
        &self.token
    }

    /// The stored artifact, if any.
    pub fn stored_file(&self) -> (f: &Option<File>)
        ensures
            file_opt_view(*f) == self@.stored,
    {
        &self.stored
    }

    /// Compare the slot against a freshly resolved fingerprint.
    ///
    /// A slot with no artifact, or whose recorded fingerprint differs in hash
    /// or in algorithm, yields `Mismatch` with the write capability; otherwise
    /// the existing artifact is reused and nothing needs to be downloaded.
    pub fn try_update(self, token: Token) -> (r: UpdateResult)
        ensures
            entry_matches(self@, token@) ==> (r matches UpdateResult::Match(e, rf)
                && e@ == self@
                && rf@ == (ReferenceView { file: self@.stored->Some_0, changed: false })),
            !entry_matches(self@, token@) ==> (r matches UpdateResult::Mismatch(u)
                && u.prior() == self@
                && u.pending() == token@),
    {
        let Entry { key, token: recorded, stored } = self;
        match (recorded, stored) {
            (Some(t), Some(f)) => {
                if t.matches(&token) {
                    let rf = Reference { file: f.clone(), changed: false };
                    UpdateResult::Match(Entry { key, token: Some(t), stored: Some(f) }, rf)
                } else {
                    UpdateResult::Mismatch(
                        Updater { entry: Entry { key, token: Some(t), stored: Some(f) }, token },
                    )
                }
            },
            (recorded, stored) => UpdateResult::Mismatch(
                Updater { entry: Entry { key, token: recorded, stored }, token },
            ),
        }
    }

    /// Last committed artifact if any, independent of fingerprint: the
    /// last-resort fallback when resolution yields no candidate.
    pub fn get_existing(&self) -> (r: Option<Reference>)
        ensures
            r is Some <==> self@.stored is Some,
            r matches Some(rf) ==> rf@ == (ReferenceView {
                file: self@.stored->Some_0,
                changed: false,
            }),
    {
        match &self.stored {
            Some(f) => Some(Reference { file: f.clone(), changed: false }),
            None => None,
        }
    }
}

/// Per-destination store of cache slots, with at most one slot per key.
///
/// A slot is taken out of the store while a source is being loaded and put
/// back afterwards, so the store itself never holds two slots for one key.
pub struct CacheStore {
    entries: Vec<Entry>,
}

impl CacheStore {
    /// Keys are unique across slots.
    pub closed spec fn wf(self) -> bool {
        forall|i: int, j: int|
            0 <= i < j < self.entries@.len() ==> self.entries@[i]@.key != self.entries@[j]@.key
    }

    /// The slots, as views, in store order.
    pub closed spec fn slots(self) -> Seq<EntryView> {
        self.entries@.map_values(|e: Entry| e@)
    }

    pub open spec fn has_key(self, k: Seq<char>) -> bool {
        exists|i: int| 0 <= i < self.slots().len() && self.slots()[i].key == k
    }

    /// An empty store; reopening a persisted one restores its slots with
    /// [`Entry::restore`] and [`CacheStore::put_entry`].
    pub fn new() -> (s: CacheStore)
        ensures
            s.wf(),
            s.slots() =~= Seq::<EntryView>::empty(),
    {
        CacheStore { entries: Vec::new() }
    }

    /// Take the slot for `key` out of the store, creating a fresh one if the
    /// key has none yet.
    pub fn take_entry(&mut self, key: &String) -> (e: Entry)
        requires
            old(self).wf(),
        ensures
            final(self).wf(),
            e@.key == key@,
            !final(self).has_key(key@),
            old(self).has_key(key@) ==> exists|i: int|
                0 <= i < old(self).slots().len() && old(self).slots()[i].key == key@
                    && e@ == old(self).slots()[i]
                    && final(self).slots() == old(self).slots().remove(i),
            !old(self).has_key(key@) ==> e@ == (EntryView { key: key@, token: None, stored: None })
                && final(self).slots() == old(self).slots(),
    {
        let ghost orig = *self;
        let mut i: usize = 0;
        while i < self.entries.len()
            invariant
                orig == *old(self),
                *self == orig,
                orig.wf(),
                i <= self.entries@.len(),
                forall|j: int| 0 <= j < i ==> self.entries@[j]@.key != key@,
            decreases self.entries@.len() - i,
        {
            if *self.entries[i].key() == *key {
                let ghost idx = i as int;
                let e = self.entries.remove(i);
                proof {
                    assert(self.entries@ == orig.entries@.remove(idx));
                    assert(self.entries@.len() == orig.entries@.len() - 1);
                    assert forall|a: int, b: int|
                        0 <= a < b < self.entries@.len() implies
                        self.entries@[a]@.key != self.entries@[b]@.key by {
                        let oa: int = if a < idx { a } else { a + 1 };
                        let ob: int = if b < idx { b } else { b + 1 };
                        assert(self.entries@[a] == orig.entries@[oa]);
                        assert(self.entries@[b] == orig.entries@[ob]);
                        assert(orig.entries@[oa]@.key != orig.entries@[ob]@.key);
                    }
                    assert forall|j: int| 0 <= j < self.entries@.len() implies
                        self.entries@[j]@.key != key@ by {
                        let oj: int = if j < idx { j } else { j + 1 };
                        assert(self.entries@[j] == orig.entries@[oj]);
                        assert(orig.entries@[oj]@.key != orig.entries@[idx]@.key);
                    }
                    assert forall|j: int| 0 <= j < self.slots().len() implies
                        self.slots()[j] == orig.slots().remove(idx)[j] by {
                        let oj: int = if j < idx { j } else { j + 1 };
                        assert(self.slots()[j] == self.entries@[j]@);
                        assert(orig.slots()[oj] == orig.entries@[oj]@);
                    }
                    assert(self.slots() =~= orig.slots().remove(idx));
                    assert(orig.slots()[idx] == orig.entries@[idx]@);
                    assert(orig.slots()[idx].key == key@);
                }
                return e;
            }
            i = i + 1;
        }
        proof {
            assert(!orig.has_key(key@));
        }
        Entry::new(key.clone())
    }

    /// Put a slot back; the store must not already hold one for its key.
    pub fn put_entry(&mut self, e: Entry)
        requires
            old(self).wf(),
            !old(self).has_key(e@.key),
        ensures
            final(self).wf(),
            final(self).slots() == old(self).slots().push(e@),
    {
        let ghost orig = *self;
        self.entries.push(e);
        proof {
            assert forall|i: int, j: int|
                0 <= i < j < self.entries@.len() implies
                self.entries@[i]@.key != self.entries@[j]@.key by {
                if j == self.entries@.len() - 1 {
                    assert(orig.slots()[i].key != e@.key);
                }
            }
            assert(self.slots() =~= orig.slots().push(e@));
        }
    }

    /// The slots in store order, for persisting the store.
    pub fn into_entries(self) -> (v: Vec<Entry>)
        ensures
            v@.map_values(|e: Entry| e@) == self.slots(),
    {
        self.entries
    }
}

/// Law (cache idempotence): a `Match` hands the slot back unchanged, so a
/// second comparison against the same fingerprint matches again — no new
/// download is ever triggered while the fingerprint stays the same.
pub proof fn lemma_cache_idempotence(e: EntryView, e_after_match: EntryView, t: TokenView)
    requires
        entry_matches(e, t),
        e_after_match == e,
    ensures
        entry_matches(e_after_match, t),
{
}

/// Law (staleness monotonicity): after a commit with fingerprint `t`, the
/// slot matches `t` and mismatches every other fingerprint, including equal
/// hashes under a different algorithm.
pub proof fn lemma_staleness_monotonicity(
    e: EntryView,
    t: TokenView,
    t_other: TokenView,
    f: FileView,
)
    ensures
        entry_matches(entry_after_update(e, t, f), t),
        t_other != t ==> !entry_matches(entry_after_update(e, t, f), t_other),
{
}

} // verus!
