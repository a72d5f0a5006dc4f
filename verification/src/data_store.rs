//! The in-memory ignore store: a mapping from artist name to the list of
//! releases the user has declined to be notified about again. Artist names
//! are exact-string join keys — no normalization of case or diacritics is
//! performed, by design.
//!
//! Reading the persisted document and writing it back belong to the caller
//! owning the file; it fills a store entry by entry and reads the entries
//! back out.

use vstd::prelude::*;

use crate::common::{Album, clone_albums};
use crate::text::str_eq;

verus! {

/// One artist of the store with the albums ignored for it.
pub struct StoreEntry {
    pub artist: String,
    pub albums: Vec<Album>,
}

/// What the store maps `key` to: the albums of the first entry carrying that
/// artist name, or nothing.
pub open spec fn spec_lookup(entries: Seq<StoreEntry>, key: Seq<char>) -> Option<Seq<Album>>
    decreases entries.len(),
{
    if entries.len() == 0 {
        None
    } else if entries[0].artist@ == key {
        Some(entries[0].albums@)
    } else {
        spec_lookup(entries.skip(1), key)
    }
}

/// No two entries carry the same artist name.
pub open spec fn unique_keys(entries: Seq<StoreEntry>) -> bool {
    forall|i: int, j: int|
        0 <= i < j < entries.len() ==> entries[i].artist@ != entries[j].artist@
}

proof fn lemma_lookup_at(entries: Seq<StoreEntry>, idx: int, key: Seq<char>)
    requires
        0 <= idx < entries.len(),
        entries[idx].artist@ == key,
        forall|j: int| 0 <= j < idx ==> entries[j].artist@ != key,
    ensures
        spec_lookup(entries, key) == Some(entries[idx].albums@),
    decreases idx,
{
    if idx > 0 {
        assert(entries.skip(1)[idx - 1] == entries[idx]);
        assert forall|j: int| 0 <= j < idx - 1 implies entries.skip(1)[j].artist@ != key by {
            assert(entries.skip(1)[j] == entries[j + 1]);
        }
        lemma_lookup_at(entries.skip(1), idx - 1, key);
    }
}

proof fn lemma_lookup_none(entries: Seq<StoreEntry>, key: Seq<char>)
    requires
        forall|j: int| 0 <= j < entries.len() ==> entries[j].artist@ != key,
    ensures
        spec_lookup(entries, key) is None,
    decreases entries.len(),
{
    if entries.len() > 0 {
        assert forall|j: int| 0 <= j < entries.skip(1).len() implies entries.skip(1)[j].artist@
            != key by {
            assert(entries.skip(1)[j] == entries[j + 1]);
        }
        lemma_lookup_none(entries.skip(1), key);
    }
}

proof fn lemma_lookup_push(entries: Seq<StoreEntry>, e: StoreEntry, key: Seq<char>)
    ensures
        spec_lookup(entries.push(e), key) == match spec_lookup(entries, key) {
            Some(a) => Some(a),
            None => if e.artist@ == key {
                Some(e.albums@)
            } else {
                None
            },
        },
    decreases entries.len(),
{
    if entries.len() == 0 {
        assert(entries.push(e)[0] == e);
        assert(entries.push(e).skip(1) =~= Seq::<StoreEntry>::empty());
        assert(spec_lookup(Seq::<StoreEntry>::empty(), key) is None);
        assert(spec_lookup(entries, key) is None);
    } else {
        assert(entries.push(e)[0] == entries[0]);
        assert(entries.push(e).skip(1) =~= entries.skip(1).push(e));
        lemma_lookup_push(entries.skip(1), e, key);
    }
}

proof fn lemma_lookup_update(entries: Seq<StoreEntry>, idx: int, e: StoreEntry, key: Seq<char>)
    requires
        0 <= idx < entries.len(),
        e.artist@ == entries[idx].artist@,
        forall|j: int| 0 <= j < idx ==> entries[j].artist@ != entries[idx].artist@,
    ensures
        spec_lookup(entries.update(idx, e), key) == if key == entries[idx].artist@ {
            Some(e.albums@)
        } else {
            spec_lookup(entries, key)
        },
    decreases idx,
{
    if idx == 0 {
        assert(entries.update(0, e)[0] == e);
        assert(entries.update(0, e).skip(1) =~= entries.skip(1));
    } else {
        assert(entries.update(idx, e)[0] == entries[0]);
        assert(entries.update(idx, e).skip(1) =~= entries.skip(1).update(idx - 1, e));
        assert(entries.skip(1)[idx - 1] == entries[idx]);
        assert forall|j: int| 0 <= j < idx - 1 implies (#[trigger] entries.skip(1)[j]).artist@
            != entries.skip(1)[idx - 1].artist@ by {
            assert(entries.skip(1)[j] == entries[j + 1]);
        }
        lemma_lookup_update(entries.skip(1), idx - 1, e, key);
    }
}

/// The ignore store. The caller that loads the persisted document builds it
/// entry by entry; a missing document is simply an empty store.
pub struct DataStore {
    entries: Vec<StoreEntry>,
}

impl DataStore {
    /// The store's contents, for specification.
    pub closed spec fn entries_seq(self) -> Seq<StoreEntry> {
        self.entries@
    }

    /// The store's invariant: each artist appears at most once.
    pub open spec fn wf(self) -> bool {
        unique_keys(self.entries_seq())
    }

    /// An empty store: every lookup yields nothing.
    pub fn new() -> (r: DataStore)
        ensures
            r.wf(),
            r.entries_seq().len() == 0,
            forall|k: Seq<char>| spec_lookup(r.entries_seq(), k) is None,
    {
        DataStore { entries: Vec::new() }
    }

    /// The entries, in store order, for persisting.
    pub fn entries(&self) -> (r: &Vec<StoreEntry>)
        ensures
            r@ == self.entries_seq(),
    {
        &self.entries
    }

    /// The albums ignored for `artist`: a copy of the stored list, or an
    /// empty list for an artist the store does not know.
    pub fn ignored_albums_for_artist(&self, artist: &str) -> (r: Vec<Album>)
        ensures
            match spec_lookup(self.entries_seq(), artist@) {
                Some(albums) => r@ == albums,
                None => r@.len() == 0,
            },
    {
        let n = self.entries.len();
        let mut j: usize = 0;
        while j < n
            invariant
                n == self.entries@.len(),
                j <= n,
                forall|k: int| 0 <= k < j ==> self.entries@[k].artist@ != artist@,
            decreases n - j,
        {
            if str_eq(self.entries[j].artist.as_str(), artist) {
                let r = clone_albums(&self.entries[j].albums);
                proof {
                    lemma_lookup_at(self.entries@, j as int, artist@);
                }
                return r;
            }
            j += 1;
        }
        proof {
            lemma_lookup_none(self.entries@, artist@);
        }
        Vec::new()
    }

    /// Append `release` to the albums ignored for `artist`, creating the
    /// artist's entry when the store does not know it yet. Every other
    /// artist's list is untouched.
    pub fn add_ignored_album_for_artist(&mut self, artist: &str, release: Album)
        ensures
            old(self).wf() ==> final(self).wf(),
            match spec_lookup(old(self).entries_seq(), artist@) {
                Some(albums) => spec_lookup(final(self).entries_seq(), artist@) == Some(
                    albums.push(release),
                ),
                None => spec_lookup(final(self).entries_seq(), artist@) == Some(seq![release]),
            },
            forall|k: Seq<char>|
                k != artist@ ==> #[trigger] spec_lookup(final(self).entries_seq(), k)
                    == spec_lookup(old(self).entries_seq(), k),
    {
        let ghost old_entries = self.entries@;
        let n = self.entries.len();
        let mut j: usize = 0;
        while j < n
            invariant
                old_entries == self.entries@,
                *self == *old(self),
                n == self.entries@.len(),
                j <= n,
                forall|k: int| 0 <= k < j ==> self.entries@[k].artist@ != artist@,
            decreases n - j,
        {
            if str_eq(self.entries[j].artist.as_str(), artist) {
                proof {
                    lemma_lookup_at(old_entries, j as int, artist@);
                }
                let entry = self.entries.remove(j);
                let mut albums = entry.albums;
                albums.push(release);
                let updated = StoreEntry { artist: entry.artist, albums };
                self.entries.insert(j, updated);
                proof {
                    assert(self.entries@ =~= old_entries.update(j as int, updated));
                    lemma_lookup_update(old_entries, j as int, updated, artist@);
                    assert forall|k: Seq<char>| k != artist@ implies #[trigger] spec_lookup(
                        self.entries@,
                        k,
                    ) == spec_lookup(old_entries, k) by {
                        lemma_lookup_update(old_entries, j as int, updated, k);
                    }
                    if unique_keys(old_entries) {
                        assert forall|a: int, b: int|
                            0 <= a < b < self.entries@.len() implies self.entries@[a].artist@
                            != self.entries@[b].artist@ by {
                            assert(old_entries[a].artist@ != old_entries[b].artist@);
                        }
                    }
                }
                return ;
            }
            j += 1;
        }
        proof {
            lemma_lookup_none(old_entries, artist@);
        }
        let albums = vec![release];
        let added = StoreEntry { artist: artist.to_owned(), albums };
        self.entries.push(added);
        proof {
            lemma_lookup_push(old_entries, added, artist@);
            assert(added.albums@ =~= seq![release]);
            assert forall|k: Seq<char>| k != artist@ implies #[trigger] spec_lookup(
                self.entries@,
                k,
            ) == spec_lookup(old_entries, k) by {
                lemma_lookup_push(old_entries, added, k);
            }
            if unique_keys(old_entries) {
                assert forall|a: int, b: int|
                    0 <= a < b < self.entries@.len() implies self.entries@[a].artist@
                    != self.entries@[b].artist@ by {
                    if b < old_entries.len() {
                        assert(old_entries[a].artist@ != old_entries[b].artist@);
                    }
                }
            }
        }
    }
}

} // verus!
