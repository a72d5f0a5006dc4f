//! Protocol-side logic of the library client: building request lines,
//! classifying response lines, and assembling the artist inventory from a
//! grouped album listing.
//!
//! The transport (a TCP stream carrying one request line per round trip) is
//! not here; a caller owning the connection feeds each received response line
//! to [`InventoryBuilder::process_line`] and answers every [`DateQuery`] it
//! hands back by issuing the per-album find request, reporting a found date
//! with [`InventoryBuilder::record_album`].
//!
//! Parsing rule for the grouped listing: an `Artist: ` line opens a new
//! current-artist context (an empty name resets it to none), and an `Album: `
//! line under a current artist triggers the secondary per-album date query.
//! An album whose date query yields nothing is skipped entirely; a recorded
//! album is placed so that each artist's list stays sorted ascending by date.

use vstd::prelude::*;

use crate::common::{
    Album, date_lt, date_view, lemma_date_lt_irrefl, lemma_date_lt_trans, sorted_by_date,
};
use crate::text::{has_prefix, starts_with_prefix, str_eq, strip_prefix_of};

verus! {

/// One artist of the local inventory with the albums known for it, sorted
/// ascending by release date.
pub struct ArtistEntry {
    pub artist: String,
    pub albums: Vec<Album>,
}

/// The local inventory: each artist once, in order of first appearance.
pub struct Inventory {
    pub entries: Vec<ArtistEntry>,
}

/// A secondary per-album query the caller must answer: fetch the release
/// date of `album` by `artist`.
pub struct DateQuery {
    pub artist: String,
    pub album: String,
}

/// Assembles an [`Inventory`] from the response lines of a grouped album
/// listing, tracking the current-artist context between lines.
pub struct InventoryBuilder {
    pub inventory: Inventory,
    pub current_artist: Option<String>,
}

/// Some entry of `entries` carries the artist name `name`.
pub open spec fn contains_artist(entries: Seq<ArtistEntry>, name: Seq<char>) -> bool {
    exists|k: int| 0 <= k < entries.len() && entries[k].artist@ == name
}

/// No two entries carry the same artist name.
pub open spec fn unique_artists(entries: Seq<ArtistEntry>) -> bool {
    forall|i: int, j: int|
        0 <= i < j < entries.len() ==> entries[i].artist@ != entries[j].artist@
}

/// Every album of the list carries a release date: an album whose date
/// query yielded nothing is skipped entirely and never enters the inventory
/// with a missing date.
pub open spec fn all_dated(albums: Seq<Album>) -> bool {
    forall|i: int| 0 <= i < albums.len() ==> (#[trigger] albums[i]).date is Some
}

/// Inventory well-formedness: artist names unique, every album list sorted
/// ascending by release date, and no album without a date.
pub open spec fn inventory_wf(inv: Inventory) -> bool {
    &&& unique_artists(inv.entries@)
    &&& forall|i: int|
        0 <= i < inv.entries@.len() ==> sorted_by_date(#[trigger] inv.entries@[i].albums@)
    &&& forall|i: int| 0 <= i < inv.entries@.len() ==> all_dated(#[trigger] inv.entries@[i].albums@)
}

/// The position at which an album dated `d` is placed into `s` to keep the
/// ascending date order: directly before the first element strictly newer
/// than `d`, hence after every element at or below it.
pub open spec fn insert_pos(s: Seq<Album>, d: Option<Seq<char>>) -> int
    decreases s.len(),
{
    if s.len() == 0 {
        0
    } else if date_lt(d, date_view(s[0].date)) {
        0
    } else {
        1 + insert_pos(s.skip(1), d)
    }
}

proof fn lemma_insert_pos_properties(s: Seq<Album>, d: Option<Seq<char>>)
    ensures
        0 <= insert_pos(s, d) <= s.len(),
        forall|j: int| 0 <= j < insert_pos(s, d) ==> !date_lt(d, date_view(s[j].date)),
        insert_pos(s, d) < s.len() ==> date_lt(d, date_view(s[insert_pos(s, d)].date)),
    decreases s.len(),
{
    if s.len() > 0 && !date_lt(d, date_view(s[0].date)) {
        lemma_insert_pos_properties(s.skip(1), d);
        assert forall|j: int| 0 <= j < insert_pos(s, d) implies !date_lt(
            d,
            date_view(s[j].date),
        ) by {
            if j > 0 {
                assert(s.skip(1)[j - 1] == s[j]);
            }
        }
        assert(insert_pos(s, d) < s.len() ==> s.skip(1)[insert_pos(s, d) - 1] == s[insert_pos(
            s,
            d,
        )]);
    }
}

/// Insert `album` into the date-sorted `albums` at its sorted position:
/// after every album dated at or below it, before the first strictly newer.
pub fn insert_album_sorted(albums: &mut Vec<Album>, album: Album)
    ensures
        0 <= insert_pos(old(albums)@, date_view(album.date)) <= old(albums)@.len(),
        final(albums)@ == old(albums)@.insert(
            insert_pos(old(albums)@, date_view(album.date)),
            album,
        ),
        sorted_by_date(old(albums)@) ==> sorted_by_date(final(albums)@),
{
    let ghost s = albums@;
    let ghost d = date_view(album.date);
    proof {
        lemma_insert_pos_properties(s, d);
        assert(s.skip(0) =~= s);
    }
    let mut k: usize = 0;
    while k < albums.len() && !album.released_before(&albums[k])
        invariant
            s == albums@,
            d == date_view(album.date),
            k <= s.len(),
            insert_pos(s, d) == k + insert_pos(s.skip(k as int), d),
            insert_pos(s, d) >= k,
        decreases s.len() - k,
    {
        proof {
            assert(s.skip(k as int)[0] == s[k as int]);
            assert(s.skip(k as int).skip(1) =~= s.skip(k as int + 1));
            lemma_insert_pos_properties(s.skip(k as int + 1), d);
        }
        k += 1;
    }
    proof {
        if k < s.len() {
            assert(s.skip(k as int)[0] == s[k as int]);
        }
        assert(insert_pos(s, d) == k as int);
    }
    albums.insert(k, album);
    proof {
        let pos = k as int;
        let out = s.insert(pos, album);
        s.insert_ensures(pos, album);
        lemma_insert_pos_properties(s, d);
        if sorted_by_date(s) {
            assert forall|i: int, j: int| 0 <= i < j < out.len() implies !date_lt(
                date_view(out[j].date),
                date_view(out[i].date),
            ) by {
                if i < pos && j == pos {
                    // out[j] is the new album, out[i] an old one at or below it
                } else if i == pos && j > pos {
                    // out[i] is the new album; the old album at j - 1 sits at or
                    // after the first strictly newer element
                    if date_lt(date_view(out[j].date), d) {
                        if pos == j - 1 {
                            lemma_date_lt_trans(date_view(s[j - 1].date), d, date_view(s[pos].date));
                            lemma_date_lt_irrefl(date_view(s[pos].date));
                        } else {
                            lemma_date_lt_trans(date_view(s[j - 1].date), d, date_view(s[pos].date));
                        }
                    }
                } else if i < pos && j > pos {
                    assert(out[i] == s[i] && out[j] == s[j - 1]);
                } else if i > pos && j > pos {
                    assert(out[i] == s[i - 1] && out[j] == s[j - 1]);
                }
            }
        }
    }
}

/// What a non-empty `Artist: ` header does to the entries: a known name has
/// its album list reset to empty, an unknown one is appended with an empty
/// list; everything else is untouched.
pub open spec fn begin_artist_post(
    old_entries: Seq<ArtistEntry>,
    new_entries: Seq<ArtistEntry>,
    name: Seq<char>,
) -> bool {
    if contains_artist(old_entries, name) {
        &&& new_entries.len() == old_entries.len()
        &&& forall|k: int|
            0 <= k < old_entries.len() && old_entries[k].artist@ != name ==> new_entries[k]
                == old_entries[k]
        &&& forall|k: int|
            0 <= k < old_entries.len() && old_entries[k].artist@ == name ==> (
            #[trigger] new_entries[k]).artist@ == name && new_entries[k].albums@.len() == 0
    } else {
        &&& new_entries.len() == old_entries.len() + 1
        &&& forall|k: int| 0 <= k < old_entries.len() ==> new_entries[k] == old_entries[k]
        &&& new_entries.last().artist@ == name
        &&& new_entries.last().albums@.len() == 0
    }
}

/// What recording a dated album under the current artist `name` does to the
/// entries: the album is inserted into that artist's list at its sorted
/// position; every other entry is untouched.
pub open spec fn record_album_post(
    old_entries: Seq<ArtistEntry>,
    new_entries: Seq<ArtistEntry>,
    name: Seq<char>,
    title: Seq<char>,
    date: Seq<char>,
) -> bool {
    &&& new_entries.len() == old_entries.len()
    &&& forall|k: int|
        0 <= k < old_entries.len() && old_entries[k].artist@ != name ==> new_entries[k]
            == old_entries[k]
    &&& forall|k: int|
        0 <= k < old_entries.len() && old_entries[k].artist@ == name ==> {
            let pos = insert_pos(old_entries[k].albums@, Some(date));
            &&& (#[trigger] new_entries[k]).artist == old_entries[k].artist
            &&& new_entries[k].albums@.len() == old_entries[k].albums@.len() + 1
            &&& new_entries[k].albums@[pos].title@ == title
            &&& date_view(new_entries[k].albums@[pos].date) == Some(date)
            &&& new_entries[k].albums@ == old_entries[k].albums@.insert(
                pos,
                new_entries[k].albums@[pos],
            )
        }
}

impl InventoryBuilder {
    /// The builder's invariant: a well-formed inventory, and a current
    /// artist, when set, that is present in it.
    pub open spec fn wf(self) -> bool {
        &&& inventory_wf(self.inventory)
        &&& match self.current_artist {
            Some(name) => contains_artist(self.inventory.entries@, name@),
            None => true,
        }
    }

    /// A builder for a full grouped listing: empty inventory, no current
    /// artist.
    pub fn new() -> (r: InventoryBuilder)
        ensures
            r.wf(),
            r.inventory.entries@.len() == 0,
            r.current_artist is None,
    {
        InventoryBuilder { inventory: Inventory { entries: Vec::new() }, current_artist: None }
    }

    /// A builder for a single-artist listing: that artist is pre-entered with
    /// no albums and set as the current context, so the filtered response's
    /// bare `Album: ` lines attach to it.
    pub fn with_artist(artist: &str) -> (r: InventoryBuilder)
        ensures
            r.wf(),
            r.inventory.entries@.len() == 1,
            r.inventory.entries@[0].artist@ == artist@,
            r.inventory.entries@[0].albums@.len() == 0,
            r.current_artist matches Some(n) && n@ == artist@,
    {
        let name = artist.to_owned();
        let mut entries: Vec<ArtistEntry> = Vec::new();
        entries.push(ArtistEntry { artist: name.clone(), albums: Vec::new() });
        let b = InventoryBuilder { inventory: Inventory { entries }, current_artist: Some(name) };
        proof {
            assert(0 <= 0 < b.inventory.entries@.len() && b.inventory.entries@[0].artist@
                == artist@);
        }
        b
    }

    fn begin_artist(&mut self, name: String)
        requires
            old(self).wf(),
        ensures
            final(self).wf(),
            final(self).current_artist matches Some(n) && n == name,
            begin_artist_post(
                old(self).inventory.entries@,
                final(self).inventory.entries@,
                name@,
            ),
    {
        let ghost old_entries = self.inventory.entries@;
        let n = self.inventory.entries.len();
        let mut j: usize = 0;
        let mut found = false;
        while j < n && !found
            invariant
                old_entries == self.inventory.entries@,
                n == self.inventory.entries@.len(),
                j <= n,
                *self == *old(self),
                !found ==> forall|k: int| 0 <= k < j ==> old_entries[k].artist@ != name@,
                found ==> j > 0 && 0 <= j - 1 < n && old_entries[j - 1].artist@ == name@,
            decreases n - j + (if found { 0int } else { 1int }),
        {
            if str_eq(self.inventory.entries[j].artist.as_str(), name.as_str()) {
                found = true;
            }
            j += 1;
        }
        if found {
            let idx = j - 1;
            self.inventory.entries.set(
                idx,
                ArtistEntry { artist: name.clone(), albums: Vec::new() },
            );
            proof {
                assert forall|i: int, k: int|
                    0 <= i < k < self.inventory.entries@.len() implies self.inventory.entries@[i].artist@
                    != self.inventory.entries@[k].artist@ by {
                    assert(old_entries[i].artist@ != old_entries[k].artist@);
                }
                assert(self.inventory.entries@[idx as int].artist@ == name@);
                assert forall|i: int|
                    0 <= i < self.inventory.entries@.len() implies sorted_by_date(
                    #[trigger] self.inventory.entries@[i].albums@,
                ) by {
                    if i != idx as int {
                        assert(self.inventory.entries@[i] == old_entries[i]);
                        assert(sorted_by_date(old_entries[i].albums@));
                    } else {
                        assert(self.inventory.entries@[i].albums@.len() == 0);
                    }
                }
            }
        } else {
            self.inventory.entries.push(
                ArtistEntry { artist: name.clone(), albums: Vec::new() },
            );
            proof {
                assert(!contains_artist(old_entries, name@));
                assert forall|i: int, k: int|
                    0 <= i < k < self.inventory.entries@.len() implies self.inventory.entries@[i].artist@
                    != self.inventory.entries@[k].artist@ by {
                    if k < old_entries.len() {
                        assert(old_entries[i].artist@ != old_entries[k].artist@);
                    }
                }
                assert(self.inventory.entries@[old_entries.len() as int].artist@ == name@);
                assert forall|i: int|
                    0 <= i < self.inventory.entries@.len() implies sorted_by_date(
                    #[trigger] self.inventory.entries@[i].albums@,
                ) by {
                    if i < old_entries.len() {
                        assert(self.inventory.entries@[i] == old_entries[i]);
                        assert(sorted_by_date(old_entries[i].albums@));
                    } else {
                        assert(self.inventory.entries@[i].albums@.len() == 0);
                    }
                }
            }
        }
        self.current_artist = Some(name);
    }

    /// Feed one response line of the grouped listing. A non-empty
    /// `Artist: ` header opens that artist's context; an empty one resets
    /// the context so following album lines are dropped. An `Album: ` line
    /// under a current artist leaves the builder untouched and hands back
    /// the date query the caller must run; any other line (including an
    /// album line with no artist context) is dropped silently.
    pub fn process_line(&mut self, line: &str) -> (r: Option<DateQuery>)
        requires
            old(self).wf(),
        ensures
            final(self).wf(),
            (has_prefix(line@, "Artist: "@) && line@.skip("Artist: "@.len() as int).len() > 0)
                ==> {
                &&& r is None
                &&& final(self).current_artist matches Some(n) && n@ == line@.skip(
                    "Artist: "@.len() as int,
                )
                &&& begin_artist_post(
                    old(self).inventory.entries@,
                    final(self).inventory.entries@,
                    line@.skip("Artist: "@.len() as int),
                )
            },
            (has_prefix(line@, "Artist: "@) && line@.skip("Artist: "@.len() as int).len() == 0)
                ==> {
                &&& r is None
                &&& final(self).current_artist is None
                &&& final(self).inventory == old(self).inventory
            },
            (!has_prefix(line@, "Artist: "@) && has_prefix(line@, "Album: "@) && old(
                self,
            ).current_artist is Some) ==> {
                &&& *final(self) == *old(self)
                &&& r matches Some(q) && old(self).current_artist matches Some(n) && q.artist == n
                    && q.album@ == line@.skip("Album: "@.len() as int)
            },
            (!has_prefix(line@, "Artist: "@) && !(has_prefix(line@, "Album: "@) && old(
                self,
            ).current_artist is Some)) ==> {
                &&& *final(self) == *old(self)
                &&& r is None
            },
    {
        match strip_prefix_of(line, "Artist: ") {
            Some(name) => {
                if name.as_str().unicode_len() == 0 {
                    self.current_artist = None;
                    None
                } else {
                    self.begin_artist(name);
                    None
                }
            },
            None => {
                match strip_prefix_of(line, "Album: ") {
                    Some(album_title) => {
                        match &self.current_artist {
                            Some(artist) => Some(
                                DateQuery { artist: artist.clone(), album: album_title },
                            ),
                            None => None,
                        }
                    },
                    None => None,
                }
            },
        }
    }

    /// Record an album whose date query succeeded: it is inserted into the
    /// current artist's list at its sorted position. With no current artist
    /// the builder is untouched.
    pub fn record_album(&mut self, title: &str, date: &str)
        requires
            old(self).wf(),
        ensures
            final(self).wf(),
            final(self).current_artist == old(self).current_artist,
            old(self).current_artist is None ==> *final(self) == *old(self),
            old(self).current_artist matches Some(n) ==> record_album_post(
                old(self).inventory.entries@,
                final(self).inventory.entries@,
                n@,
                title@,
                date@,
            ),
    {
        let ghost old_entries = self.inventory.entries@;
        let name = match &self.current_artist {
            Some(n) => n.clone(),
            None => {
                return ;
            },
        };
        let n = self.inventory.entries.len();
        let mut j: usize = 0;
        let mut found = false;
        while j < n && !found
            invariant
                old_entries == self.inventory.entries@,
                n == self.inventory.entries@.len(),
                j <= n,
                *self == *old(self),
                old(self).current_artist matches Some(nn) && name == nn,
                !found ==> forall|k: int| 0 <= k < j ==> old_entries[k].artist@ != name@,
                found ==> j > 0 && 0 <= j - 1 < n && old_entries[j - 1].artist@ == name@,
            decreases n - j + (if found { 0int } else { 1int }),
        {
            if str_eq(self.inventory.entries[j].artist.as_str(), name.as_str()) {
                found = true;
            }
            j += 1;
        }
        if !found {
            proof {
                assert(contains_artist(old_entries, name@));
                assert(false);
            }
            return ;
        }
        let idx = j - 1;
        let album = Album { title: title.to_owned(), date: Some(date.to_owned()) };
        let entry = self.inventory.entries.remove(idx);
        let mut albums = entry.albums;
        let ghost old_albums = albums@;
        insert_album_sorted(&mut albums, album);
        self.inventory.entries.insert(idx, ArtistEntry { artist: entry.artist, albums });
        proof {
            let new_entries = self.inventory.entries@;
            assert(new_entries =~= old_entries.update(
                idx as int,
                new_entries[idx as int],
            ));
            assert forall|k: int|
                0 <= k < old_entries.len() && old_entries[k].artist@ == name@ implies k
                == idx as int by {
                if k != idx as int {
                    assert(old_entries[k].artist@ != old_entries[idx as int].artist@);
                }
            }
            lemma_insert_pos_properties(old_albums, Some(date@));
            old_albums.insert_ensures(insert_pos(old_albums, Some(date@)), new_entries[idx as int].albums@[insert_pos(old_albums, Some(date@))]);
        }
    }
}

/// A terminator line of a response: the success marker `OK` or an
/// error-acknowledgement starting with `ACK`.
pub fn is_terminator_line(line: &str) -> (r: bool)
    ensures
        r == (line@ == "OK"@ || has_prefix(line@, "ACK"@)),
{
    str_eq(line, "OK") || starts_with_prefix(line, "ACK")
}

/// An authentication reply means success exactly when it is the single line
/// `OK`.
pub fn auth_reply_ok(reply: &Vec<String>) -> (r: bool)
    ensures
        r == (reply@.len() == 1 && reply@[0]@ == "OK"@),
{
    reply.len() == 1 && str_eq(reply[0].as_str(), "OK")
}

/// The release date carried by a find-album response: the remainder of the
/// first `Date: ` line, or nothing when no line carries that prefix.
pub fn release_date_from_response(response: &Vec<String>) -> (r: Option<String>)
    ensures
        match r {
            Some(d) => exists|i: int|
                0 <= i < response@.len() && has_prefix(#[trigger] response@[i]@, "Date: "@) && d@
                    == response@[i]@.skip("Date: "@.len() as int) && forall|j: int|
                    0 <= j < i ==> !has_prefix(#[trigger] response@[j]@, "Date: "@),
            None => forall|i: int|
                0 <= i < response@.len() ==> !has_prefix(#[trigger] response@[i]@, "Date: "@),
        },
{
    let mut i: usize = 0;
    while i < response.len()
        invariant
            i <= response@.len(),
            forall|j: int| 0 <= j < i ==> !has_prefix(#[trigger] response@[j]@, "Date: "@),
        decreases response@.len() - i,
    {
        match strip_prefix_of(response[i].as_str(), "Date: ") {
            Some(d) => {
                return Some(d);
            },
            None => {},
        }
        i += 1;
    }
    None
}

/// How many lines of a response are artist headers.
pub open spec fn count_artist_lines(lines: Seq<String>) -> int
    decreases lines.len(),
{
    if lines.len() == 0 {
        0
    } else {
        count_artist_lines(lines.drop_last()) + if has_prefix(lines.last()@, "Artist: "@) {
            1int
        } else {
            0int
        }
    }
}

/// Count the artist headers of a list-artists response, as the pre-scan that
/// sizes a progress indicator does.
pub fn artist_count_from_response(response: &Vec<String>) -> (r: usize)
    ensures
        r as int == count_artist_lines(response@),
{
    let mut count: usize = 0;
    let mut i: usize = 0;
    while i < response.len()
        invariant
            i <= response@.len(),
            count <= i,
            count as int == count_artist_lines(response@.take(i as int)),
        decreases response@.len() - i,
    {
        proof {
            assert(response@.take(i + 1).drop_last() =~= response@.take(i as int));
            assert(response@.take(i + 1).last() == response@[i as int]);
        }
        if starts_with_prefix(response[i].as_str(), "Artist: ") {
            count += 1;
        }
        i += 1;
    }
    proof {
        assert(response@.take(response@.len() as int) =~= response@);
    }
    count
}

/// The grouped listing request, or the single-artist form when a filter is
/// given.
pub fn list_albums_command(artist_filter: Option<&str>) -> (r: String)
    ensures
        match artist_filter {
            Some(a) => r@ == "list album artist \""@ + a@ + "\""@,
            None => r@ == "list album group artist"@,
        },
{
    match artist_filter {
        Some(a) => {
            let mut s = "list album artist \"".to_owned();
            s.append(a);
            s.append("\"");
            s
        },
        None => "list album group artist".to_owned(),
    }
}

/// The per-album date request.
pub fn find_album_command(album: &str, artist: &str) -> (r: String)
    ensures
        r@ == "find album \""@ + album@ + "\" artist \""@ + artist@ + "\""@,
{
    let mut s = "find album \"".to_owned();
    s.append(album);
    s.append("\" artist \"");
    s.append(artist);
    s.append("\"");
    s
}

/// The artist pre-scan request.
pub fn list_artists_command() -> (r: String)
    ensures
        r@ == "list artist"@,
{
    "list artist".to_owned()
}

/// The authentication request carrying the shared secret.
pub fn password_command(secret: &str) -> (r: String)
    ensures
        r@ == "password "@ + secret@,
{
    let mut s = "password ".to_owned();
    s.append(secret);
    s
}

} // verus!
