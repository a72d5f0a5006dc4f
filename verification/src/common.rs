//! Shared data model: albums with optional release dates, external artist
//! candidates, and the release-group shapes the external catalog returns.
//!
//! Album equality is a case-insensitive title match only; the release date is
//! ignored, because the same release may carry dates of different precision in
//! different sources. Albums are ordered by release date, compared
//! lexicographically; an album with no date sorts lowest, before every dated
//! album.

use vstd::prelude::*;

use crate::text::{eq_ignore_ascii_case, eq_ignore_case, lex_lt, str_lt};

verus! {

/// A single album: a title and, when known, its release date as a
/// `YYYY-MM-DD`-style string whose lexicographic order is date order.
pub struct Album {
    pub title: String,
    pub date: Option<String>,
}

/// One artist candidate from the external "artist search" endpoint.
pub struct Artist {
    pub id: String,
    pub name: String,
    pub score: i32,
}

/// The candidate list of an external artist search.
pub struct Artists {
    pub artists: Vec<Artist>,
}

/// One release group from the external catalog.
pub struct Release {
    pub title: String,
    pub date: String,
    pub primary_type: String,
    pub secondary_types: Vec<String>,
}

/// The release-group list of an external catalog query.
pub struct ReleaseGroups {
    pub release_groups: Vec<Release>,
}

/// The view of an optional release date as an optional character sequence.
pub open spec fn date_view(d: Option<String>) -> Option<Seq<char>> {
    match d {
        Some(s) => Some(s@),
        None => None,
    }
}

/// Strict order on optional release dates: a missing date sorts lowest, and
/// present dates compare lexicographically.
pub open spec fn date_lt(a: Option<Seq<char>>, b: Option<Seq<char>>) -> bool {
    match (a, b) {
        (None, None) => false,
        (None, Some(_)) => true,
        (Some(_), None) => false,
        (Some(x), Some(y)) => lex_lt(x, y),
    }
}

/// The date order is irreflexive.
pub proof fn lemma_date_lt_irrefl(a: Option<Seq<char>>)
    ensures
        !date_lt(a, a),
{
    if let Some(x) = a {
        crate::text::lemma_lex_lt_irrefl(x);
    }
}

/// The date order is transitive.
pub proof fn lemma_date_lt_trans(a: Option<Seq<char>>, b: Option<Seq<char>>, c: Option<Seq<char>>)
    requires
        date_lt(a, b),
        date_lt(b, c),
    ensures
        date_lt(a, c),
{
    if let (Some(x), Some(y), Some(z)) = (a, b, c) {
        crate::text::lemma_lex_lt_trans(x, y, z);
    }
}

/// Album equality: case-insensitive title match, the date plays no part.
pub open spec fn albums_equal(a: Album, b: Album) -> bool {
    eq_ignore_case(a.title@, b.title@)
}

/// An album sequence is sorted ascending by release date.
pub open spec fn sorted_by_date(s: Seq<Album>) -> bool {
    forall|i: int, j: int|
        0 <= i < j < s.len() ==> !date_lt(
            #[trigger] date_view(s[j].date),
            #[trigger] date_view(s[i].date),
        )
}

impl Album {
    /// Whether this album and `other` are the same album: their titles match
    /// up to ASCII case. The release dates are not consulted.
    pub fn equals(&self, other: &Album) -> (r: bool)
        ensures
            r == albums_equal(*self, *other),
    {
        eq_ignore_ascii_case(self.title.as_str(), other.title.as_str())
    }

    /// Whether this album's release date sorts strictly before `other`'s.
    pub fn released_before(&self, other: &Album) -> (r: bool)
        ensures
            r == date_lt(date_view(self.date), date_view(other.date)),
    {
        match (&self.date, &other.date) {
            (None, None) => false,
            (None, Some(_)) => true,
            (Some(_), None) => false,
            (Some(x), Some(y)) => str_lt(x.as_str(), y.as_str()),
        }
    }
}

impl Clone for Album {
    /// A clone is equal, as a value, to the album it was cloned from.
    fn clone(&self) -> (res: Self)
        ensures
            res == *self,
    {
        Album {
            title: self.title.clone(),
            date: match &self.date {
                Some(d) => Some(d.clone()),
                None => None,
            },
        }
    }
}

/// Album equality depends on the titles alone: two pairs of albums with the
/// same titles compare the same, whatever their dates.
pub proof fn lemma_album_equality_ignores_date(a: Album, b: Album, c: Album, d: Album)
    requires
        a.title@ == c.title@,
        b.title@ == d.title@,
    ensures
        albums_equal(a, b) == albums_equal(c, d),
{
}

/// Copy every album of a slice into a fresh vector.
pub fn clone_albums(albums: &Vec<Album>) -> (res: Vec<Album>)
    ensures
        res@ == albums@,
{
    let mut out: Vec<Album> = Vec::new();
    let mut i: usize = 0;
    while i < albums.len()
        invariant
            i <= albums@.len(),
            out@ == albums@.take(i as int),
        decreases albums@.len() - i,
    {
        out.push(albums[i].clone());
        proof {
            assert(albums@.take(i + 1) =~= albums@.take(i as int).push(albums@[i as int]));
        }
        i += 1;
    }
    proof {
        assert(albums@.take(albums@.len() as int) =~= albums@);
    }
    out
}

} // verus!
