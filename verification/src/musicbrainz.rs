//! Catalog-resolver logic: building the external metadata API's query
//! strings, selecting the best artist candidate from a fuzzy search, and
//! turning a release-group listing into a date-ordered release catalog.
//!
//! The HTTP transport is not here: a caller issues the two requests (artist
//! search, then release groups) and hands the decoded shapes back. Candidate
//! selection prefers the first-listed exact (case-insensitive) name match,
//! whatever its score, because free-text relevance scores do not reliably
//! rank an exact name first; with no exact match the highest-scoring
//! candidate wins, the earliest-listed one on a tie.

use vstd::prelude::*;

use crate::common::{Album, Artist, Artists, Release, ReleaseGroups, sorted_by_date};
use crate::mpd::insert_album_sorted;
use crate::text::{eq_ignore_ascii_case, eq_ignore_case, str_eq};

verus! {

/// What `percent_encoding::utf8_percent_encode` with the `NON_ALPHANUMERIC`
/// set yields for a string: a function of the input characters alone.
pub uninterp spec fn percent_encoded(s: Seq<char>) -> Seq<char>;

/// Relies on percent_encoding::utf8_percent_encode with NON_ALPHANUMERIC:
/// percent-encodes the UTF-8 bytes of the input, deterministically; an empty
/// input yields an empty output.
#[verifier::external_body]
fn percent_encode_query_term(s: &str) -> (r: String)
    ensures
        r@ == percent_encoded(s@),
        s@.len() == 0 ==> r@.len() == 0,
{
    percent_encoding::utf8_percent_encode(s, percent_encoding::NON_ALPHANUMERIC).to_string()
}

/// The candidate's display name equals the queried artist name up to ASCII
/// case.
pub open spec fn exact_match(name: Seq<char>, candidate: Artist) -> bool {
    eq_ignore_case(candidate.name@, name)
}

/// Some candidate matches the queried name exactly.
pub open spec fn has_exact_match(name: Seq<char>, candidates: Seq<Artist>) -> bool {
    exists|i: int| 0 <= i < candidates.len() && exact_match(name, candidates[i])
}

/// The selection rule of artist resolution: `chosen_id` is the identity of
/// the first-listed candidate whose name matches the queried name exactly
/// (case-insensitively), whatever its score; only when no name matches does
/// the overall highest-scoring candidate win (earliest position on a tie).
pub open spec fn best_match_post(name: Seq<char>, candidates: Seq<Artist>, chosen_id: Seq<char>) -> bool {
    if has_exact_match(name, candidates) {
        exists|i: int|
            {
                &&& 0 <= i < candidates.len()
                &&& exact_match(name, candidates[i])
                &&& candidates[i].id@ == chosen_id
                &&& forall|j: int| 0 <= j < i ==> !exact_match(name, #[trigger] candidates[j])
            }
    } else {
        exists|i: int|
            {
                &&& 0 <= i < candidates.len()
                &&& candidates[i].id@ == chosen_id
                &&& forall|j: int|
                    0 <= j < candidates.len() ==> (#[trigger] candidates[j]).score
                        <= candidates[i].score
                &&& forall|j: int|
                    0 <= j < i ==> (#[trigger] candidates[j]).score < candidates[i].score
            }
    }
}

/// The next step after an artist search: an artist with no external record
/// yields an empty catalog rather than an error; otherwise the releases of
/// the selected candidate are fetched.
pub enum ResolveAction {
    EmptyCatalog,
    FetchReleases { artist_id: String },
}

/// The album a release group stands for: its title, with the first-release
/// date as the known date.
pub open spec fn album_of_release(rel: Release) -> Album {
    Album { title: rel.title, date: Some(rel.date) }
}

/// The albums of a release-group listing, in listing order.
pub open spec fn albums_of_releases(rels: Seq<Release>) -> Seq<Album> {
    rels.map_values(|r: Release| album_of_release(r))
}

/// The stable date sort of an album sequence: each album, taken in listing
/// order, is placed after every album dated at or below it and before the
/// first strictly newer one, so equal dates keep their listing order.
pub open spec fn stable_date_sort(albums: Seq<Album>) -> Seq<Album>
    decreases albums.len(),
{
    if albums.len() == 0 {
        Seq::empty()
    } else {
        let sorted_prefix = stable_date_sort(albums.drop_last());
        sorted_prefix.insert(
            crate::mpd::insert_pos(sorted_prefix, crate::common::date_view(albums.last().date)),
            albums.last(),
        )
    }
}

/// The external metadata API client's pure half: query construction and
/// response interpretation.
pub struct MusicBrainz {}

impl MusicBrainz {
    /// The free-text artist search query, with the artist name
    /// percent-encoded.
    pub fn search_query(artist: &str) -> (r: String)
        ensures
            r@ == "query=artist:"@ + percent_encoded(artist@),
    {
        let mut s = "query=artist:".to_owned();
        let encoded = percent_encode_query_term(artist);
        s.append(encoded.as_str());
        s
    }

    /// The release-group query for a resolved artist identity, restricted to
    /// the album type (singles and EPs are excluded by design).
    pub fn release_query(artist_id: &str) -> (r: String)
        ensures
            r@ == "artist="@ + artist_id@ + "&type=album"@,
    {
        let mut s = "artist=".to_owned();
        s.append(artist_id);
        s.append("&type=album");
        s
    }

    /// The full request URL for an entity and query string.
    pub fn request_url(entity: &str, query: &str) -> (r: String)
        ensures
            r@ == "https://musicbrainz.org/ws/2/"@ + entity@ + "?"@ + query@,
    {
        let mut s = "https://musicbrainz.org/ws/2/".to_owned();
        s.append(entity);
        s.append("?");
        s.append(query);
        s
    }

    /// Whether an HTTP status code counts as success.
    pub fn status_is_success(status: u16) -> (r: bool)
        ensures
            r == (200 <= status && status < 300),
    {
        200 <= status && status < 300
    }

    /// The diagnostic for a failed external call, selected from the optional
    /// HTTP status code: rate limiting is called out by name, any other
    /// status is quoted, and a failure without a status is unknown. The
    /// failing artist is skipped for the run; the run goes on.
    pub fn api_error_diagnostic(status: Option<&str>) -> (r: String)
        ensures
            match status {
                Some(s) => if s@ == "503"@ {
                    r@ == "API error: Rate limited"@
                } else {
                    r@ == "API error: "@ + s@
                },
                None => r@ == "API error: Unknown error"@,
            },
    {
        match status {
            Some(s) => {
                if str_eq(s, "503") {
                    "API error: Rate limited".to_owned()
                } else {
                    let mut out = "API error: ".to_owned();
                    out.append(s);
                    out
                }
            },
            None => "API error: Unknown error".to_owned(),
        }
    }

    /// The identity of the best-matching candidate for `artist_name`: the
    /// first-listed exact (case-insensitive) name match when one exists,
    /// whatever its score, else the highest-scoring candidate.
    pub fn best_matching_artist(artist_name: &str, artists: &Artists) -> (r: String)
        requires
            artists.artists@.len() > 0,
        ensures
            best_match_post(artist_name@, artists.artists@, r@),
    {
        let ghost cands = artists.artists@;
        let n = artists.artists.len();
        let mut i: usize = 0;
        while i < n
            invariant
                cands == artists.artists@,
                n == cands.len(),
                i <= n,
                forall|j: int| 0 <= j < i ==> !exact_match(artist_name@, #[trigger] cands[j]),
            decreases n - i,
        {
            if eq_ignore_ascii_case(artists.artists[i].name.as_str(), artist_name) {
                let r = artists.artists[i].id.clone();
                proof {
                    assert(exact_match(artist_name@, cands[i as int]));
                }
                return r;
            }
            i += 1;
        }
        let mut best_idx: usize = 0;
        let mut k: usize = 1;
        while k < n
            invariant
                cands == artists.artists@,
                n == cands.len(),
                n > 0,
                1 <= k <= n,
                0 <= best_idx < k,
                forall|j: int|
                    0 <= j < k ==> (#[trigger] cands[j]).score <= cands[best_idx as int].score,
                forall|j: int|
                    0 <= j < best_idx ==> (#[trigger] cands[j]).score
                        < cands[best_idx as int].score,
            decreases n - k,
        {
            if artists.artists[k].score > artists.artists[best_idx].score {
                best_idx = k;
            }
            k += 1;
        }
        artists.artists[best_idx].id.clone()
    }

    /// Interpret an artist search: zero candidates mean an empty catalog,
    /// not an error; otherwise the best-matching candidate's releases are to
    /// be fetched.
    pub fn resolve_search(artist_name: &str, artists: &Artists) -> (r: ResolveAction)
        ensures
            (artists.artists@.len() == 0) <==> (r is EmptyCatalog),
            r matches ResolveAction::FetchReleases { artist_id } ==> best_match_post(
                artist_name@,
                artists.artists@,
                artist_id@,
            ),
    {
        if artists.artists.len() == 0 {
            ResolveAction::EmptyCatalog
        } else {
            ResolveAction::FetchReleases {
                artist_id: Self::best_matching_artist(artist_name, artists),
            }
        }
    }

    /// The release catalog of a release-group listing: the same albums,
    /// sorted ascending by release date, stably — releases with equal dates
    /// keep their listing order.
    pub fn catalog_from_release_groups(groups: &ReleaseGroups) -> (r: Vec<Album>)
        ensures
            r@ == stable_date_sort(albums_of_releases(groups.release_groups@)),
            sorted_by_date(r@),
            r@.to_multiset() == albums_of_releases(groups.release_groups@).to_multiset(),
    {
        let ghost rels = groups.release_groups@;
        let mut out: Vec<Album> = Vec::new();
        let mut i: usize = 0;
        proof {
            broadcast use vstd::seq_lib::group_to_multiset_ensures;

            assert(albums_of_releases(rels.take(0)) =~= Seq::<Album>::empty());
            assert(out@.to_multiset() =~= albums_of_releases(rels.take(0)).to_multiset());
            assert(out@ == stable_date_sort(albums_of_releases(rels.take(0))));
        }
        while i < groups.release_groups.len()
            invariant
                rels == groups.release_groups@,
                i <= rels.len(),
                sorted_by_date(out@),
                out@ == stable_date_sort(albums_of_releases(rels.take(i as int))),
                out@.to_multiset() == albums_of_releases(rels.take(i as int)).to_multiset(),
            decreases rels.len() - i,
        {
            let rel = &groups.release_groups[i];
            let album = Album { title: rel.title.clone(), date: Some(rel.date.clone()) };
            let ghost prev = out@;
            proof {
                assert(album == album_of_release(rels[i as int]));
            }
            insert_album_sorted(&mut out, album);
            proof {
                broadcast use vstd::seq_lib::group_to_multiset_ensures;

                assert(albums_of_releases(rels.take(i + 1)) =~= albums_of_releases(
                    rels.take(i as int),
                ).push(album_of_release(rels[i as int])));
                assert(albums_of_releases(rels.take(i + 1)).to_multiset() =~= albums_of_releases(
                    rels.take(i as int),
                ).to_multiset().insert(album));
                vstd::seq_lib::to_multiset_insert(
                    prev,
                    crate::mpd::insert_pos(prev, crate::common::date_view(album.date)),
                    album,
                );
                assert(out@.to_multiset() =~= prev.to_multiset().insert(album));
                assert(albums_of_releases(rels.take(i + 1)).drop_last() =~= albums_of_releases(
                    rels.take(i as int),
                ));
                assert(albums_of_releases(rels.take(i + 1)).last() == album);
                assert(out@ == stable_date_sort(albums_of_releases(rels.take(i + 1))));
            }
            i += 1;
        }
        proof {
            assert(rels.take(rels.len() as int) =~= rels);
        }
        out
    }
}

} // verus!
