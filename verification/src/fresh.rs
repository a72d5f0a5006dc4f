//! The freshness differ: given the locally known albums of one artist, the
//! external release catalog and the persisted ignore-list, compute the subset
//! of external releases that are strictly newer than the latest known album
//! and not ignored, in the catalog's own ascending date order.

use vstd::prelude::*;

use crate::common::{Album, albums_equal, date_lt, date_view};

verus! {

/// An album equal (by the case-insensitive title rule) to `a` appears in `s`.
pub open spec fn contains_equal(s: Seq<Album>, a: Album) -> bool {
    exists|i: int| 0 <= i < s.len() && albums_equal(s[i], a)
}

/// `a` counts as new against the cutoff date `cutoff` and ignore-list
/// `ignored`: its date is strictly greater than the cutoff and no ignored
/// album matches it by title.
pub open spec fn is_new(a: Album, cutoff: Option<Seq<char>>, ignored: Seq<Album>) -> bool {
    date_lt(cutoff, date_view(a.date)) && !contains_equal(ignored, a)
}

/// The new releases for one artist: empty when nothing is known locally (an
/// artist with zero known albums is not tracked), otherwise the catalog
/// filtered to the albums that are new against the latest known album's date.
pub open spec fn new_releases_spec(known: Seq<Album>, catalog: Seq<Album>, ignored: Seq<Album>) -> Seq<Album> {
    if known.len() == 0 {
        Seq::empty()
    } else {
        catalog.filter(|a: Album| is_new(a, date_view(known.last().date), ignored))
    }
}

/// Whether some album of `list` equals `album` by the title rule.
pub fn contains_album(list: &Vec<Album>, album: &Album) -> (r: bool)
    ensures
        r == contains_equal(list@, *album),
{
    let mut i: usize = 0;
    while i < list.len()
        invariant
            i <= list@.len(),
            forall|j: int| 0 <= j < i ==> !albums_equal(list@[j], *album),
        decreases list@.len() - i,
    {
        if list[i].equals(album) {
            return true;
        }
        i += 1;
    }
    false
}

proof fn lemma_filter_singleton(a: Album, pred: spec_fn(Album) -> bool)
    ensures
        seq![a].filter(pred) == if pred(a) {
            seq![a]
        } else {
            Seq::<Album>::empty()
        },
{
    reveal_with_fuel(Seq::<_>::filter, 2);
    assert(seq![a].drop_last() =~= Seq::<Album>::empty());
    if pred(a) {
        assert(seq![a].filter(pred) =~= seq![a]);
    } else {
        assert(seq![a].filter(pred) =~= Seq::<Album>::empty());
    }
}

/// The subset of `external_catalog` strictly newer than the last element of
/// `known_albums` and absent (by title equality) from `ignored`, in catalog
/// order; empty when `known_albums` is empty.
pub fn new_releases(known_albums: &Vec<Album>, external_catalog: &Vec<Album>, ignored: &Vec<Album>) -> (res: Vec<Album>)
    ensures
        res@ == new_releases_spec(known_albums@, external_catalog@, ignored@),
{
    let mut res: Vec<Album> = Vec::new();
    if known_albums.len() == 0 {
        proof {
            assert(res@ =~= new_releases_spec(known_albums@, external_catalog@, ignored@));
        }
        return res;
    }
    let last_album = &known_albums[known_albums.len() - 1];
    let ghost cutoff = date_view(known_albums@.last().date);
    let ghost pred = |a: Album| is_new(a, cutoff, ignored@);
    let mut i: usize = 0;
    proof {
        assert(external_catalog@.take(0).filter(pred) =~= Seq::<Album>::empty());
    }
    while i < external_catalog.len()
        invariant
            i <= external_catalog@.len(),
            known_albums@.len() > 0,
            cutoff == date_view(known_albums@.last().date),
            *last_album == known_albums@.last(),
            pred == (|a: Album| is_new(a, cutoff, ignored@)),
            res@ == external_catalog@.take(i as int).filter(pred),
        decreases external_catalog@.len() - i,
    {
        let album = &external_catalog[i];
        if last_album.released_before(album) && !contains_album(ignored, album) {
            res.push(album.clone());
        }
        proof {
            assert(external_catalog@.take(i + 1) =~= external_catalog@.take(i as int)
                + seq![external_catalog@[i as int]]);
            Seq::<Album>::filter_distributes_over_add(
                external_catalog@.take(i as int),
                seq![external_catalog@[i as int]],
                pred,
            );
            lemma_filter_singleton(external_catalog@[i as int], pred);
            if pred(external_catalog@[i as int]) {
                assert(external_catalog@.take(i + 1).filter(pred) =~= external_catalog@.take(
                    i as int,
                ).filter(pred).push(external_catalog@[i as int]));
            } else {
                assert(external_catalog@.take(i + 1).filter(pred) =~= external_catalog@.take(
                    i as int,
                ).filter(pred));
            }
        }
        i += 1;
    }
    proof {
        assert(external_catalog@.take(external_catalog@.len() as int) =~= external_catalog@);
    }
    res
}

/// No returned album has a release date at or below the cutoff: whenever the
/// known-album list is non-empty, every album the differ returns has a date
/// strictly greater than the latest known album's date.
pub proof fn lemma_new_releases_after_cutoff(
    known: Seq<Album>,
    catalog: Seq<Album>,
    ignored: Seq<Album>,
    i: int,
)
    requires
        known.len() > 0,
        0 <= i < new_releases_spec(known, catalog, ignored).len(),
    ensures
        date_lt(
            date_view(known.last().date),
            date_view(new_releases_spec(known, catalog, ignored)[i].date),
        ),
{
    let pred = |a: Album| is_new(a, date_view(known.last().date), ignored);
    catalog.lemma_filter_pred(pred, i);
}

/// With an empty known-album list the differ returns an empty sequence,
/// whatever the catalog and the ignore-list hold.
pub proof fn lemma_new_releases_empty_known(catalog: Seq<Album>, ignored: Seq<Album>)
    ensures
        new_releases_spec(Seq::empty(), catalog, ignored) == Seq::<Album>::empty(),
{
}

/// No returned album matches (by the case-insensitive title rule) any album
/// of the ignore-list, even when its date would qualify it as new.
pub proof fn lemma_new_releases_not_ignored(
    known: Seq<Album>,
    catalog: Seq<Album>,
    ignored: Seq<Album>,
    i: int,
)
    requires
        0 <= i < new_releases_spec(known, catalog, ignored).len(),
    ensures
        !contains_equal(ignored, new_releases_spec(known, catalog, ignored)[i]),
{
    let pred = |a: Album| is_new(a, date_view(known.last().date), ignored);
    catalog.lemma_filter_pred(pred, i);
}

/// Every returned album comes from the external catalog.
pub proof fn lemma_new_releases_from_catalog(
    known: Seq<Album>,
    catalog: Seq<Album>,
    ignored: Seq<Album>,
    i: int,
)
    requires
        0 <= i < new_releases_spec(known, catalog, ignored).len(),
    ensures
        catalog.contains(new_releases_spec(known, catalog, ignored)[i]),
{
    let pred = |a: Album| is_new(a, date_view(known.last().date), ignored);
    let out = new_releases_spec(known, catalog, ignored);
    assert(out.contains(out[i]));
    catalog.lemma_filter_contains_rev(pred, out[i]);
}

} // verus!
