use mpd_fresh::common::Album;
use mpd_fresh::fresh::new_releases;

fn album(title: &str, date: &str) -> Album {
    Album { title: String::from(title), date: Some(String::from(date)) }
}

fn titles(albums: &Vec<Album>) -> Vec<String> {
    let mut out = Vec::new();
    for a in albums {
        out.push(a.title.clone());
    }
    out
}

#[test]
fn album_equality_is_case_insensitive_title_match() {
    let a = album("Screen Violence", "2021-09-27");
    let b = album("screen violence", "1999-01-01");
    assert!(a.equals(&b));
    let c = album("Screen Violence II", "2021-09-27");
    assert!(!a.equals(&c));
}

#[test]
fn album_equality_ignores_missing_date() {
    let a = Album { title: String::from("Every Open Eye"), date: None };
    let b = album("EVERY OPEN EYE", "2015-09-25");
    assert!(a.equals(&b));
}

#[test]
fn new_release_strictly_newer_than_cutoff() {
    let known = vec![album("Old", "2020-01-01")];
    let catalog = vec![
        album("Before", "2019-12-31"),
        album("Same Day", "2020-01-01"),
        album("After", "2020-01-02"),
    ];
    let ignored: Vec<Album> = Vec::new();
    let fresh = new_releases(&known, &catalog, &ignored);
    assert_eq!(titles(&fresh), vec![String::from("After")]);
}

#[test]
fn empty_known_albums_yield_no_new_releases() {
    let known: Vec<Album> = Vec::new();
    let catalog = vec![album("X", "2019-01-01"), album("Y", "2099-01-01")];
    let ignored: Vec<Album> = Vec::new();
    let fresh = new_releases(&known, &catalog, &ignored);
    assert!(fresh.is_empty());
}

#[test]
fn ignored_albums_are_excluded_even_when_newer() {
    let known = vec![album("Old", "2020-01-01")];
    let catalog = vec![album("Skipped", "2021-05-05"), album("Kept", "2021-06-06")];
    let ignored = vec![album("skipped", "2021-05-05")];
    let fresh = new_releases(&known, &catalog, &ignored);
    assert_eq!(titles(&fresh), vec![String::from("Kept")]);
}

#[test]
fn ignore_list_matches_by_title_not_date() {
    let known = vec![album("Old", "2020-01-01")];
    let catalog = vec![album("Reissue", "2021-05-05")];
    let ignored = vec![Album { title: String::from("REISSUE"), date: None }];
    let fresh = new_releases(&known, &catalog, &ignored);
    assert!(fresh.is_empty());
}

#[test]
fn end_to_end_diff_scenario() {
    let known = vec![album("Known", "2020-01-01")];
    let catalog = vec![album("X", "2019-01-01"), album("Y", "2021-01-01")];
    let ignored: Vec<Album> = Vec::new();
    let fresh = new_releases(&known, &catalog, &ignored);
    assert_eq!(fresh.len(), 1);
    assert_eq!(fresh[0].title, "Y");
    assert_eq!(fresh[0].date, Some(String::from("2021-01-01")));
}

#[test]
fn result_preserves_catalog_order() {
    let known = vec![album("Old", "2000-01-01")];
    let catalog = vec![
        album("First", "2001-01-01"),
        album("Second", "2002-01-01"),
        album("Third", "2003-01-01"),
    ];
    let ignored = vec![album("Second", "2002-01-01")];
    let fresh = new_releases(&known, &catalog, &ignored);
    assert_eq!(
        titles(&fresh),
        vec![String::from("First"), String::from("Third")]
    );
}

#[test]
fn date_order_is_lexicographic_with_missing_date_lowest() {
    let dated = album("A", "2020-01-01");
    let later = album("B", "2020-01-02");
    let dateless = Album { title: String::from("C"), date: None };
    assert!(dated.released_before(&later));
    assert!(!later.released_before(&dated));
    assert!(!dated.released_before(&dated));
    assert!(dateless.released_before(&dated));
    assert!(!dated.released_before(&dateless));
}

#[test]
fn dateless_known_album_sorts_lowest_as_cutoff() {
    // A missing date sorts below every dated album, so everything dated is new.
    let known = vec![Album { title: String::from("Unknown Era"), date: None }];
    let catalog = vec![album("Anything", "1900-01-01")];
    let ignored: Vec<Album> = Vec::new();
    let fresh = new_releases(&known, &catalog, &ignored);
    assert_eq!(fresh.len(), 1);
}
