use mpd_fresh::common::{Artist, Artists, Release, ReleaseGroups};
use mpd_fresh::musicbrainz::{MusicBrainz, ResolveAction};

fn candidate(name: &str, score: i32, id: &str) -> Artist {
    Artist { id: String::from(id), name: String::from(name), score }
}

#[test]
fn exact_name_match_beats_higher_scoring_non_exact() {
    let artists = Artists {
        artists: vec![candidate("The Foo", 40, "x"), candidate("Foo", 90, "y")],
    };
    assert_eq!(MusicBrainz::best_matching_artist("Foo", &artists), "y");
}

#[test]
fn exact_name_match_wins_even_with_lower_score() {
    let artists = Artists {
        artists: vec![candidate("The Foo", 95, "x"), candidate("Foo", 40, "y")],
    };
    assert_eq!(MusicBrainz::best_matching_artist("Foo", &artists), "y");
}

#[test]
fn exact_match_is_case_insensitive() {
    let artists = Artists {
        artists: vec![candidate("FOO", 10, "caps"), candidate("Bar", 99, "bar")],
    };
    assert_eq!(MusicBrainz::best_matching_artist("foo", &artists), "caps");
}

#[test]
fn first_listed_exact_match_wins_regardless_of_score() {
    let artists = Artists {
        artists: vec![candidate("foo", 40, "a"), candidate("FOO", 90, "b")],
    };
    assert_eq!(MusicBrainz::best_matching_artist("foo", &artists), "a");
}

#[test]
fn without_exact_match_highest_score_wins() {
    let artists = Artists {
        artists: vec![candidate("Foo Band", 70, "a"), candidate("Foo Bandd", 95, "b")],
    };
    assert_eq!(MusicBrainz::best_matching_artist("Foo", &artists), "b");
}

#[test]
fn zero_candidates_yield_empty_catalog_not_an_error() {
    let artists = Artists { artists: Vec::new() };
    let action = MusicBrainz::resolve_search("Foo", &artists);
    assert!(matches!(action, ResolveAction::EmptyCatalog));
}

#[test]
fn non_empty_candidates_yield_a_fetch() {
    let artists = Artists { artists: vec![candidate("Foo", 80, "id-1")] };
    match MusicBrainz::resolve_search("Foo", &artists) {
        ResolveAction::FetchReleases { artist_id } => assert_eq!(artist_id, "id-1"),
        ResolveAction::EmptyCatalog => panic!("expected a fetch"),
    }
}

#[test]
fn search_query_percent_encodes_the_artist_name() {
    // Space and exclamation mark are outside the alphanumeric set and must be
    // encoded; a wrapper handing its input back unchanged would fail here.
    assert_eq!(MusicBrainz::search_query("Foo Bar!"), "query=artist:Foo%20Bar%21");
    assert_eq!(MusicBrainz::search_query("Plain"), "query=artist:Plain");
}

#[test]
fn release_query_restricts_to_albums() {
    assert_eq!(MusicBrainz::release_query("some-mbid"), "artist=some-mbid&type=album");
}

#[test]
fn request_url_joins_entity_and_query() {
    assert_eq!(
        MusicBrainz::request_url("artist", "query=artist:Foo"),
        "https://musicbrainz.org/ws/2/artist?query=artist:Foo"
    );
}

#[test]
fn status_success_is_the_2xx_range() {
    assert!(MusicBrainz::status_is_success(200));
    assert!(MusicBrainz::status_is_success(299));
    assert!(!MusicBrainz::status_is_success(199));
    assert!(!MusicBrainz::status_is_success(301));
    assert!(!MusicBrainz::status_is_success(503));
}

#[test]
fn api_error_diagnostic_names_the_failure() {
    assert_eq!(
        MusicBrainz::api_error_diagnostic(Some("503")),
        "API error: Rate limited"
    );
    assert_eq!(MusicBrainz::api_error_diagnostic(Some("404")), "API error: 404");
    assert_eq!(MusicBrainz::api_error_diagnostic(None), "API error: Unknown error");
}

fn release(title: &str, date: &str) -> Release {
    Release {
        title: String::from(title),
        date: String::from(date),
        primary_type: String::from("Album"),
        secondary_types: Vec::new(),
    }
}

#[test]
fn catalog_is_sorted_ascending_by_release_date() {
    let groups = ReleaseGroups {
        release_groups: vec![
            release("Late", "2021-09-27"),
            release("Early", "2013-09-20"),
            release("Middle", "2015-09-25"),
        ],
    };
    let catalog = MusicBrainz::catalog_from_release_groups(&groups);
    assert_eq!(catalog.len(), 3);
    assert_eq!(catalog[0].title, "Early");
    assert_eq!(catalog[1].title, "Middle");
    assert_eq!(catalog[2].title, "Late");
    assert_eq!(catalog[0].date, Some(String::from("2013-09-20")));
}

#[test]
fn equal_date_releases_keep_their_listing_order() {
    let groups = ReleaseGroups {
        release_groups: vec![
            release("Second Listed", "2020-01-01"),
            release("Third Listed", "2020-01-01"),
            release("First Listed", "2010-01-01"),
        ],
    };
    let catalog = MusicBrainz::catalog_from_release_groups(&groups);
    assert_eq!(catalog[0].title, "First Listed");
    assert_eq!(catalog[1].title, "Second Listed");
    assert_eq!(catalog[2].title, "Third Listed");
}
