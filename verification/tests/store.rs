use mpd_fresh::common::Album;
use mpd_fresh::config::{ignore_answer, Config};
use mpd_fresh::data_store::DataStore;

fn album(title: &str, date: &str) -> Album {
    Album { title: String::from(title), date: Some(String::from(date)) }
}

#[test]
fn unknown_artist_has_no_ignored_albums() {
    let store = DataStore::new();
    assert!(store.ignored_albums_for_artist("Nobody").is_empty());
}

#[test]
fn added_album_is_looked_up_again() {
    let mut store = DataStore::new();
    store.add_ignored_album_for_artist("Chvrches", album("Screen Violence", "2021-09-27"));
    let ignored = store.ignored_albums_for_artist("Chvrches");
    assert_eq!(ignored.len(), 1);
    assert_eq!(ignored[0].title, "Screen Violence");
    assert_eq!(ignored[0].date, Some(String::from("2021-09-27")));
}

#[test]
fn adding_appends_to_the_artists_list() {
    let mut store = DataStore::new();
    store.add_ignored_album_for_artist("A", album("One", "2001-01-01"));
    store.add_ignored_album_for_artist("A", album("Two", "2002-02-02"));
    let ignored = store.ignored_albums_for_artist("A");
    assert_eq!(ignored.len(), 2);
    assert_eq!(ignored[0].title, "One");
    assert_eq!(ignored[1].title, "Two");
}

#[test]
fn artists_are_exact_string_keys() {
    // No normalization: differently-cased artist names are distinct keys.
    let mut store = DataStore::new();
    store.add_ignored_album_for_artist("Foo", album("One", "2001-01-01"));
    assert!(store.ignored_albums_for_artist("foo").is_empty());
    assert_eq!(store.ignored_albums_for_artist("Foo").len(), 1);
}

#[test]
fn other_artists_are_untouched_by_an_add() {
    let mut store = DataStore::new();
    store.add_ignored_album_for_artist("A", album("One", "2001-01-01"));
    store.add_ignored_album_for_artist("B", album("Two", "2002-02-02"));
    assert_eq!(store.ignored_albums_for_artist("A").len(), 1);
    assert_eq!(store.ignored_albums_for_artist("B").len(), 1);
    assert_eq!(store.entries().len(), 2);
}

#[test]
fn host_joins_server_and_port() {
    let config = Config {
        server: String::from("localhost"),
        port: String::from("6600"),
        password: None,
        artist: None,
        ignore: false,
        verbose: false,
    };
    assert_eq!(config.mpd_host(), "localhost:6600");
    assert!(!config.is_verbose());
    assert!(!config.ignore_all_albums());
    assert_eq!(config.mpd_password(), None);
    assert_eq!(config.artist_filter(), None);
}

#[test]
fn config_hands_back_copies_of_its_options() {
    let config = Config {
        server: String::from("music.local"),
        port: String::from("6601"),
        password: Some(String::from("SECRET-REDACTED")),
        artist: Some(String::from("Nina Simone")),
        ignore: true,
        verbose: true,
    };
    assert_eq!(config.mpd_password(), Some(String::from("SECRET-REDACTED")));
    assert_eq!(config.artist_filter(), Some(String::from("Nina Simone")));
    assert!(config.is_verbose());
    assert!(config.ignore_all_albums());
}

#[test]
fn prompt_reply_yes_forms() {
    assert!(ignore_answer(""));
    assert!(ignore_answer("\n"));
    assert!(ignore_answer("y\n"));
    assert!(ignore_answer("Y\n"));
    assert!(ignore_answer("  y  \n"));
}

#[test]
fn prompt_reply_trims_all_unicode_whitespace() {
    assert!(ignore_answer("\u{000B}"));
    assert!(ignore_answer("\u{00A0}y\u{00A0}\n"));
    assert!(ignore_answer("\u{3000}Y\u{2028}"));
    assert!(!ignore_answer("\u{00A0}n\u{00A0}\n"));
}

#[test]
fn prompt_reply_no_forms() {
    assert!(!ignore_answer("n\n"));
    assert!(!ignore_answer("no\n"));
    assert!(!ignore_answer("yy\n"));
    assert!(!ignore_answer("y n\n"));
}
