use mpd_fresh::mpd::{
    artist_count_from_response, auth_reply_ok, find_album_command, is_terminator_line,
    list_albums_command, list_artists_command, password_command, release_date_from_response,
    InventoryBuilder,
};

#[test]
fn grouped_listing_builds_inventory_with_stubbed_date_query() {
    let lines = vec![
        String::from("Artist: Chvrches"),
        String::from("Album: Screen Violence"),
        String::from("Date: 2021-09-27"),
        String::from("OK"),
    ];
    let mut builder = InventoryBuilder::new();
    for line in &lines {
        if is_terminator_line(line) {
            break;
        }
        if let Some(query) = builder.process_line(line) {
            assert_eq!(query.artist, "Chvrches");
            assert_eq!(query.album, "Screen Violence");
            // The per-album date sub-query is stubbed to return this date.
            builder.record_album(&query.album, "2021-09-27");
        }
    }
    let entries = &builder.inventory.entries;
    assert_eq!(entries.len(), 1);
    assert_eq!(entries[0].artist, "Chvrches");
    assert_eq!(entries[0].albums.len(), 1);
    assert_eq!(entries[0].albums[0].title, "Screen Violence");
    assert_eq!(entries[0].albums[0].date, Some(String::from("2021-09-27")));
}

#[test]
fn album_line_without_artist_context_is_dropped() {
    let mut builder = InventoryBuilder::new();
    let r = builder.process_line("Album: Screen Violence");
    assert!(r.is_none());
    assert!(builder.inventory.entries.is_empty());
}

#[test]
fn empty_artist_line_resets_context() {
    let mut builder = InventoryBuilder::new();
    assert!(builder.process_line("Artist: Chvrches").is_none());
    assert!(builder.process_line("Artist: ").is_none());
    let r = builder.process_line("Album: Orphan Album");
    assert!(r.is_none());
    assert_eq!(builder.inventory.entries.len(), 1);
    assert!(builder.inventory.entries[0].albums.is_empty());
}

#[test]
fn albums_are_kept_sorted_by_release_date() {
    let mut builder = InventoryBuilder::new();
    builder.process_line("Artist: Someone");
    builder.record_album("Late", "2020-05-05");
    builder.record_album("Early", "1999-09-09");
    builder.record_album("Middle", "2005-01-01");
    let albums = &builder.inventory.entries[0].albums;
    assert_eq!(albums[0].title, "Early");
    assert_eq!(albums[1].title, "Middle");
    assert_eq!(albums[2].title, "Late");
}

#[test]
fn album_with_equal_date_is_placed_after_existing_ones() {
    let mut builder = InventoryBuilder::new();
    builder.process_line("Artist: Someone");
    builder.record_album("First", "2000-01-01");
    builder.record_album("Second", "2000-01-01");
    let albums = &builder.inventory.entries[0].albums;
    assert_eq!(albums[0].title, "First");
    assert_eq!(albums[1].title, "Second");
}

#[test]
fn repeated_artist_header_resets_that_artists_albums() {
    let mut builder = InventoryBuilder::new();
    builder.process_line("Artist: Someone");
    builder.record_album("One", "2001-01-01");
    builder.process_line("Artist: Someone");
    assert_eq!(builder.inventory.entries.len(), 1);
    assert!(builder.inventory.entries[0].albums.is_empty());
}

#[test]
fn single_artist_builder_attaches_bare_album_lines() {
    let mut builder = InventoryBuilder::with_artist("Target");
    let query = builder.process_line("Album: Only One").expect("query expected");
    assert_eq!(query.artist, "Target");
    builder.record_album(&query.album, "2010-10-10");
    assert_eq!(builder.inventory.entries.len(), 1);
    assert_eq!(builder.inventory.entries[0].albums[0].title, "Only One");
}

#[test]
fn other_lines_are_ignored_silently() {
    let mut builder = InventoryBuilder::new();
    builder.process_line("Artist: Someone");
    assert!(builder.process_line("Genre: Synthpop").is_none());
    assert_eq!(builder.inventory.entries.len(), 1);
    assert!(builder.inventory.entries[0].albums.is_empty());
}

#[test]
fn terminator_lines_are_ok_and_ack() {
    assert!(is_terminator_line("OK"));
    assert!(is_terminator_line("ACK [50@0] {find} no such album"));
    assert!(!is_terminator_line("Artist: OK Go"));
    assert!(!is_terminator_line("OKAY"));
}

#[test]
fn authentication_succeeds_only_on_single_ok_line() {
    assert!(auth_reply_ok(&vec![String::from("OK")]));
    assert!(!auth_reply_ok(&vec![String::from("ACK [3@0] {password} incorrect password")]));
    assert!(!auth_reply_ok(&vec![]));
    assert!(!auth_reply_ok(&vec![String::from("OK"), String::from("OK")]));
}

#[test]
fn release_date_comes_from_first_date_line() {
    let response = vec![
        String::from("Title: Whatever"),
        String::from("Date: 2014-03-14"),
        String::from("Date: 2016-01-01"),
    ];
    assert_eq!(release_date_from_response(&response), Some(String::from("2014-03-14")));
    let none = vec![String::from("Title: Whatever")];
    assert_eq!(release_date_from_response(&none), None);
}

#[test]
fn artist_count_counts_artist_headers() {
    let response = vec![
        String::from("Artist: A"),
        String::from("Artist: B"),
        String::from("Other: C"),
        String::from("Artist: D"),
    ];
    assert_eq!(artist_count_from_response(&response), 3);
    assert_eq!(artist_count_from_response(&vec![]), 0);
}

#[test]
fn request_lines_have_the_protocol_forms() {
    assert_eq!(list_albums_command(None), "list album group artist");
    assert_eq!(list_albums_command(Some("Nina Simone")), "list album artist \"Nina Simone\"");
    assert_eq!(
        find_album_command("Baltimore", "Nina Simone"),
        "find album \"Baltimore\" artist \"Nina Simone\""
    );
    assert_eq!(list_artists_command(), "list artist");
    assert_eq!(password_command("SECRET-REDACTED"), "password SECRET-REDACTED");
}
