//! Detects which albums by artists in a local music library have newer
//! official releases than the library contains.
//!
//! The pipeline: a line-oriented protocol client extracts an artist-to-albums
//! inventory with per-album release dates ([`mpd`]), artist identities are
//! resolved against a fuzzy-matched external catalog ([`musicbrainz`]), and a
//! differ compares the external release catalog against the local inventory
//! and a persisted ignore-list to produce the set of new releases ([`fresh`]).

pub mod common;
pub mod config;
pub mod data_store;
pub mod fresh;
pub mod mpd;
pub mod musicbrainz;
pub mod text;
