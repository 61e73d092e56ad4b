use discogs_tagger::normalize::{clean_discogs_artist, normalize};
use discogs_tagger::files::parse_artist_tag;

#[test]
fn strict_normalize_removes_separator_chars() {
    let out = normalize("Ab c;d&e", true);
    assert_eq!(out, "abcde");
    assert!(!out.contains(' '));
    assert!(!out.contains(';'));
    assert!(!out.contains('&'));
}

#[test]
fn strict_normalize_clean_on_noisy_title() {
    let out = normalize("  A ; B & C ; ", true);
    assert!(!out.contains(' '));
    assert!(!out.contains(';'));
    assert!(!out.contains('&'));
    assert_eq!(out, "abc");
}

#[test]
fn feat_suffix_equals_plain_title() {
    assert_eq!(normalize("Song (feat. Someone)", false), normalize("Song", false));
    assert_eq!(normalize("Song (feat. Someone)", false), "song");
}

#[test]
fn feat_without_parens_stripped() {
    assert_eq!(normalize("Song feat. Someone", false), "song");
    assert_eq!(normalize("Song Feat Someone", false), "song");
}

#[test]
fn original_mix_suffix_stripped() {
    let out = normalize("Track Name - Original Mix", false);
    assert_eq!(out, "track name -");
    assert!(!out.contains("original"));
}

#[test]
fn original_version_in_parens_stripped() {
    assert_eq!(normalize("Tune (Original Version)", false), "tune");
    assert_eq!(normalize("Tune (Original Mix)", false), "tune");
}

#[test]
fn original_not_at_end_kept() {
    assert_eq!(normalize("Original Sin", false), "original sin");
}

#[test]
fn lowercasing_is_ascii_only() {
    assert_eq!(normalize("MiXeD CaSe", false), "mixed case");
}

#[test]
fn artist_cleaner_strips_numeric_suffix() {
    assert_eq!(clean_discogs_artist("Artist Name (2)"), "Artist Name");
    assert_eq!(clean_discogs_artist("Artist Name (24)"), "Artist Name");
}

#[test]
fn artist_cleaner_keeps_plain_names() {
    assert_eq!(clean_discogs_artist("Artist Name"), "Artist Name");
    assert_eq!(clean_discogs_artist("Artist Name (234)"), "Artist Name (234)");
    assert_eq!(clean_discogs_artist("Artist Name(2)"), "Artist Name(2)");
    assert_eq!(clean_discogs_artist("Artist Name (x)"), "Artist Name (x)");
}

#[test]
fn artist_tag_splits_on_semicolon_first() {
    let parts = parse_artist_tag("A;B,C");
    assert_eq!(parts, vec!["A".to_string(), "B,C".to_string()]);
}

#[test]
fn artist_tag_splits_on_comma_and_slash() {
    assert_eq!(parse_artist_tag("A, B"), vec!["A".to_string(), " B".to_string()]);
    assert_eq!(parse_artist_tag("A/B/C"), vec!["A".to_string(), "B".to_string(), "C".to_string()]);
}

#[test]
fn artist_tag_without_separators_is_whole() {
    assert_eq!(parse_artist_tag("Only One"), vec!["Only One".to_string()]);
}
