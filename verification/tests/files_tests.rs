use discogs_tagger::files::{load_file_info, InfoError, MusicFileType, RawTag};

fn flac_raw(title: Option<Vec<String>>, artist: Option<Vec<String>>) -> RawTag {
    RawTag::Flac { header: b"fLaC".to_vec(), has_comments: true, title, artist }
}

#[test]
fn flac_info_loaded_from_vorbis_fields() {
    let raw = flac_raw(
        Some(vec!["Intro".to_string()]),
        Some(vec!["A; B".to_string()]),
    );
    let info = load_file_info("/music/x.FLAC", raw).unwrap();
    assert_eq!(info.title, "Intro");
    // a single artist value is split on separators
    assert_eq!(info.artists, vec!["A".to_string(), " B".to_string()]);
    assert_eq!(info.tag, MusicFileType::FLAC);
    assert_eq!(info.path, "/music/x.FLAC");
}

#[test]
fn flac_multiple_artist_values_kept_as_are() {
    let raw = flac_raw(
        Some(vec!["T".to_string()]),
        Some(vec!["A, B".to_string(), "C".to_string()]),
    );
    let info = load_file_info("x.flac", raw).unwrap();
    assert_eq!(info.artists, vec!["A, B".to_string(), "C".to_string()]);
}

#[test]
fn flac_with_id3_header_rejected() {
    let raw = RawTag::Flac {
        header: b"ID3\x04".to_vec(),
        has_comments: true,
        title: None,
        artist: None,
    };
    assert!(matches!(load_file_info("x.flac", raw), Err(InfoError::FlacWithId3)));
}

#[test]
fn not_a_flac_rejected() {
    let raw = RawTag::Flac {
        header: b"RIFF".to_vec(),
        has_comments: true,
        title: None,
        artist: None,
    };
    assert!(matches!(load_file_info("x.flac", raw), Err(InfoError::NotFlac)));
}

#[test]
fn flac_without_comments_rejected() {
    let raw = RawTag::Flac { header: b"fLaC".to_vec(), has_comments: false, title: None, artist: None };
    assert!(matches!(load_file_info("x.flac", raw), Err(InfoError::MissingComments)));
}

#[test]
fn flac_missing_artist_reported_before_title() {
    let raw = flac_raw(None, None);
    assert!(matches!(load_file_info("x.flac", raw), Err(InfoError::MissingArtist)));
    let raw = flac_raw(None, Some(vec!["A".to_string()]));
    assert!(matches!(load_file_info("x.flac", raw), Err(InfoError::MissingTitle)));
    let raw = flac_raw(Some(vec!["T".to_string()]), Some(vec![]));
    assert!(matches!(load_file_info("x.flac", raw), Err(InfoError::MissingArtist)));
}

#[test]
fn id3_info_loaded_with_artist_split() {
    let raw = RawTag::Id3 { title: Some("Intro".to_string()), artist: Some("X/Y".to_string()) };
    let info = load_file_info("/m/a.mp3", raw).unwrap();
    assert_eq!(info.title, "Intro");
    assert_eq!(info.artists, vec!["X".to_string(), "Y".to_string()]);
    assert_eq!(info.tag, MusicFileType::MP3);
}

#[test]
fn aiff_extension_selects_aiff_family() {
    let raw = RawTag::Id3 { title: Some("T".to_string()), artist: Some("A".to_string()) };
    let info = load_file_info("b.aiff", raw).unwrap();
    assert_eq!(info.tag, MusicFileType::AIFF);
    let raw = RawTag::Id3 { title: Some("T".to_string()), artist: Some("A".to_string()) };
    let info = load_file_info("b.aif", raw).unwrap();
    assert_eq!(info.tag, MusicFileType::AIFF);
}

#[test]
fn id3_missing_fields_rejected() {
    let raw = RawTag::Id3 { title: None, artist: Some("A".to_string()) };
    assert!(matches!(load_file_info("a.mp3", raw), Err(InfoError::MissingTitle)));
    let raw = RawTag::Id3 { title: Some("T".to_string()), artist: None };
    assert!(matches!(load_file_info("a.mp3", raw), Err(InfoError::MissingArtist)));
}

#[test]
fn mismatched_container_rejected() {
    let raw = RawTag::Id3 { title: Some("T".to_string()), artist: Some("A".to_string()) };
    assert!(matches!(load_file_info("a.flac", raw), Err(InfoError::WrongContainer)));
    let raw = RawTag::Flac { header: b"fLaC".to_vec(), has_comments: true, title: None, artist: None };
    assert!(matches!(load_file_info("a.mp3", raw), Err(InfoError::WrongContainer)));
}
