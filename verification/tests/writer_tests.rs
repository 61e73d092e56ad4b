use discogs_tagger::discogs::Discogs;
use discogs_tagger::files::{MusicFileInfo, MusicFileType};
use discogs_tagger::json::JsonValue;
use discogs_tagger::matcher::select_track;
use discogs_tagger::records::{ReleaseMaster, ReleaseType, Track};
use discogs_tagger::writer::{
    write_flac_tag, write_id3_tag, write_tag, FlacTag, Id3Tag, TagFile, TaggerConfig, WriteError,
};

fn base_config() -> TaggerConfig {
    TaggerConfig {
        title: false,
        artist: false,
        album: false,
        label: false,
        date: false,
        track: false,
        art: false,
        id3_genre: 0,
        flac_genre: 0,
        artist_separator: "; ".to_string(),
        fuzziness: 80,
        overwrite: false,
        id3v23: false,
    }
}

fn empty_flac() -> FlacTag {
    FlacTag {
        title: None,
        album: None,
        artist: None,
        label: None,
        date: None,
        genre: None,
        style: None,
        track: None,
        pictures: vec![],
    }
}

fn empty_id3() -> Id3Tag {
    Id3Tag {
        title: None,
        album: None,
        artist: None,
        publisher: None,
        date_recorded: None,
        date_text: None,
        year_text: None,
        genre: None,
        track: None,
        pictures: vec![],
    }
}

fn sample_release() -> ReleaseMaster {
    ReleaseMaster {
        rtype: ReleaseType::Release,
        title: "An Album".to_string(),
        id: 42,
        styles: vec!["Techno".to_string(), "Ambient".to_string()],
        genres: vec!["Electronic".to_string(), "Dance".to_string()],
        url: String::new(),
        country: "US".to_string(),
        art_url: None,
        year: Some(2021),
        label: Some(vec!["Label A (3)".to_string(), "Label B".to_string()]),
        artists: Some(vec!["DJ X (2)".to_string(), "Guest".to_string()]),
        extra_artists: None,
        tracks: None,
        released: Some("2021-05-07".to_string()),
    }
}

fn sample_track() -> Track {
    Track {
        title: "intro".to_string(),
        duration: "1:00".to_string(),
        position: "1".to_string(),
        artists: None,
        position_int: 1,
    }
}

#[test]
fn album_not_rewritten_without_overwrite() {
    let mut d = Discogs::new().unwrap();
    let mut tag = empty_flac();
    tag.album = Some(vec!["Kept".to_string()]);
    let mut config = base_config();
    config.album = true;
    config.overwrite = false;
    write_flac_tag(&mut d, &config, &mut tag, &sample_release(), &sample_track());
    assert_eq!(tag.album, Some(vec!["Kept".to_string()]));
}

#[test]
fn album_always_rewritten_with_overwrite() {
    let mut d = Discogs::new().unwrap();
    let mut tag = empty_flac();
    tag.album = Some(vec!["Old".to_string()]);
    let mut config = base_config();
    config.album = true;
    config.overwrite = true;
    write_flac_tag(&mut d, &config, &mut tag, &sample_release(), &sample_track());
    assert_eq!(tag.album, Some(vec!["An Album".to_string()]));
}

#[test]
fn id3_album_policy_matches_flac() {
    let mut d = Discogs::new().unwrap();
    let mut tag = empty_id3();
    tag.album = Some("Kept".to_string());
    let mut config = base_config();
    config.album = true;
    write_id3_tag(&mut d, &config, &mut tag, &sample_release(), &sample_track());
    assert_eq!(tag.album, Some("Kept".to_string()));
    config.overwrite = true;
    write_id3_tag(&mut d, &config, &mut tag, &sample_release(), &sample_track());
    assert_eq!(tag.album, Some("An Album".to_string()));
}

#[test]
fn flac_round_trip_all_fields() {
    let mut d = Discogs::new().unwrap();
    let mut tag = empty_flac();
    tag.title = Some(vec!["Old Title".to_string()]);
    let mut config = base_config();
    config.title = true;
    config.artist = true;
    config.album = true;
    config.label = true;
    config.date = true;
    config.track = true;
    config.flac_genre = 1;
    config.overwrite = true;
    let failed = write_flac_tag(&mut d, &config, &mut tag, &sample_release(), &sample_track());
    assert!(!failed);
    assert_eq!(tag.title, Some(vec!["intro".to_string()]));
    assert_eq!(tag.album, Some(vec!["An Album".to_string()]));
    assert_eq!(tag.artist, Some(vec!["DJ X".to_string(), "Guest".to_string()]));
    assert_eq!(tag.label, Some(vec!["Label A".to_string()]));
    assert_eq!(tag.date, Some(vec!["2021-05-07".to_string()]));
    assert_eq!(tag.genre, Some(vec!["Dance".to_string(), "Electronic".to_string()]));
    assert_eq!(tag.style, Some(vec!["Ambient".to_string(), "Techno".to_string()]));
    assert_eq!(tag.track, Some(1));
    assert!(tag.pictures.is_empty());
}

#[test]
fn flac_date_falls_back_to_year() {
    let mut d = Discogs::new().unwrap();
    let mut tag = empty_flac();
    let mut release = sample_release();
    release.released = None;
    let mut config = base_config();
    config.date = true;
    write_flac_tag(&mut d, &config, &mut tag, &release, &sample_track());
    assert_eq!(tag.date, Some(vec!["2021".to_string()]));
}

#[test]
fn flac_genre_modes() {
    let mut d = Discogs::new().unwrap();
    let release = sample_release();
    let track = sample_track();
    let mut config = base_config();
    config.overwrite = true;

    config.flac_genre = 2;
    let mut tag = empty_flac();
    write_flac_tag(&mut d, &config, &mut tag, &release, &track);
    assert_eq!(tag.genre, Some(vec!["Ambient".to_string(), "Techno".to_string()]));
    assert_eq!(tag.style, None);

    config.flac_genre = 3;
    let mut tag = empty_flac();
    write_flac_tag(&mut d, &config, &mut tag, &release, &track);
    assert_eq!(tag.genre, Some(vec!["Dance".to_string(), "Electronic".to_string()]));

    config.flac_genre = 4;
    let mut tag = empty_flac();
    write_flac_tag(&mut d, &config, &mut tag, &release, &track);
    assert_eq!(
        tag.genre,
        Some(vec![
            "Ambient".to_string(),
            "Dance".to_string(),
            "Electronic".to_string(),
            "Techno".to_string()
        ])
    );
}

#[test]
fn id3_genre_modes_join_with_comma() {
    let mut d = Discogs::new().unwrap();
    let release = sample_release();
    let track = sample_track();
    let mut config = base_config();
    config.overwrite = true;

    config.id3_genre = 1;
    let mut tag = empty_id3();
    write_id3_tag(&mut d, &config, &mut tag, &release, &track);
    assert_eq!(tag.genre, Some("Ambient, Techno".to_string()));

    config.id3_genre = 2;
    let mut tag = empty_id3();
    write_id3_tag(&mut d, &config, &mut tag, &release, &track);
    assert_eq!(tag.genre, Some("Dance, Electronic".to_string()));

    config.id3_genre = 3;
    let mut tag = empty_id3();
    write_id3_tag(&mut d, &config, &mut tag, &release, &track);
    assert_eq!(tag.genre, Some("Ambient, Dance, Electronic, Techno".to_string()));
}

#[test]
fn id3_structured_date_replaces_legacy_fields() {
    let mut d = Discogs::new().unwrap();
    let mut tag = empty_id3();
    tag.date_text = Some("0101".to_string());
    tag.year_text = Some("1990".to_string());
    let mut config = base_config();
    config.date = true;
    config.overwrite = true;
    config.id3v23 = false;
    write_id3_tag(&mut d, &config, &mut tag, &sample_release(), &sample_track());
    assert_eq!(tag.date_text, None);
    assert_eq!(tag.year_text, None);
    let ts = tag.date_recorded.as_ref().unwrap();
    assert_eq!(ts.year, 2021);
    assert_eq!(ts.month, Some(5));
    assert_eq!(ts.day, Some(7));
    assert_eq!(ts.hour, None);
}

#[test]
fn id3v23_mode_writes_legacy_fields() {
    let mut d = Discogs::new().unwrap();
    let mut tag = empty_id3();
    let mut config = base_config();
    config.date = true;
    config.overwrite = true;
    config.id3v23 = true;
    write_id3_tag(&mut d, &config, &mut tag, &sample_release(), &sample_track());
    assert_eq!(tag.date_recorded.is_none(), true);
    assert_eq!(tag.date_text, Some("0705".to_string()));
    assert_eq!(tag.year_text, Some("2021".to_string()));
}

#[test]
fn id3_artist_joined_and_cleaned() {
    let mut d = Discogs::new().unwrap();
    let mut tag = empty_id3();
    let mut config = base_config();
    config.artist = true;
    config.artist_separator = " / ".to_string();
    write_id3_tag(&mut d, &config, &mut tag, &sample_release(), &sample_track());
    assert_eq!(tag.artist, Some("DJ X / Guest".to_string()));
}

#[test]
fn track_artist_override_wins() {
    let mut d = Discogs::new().unwrap();
    let mut tag = empty_flac();
    let mut track = sample_track();
    track.artists = Some(vec!["Override (9)".to_string()]);
    let mut config = base_config();
    config.artist = true;
    write_flac_tag(&mut d, &config, &mut tag, &sample_release(), &track);
    assert_eq!(tag.artist, Some(vec!["Override".to_string()]));
}

#[test]
fn write_tag_dispatches_and_rejects_wrong_container() {
    let mut d = Discogs::new().unwrap();
    let info = MusicFileInfo {
        path: "x.flac".to_string(),
        title: "Intro".to_string(),
        artists: vec!["DJ X".to_string()],
        tag: MusicFileType::FLAC,
    };
    let mut config = base_config();
    config.title = true;
    config.overwrite = true;
    let mut tag = TagFile::Id3(empty_id3());
    let r = write_tag(&mut d, &config, &info, &mut tag, &sample_release(), &sample_track());
    assert_eq!(r, Err(WriteError::WrongContainer));
    let mut tag = TagFile::Flac(empty_flac());
    let r = write_tag(&mut d, &config, &info, &mut tag, &sample_release(), &sample_track());
    assert_eq!(r, Ok(false));
    match tag {
        TagFile::Flac(f) => assert_eq!(f.title, Some(vec!["intro".to_string()])),
        TagFile::Id3(_) => panic!("wrong family"),
    }
}

fn s(v: &str) -> JsonValue {
    JsonValue::Str(v.to_string())
}

fn obj(fields: Vec<(&str, JsonValue)>) -> JsonValue {
    JsonValue::Obj(fields.into_iter().map(|(k, v)| (k.to_string(), v)).collect())
}

#[test]
fn end_to_end_local_intro_gets_catalog_casing() {
    // a local file titled "Intro" by "DJ X"; the catalog's one release has a
    // track titled "intro" at position "1"
    let release_json = obj(vec![
        ("title", s("An Album")),
        ("id", JsonValue::Int(7)),
        ("tracklist", JsonValue::Arr(vec![obj(vec![
            ("title", s("intro")),
            ("duration", s("1:00")),
            ("position", s("1")),
        ])])),
        ("artists", JsonValue::Arr(vec![obj(vec![("name", s("DJ X"))])])),
    ]);
    let release = ReleaseMaster::from_json(&release_json, ReleaseType::Release, None).unwrap();
    let fetched = vec![Some(release)];
    let (c, t) = select_track(&fetched, "Intro", 80).unwrap();
    assert_eq!((c, t), (0, 0));
    let release = fetched.into_iter().next().unwrap().unwrap();
    let track = &release.tracks.as_ref().unwrap()[t];
    assert_eq!(track.position_int, 1);

    let mut d = Discogs::new().unwrap();
    let mut config = base_config();
    config.title = true;
    config.overwrite = true;
    let mut tag = empty_id3();
    tag.title = Some("Intro".to_string());
    let track = Track {
        title: track.title.clone(),
        duration: track.duration.clone(),
        position: track.position.clone(),
        artists: None,
        position_int: track.position_int,
    };
    write_id3_tag(&mut d, &config, &mut tag, &release, &track);
    // the catalog's casing, not the local file's
    assert_eq!(tag.title, Some("intro".to_string()));
}
