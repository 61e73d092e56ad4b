use discogs_tagger::json::JsonValue;
use discogs_tagger::records::{ReleaseMaster, ReleaseType, SearchResults, Track};

fn s(v: &str) -> JsonValue {
    JsonValue::Str(v.to_string())
}

fn n(v: i64) -> JsonValue {
    JsonValue::Int(v)
}

fn arr(items: Vec<JsonValue>) -> JsonValue {
    JsonValue::Arr(items)
}

fn obj(fields: Vec<(&str, JsonValue)>) -> JsonValue {
    JsonValue::Obj(fields.into_iter().map(|(k, v)| (k.to_string(), v)).collect())
}

fn named(name: &str) -> JsonValue {
    obj(vec![("name", s(name))])
}

#[test]
fn track_decodes_required_fields() {
    let j = obj(vec![("title", s("Intro")), ("duration", s("1:23")), ("position", s("7"))]);
    let t = Track::from_json(&j, 3).unwrap();
    assert_eq!(t.title, "Intro");
    assert_eq!(t.duration, "1:23");
    assert_eq!(t.position, "7");
    assert_eq!(t.position_int, 7);
    assert!(t.artists.is_none());
}

#[test]
fn track_position_falls_back_to_index() {
    let j = obj(vec![("title", s("X")), ("duration", s("")), ("position", s("A1"))]);
    let t = Track::from_json(&j, 4).unwrap();
    assert_eq!(t.position_int, 4);
}

#[test]
fn track_missing_title_is_dropped() {
    let j = obj(vec![("duration", s("")), ("position", s("1"))]);
    assert!(Track::from_json(&j, 1).is_none());
}

#[test]
fn track_artists_decoded_from_names() {
    let j = obj(vec![
        ("title", s("X")),
        ("duration", s("")),
        ("position", s("1")),
        ("artists", arr(vec![named("A"), named("B (2)")])),
    ]);
    let t = Track::from_json(&j, 1).unwrap();
    assert_eq!(t.artists, Some(vec!["A".to_string(), "B (2)".to_string()]));
}

fn full_release_json() -> JsonValue {
    obj(vec![
        ("title", s("An Album")),
        ("id", n(42)),
        ("styles", arr(vec![s("Techno"), s("Ambient")])),
        ("genres", arr(vec![s("Electronic")])),
        ("uri", s("https://example.test/42")),
        ("country", s("US")),
        ("year", n(2021)),
        ("released", s("2021-05-07")),
        ("labels", arr(vec![named("Label A (3)"), named("Label B")])),
        ("artists", arr(vec![named("DJ X")])),
        ("tracklist", arr(vec![
            obj(vec![("title", s("intro")), ("duration", s("1:00")), ("position", s("1"))]),
            obj(vec![("title", s("outro")), ("duration", s("2:00")), ("position", s("B"))]),
        ])),
        ("images", arr(vec![obj(vec![("uri", s("https://img.test/a.jpg"))])])),
    ])
}

#[test]
fn release_decodes_full_record() {
    let rm = ReleaseMaster::from_json(&full_release_json(), ReleaseType::Release, None).unwrap();
    assert_eq!(rm.title, "An Album");
    assert_eq!(rm.id, 42);
    assert_eq!(rm.styles, vec!["Techno".to_string(), "Ambient".to_string()]);
    assert_eq!(rm.genres, vec!["Electronic".to_string()]);
    assert_eq!(rm.url, "https://example.test/42");
    assert_eq!(rm.country, "US");
    assert_eq!(rm.year, Some(2021));
    assert_eq!(rm.released, Some("2021-05-07".to_string()));
    assert_eq!(rm.label, Some(vec!["Label A (3)".to_string(), "Label B".to_string()]));
    assert_eq!(rm.artists, Some(vec!["DJ X".to_string()]));
    assert_eq!(rm.art_url, Some("https://img.test/a.jpg".to_string()));
    let tracks = rm.tracks.as_ref().unwrap();
    assert_eq!(tracks.len(), 2);
    assert_eq!(tracks[0].title, "intro");
    assert_eq!(tracks[0].position_int, 1);
    assert_eq!(tracks[1].position_int, 2);
}

#[test]
fn release_cover_image_wins_over_images() {
    let j = obj(vec![
        ("title", s("T")),
        ("id", n(1)),
        ("cover_image", s("https://img.test/cover.jpg")),
        ("images", arr(vec![obj(vec![("uri", s("https://img.test/other.jpg"))])])),
    ]);
    let rm = ReleaseMaster::from_json(&j, ReleaseType::Release, None).unwrap();
    assert_eq!(rm.art_url, Some("https://img.test/cover.jpg".to_string()));
}

#[test]
fn release_year_string_parsed() {
    let j = obj(vec![("title", s("T")), ("id", n(1)), ("year", s("1999"))]);
    let rm = ReleaseMaster::from_json(&j, ReleaseType::Release, None).unwrap();
    assert_eq!(rm.year, Some(1999));
}

#[test]
fn release_singular_style_key_from_search() {
    let j = obj(vec![("title", s("T")), ("id", n(1)), ("style", arr(vec![s("House")]))]);
    let rm = ReleaseMaster::from_json(&j, ReleaseType::Release, None).unwrap();
    assert_eq!(rm.styles, vec!["House".to_string()]);
    assert_eq!(rm.genres, Vec::<String>::new());
}

#[test]
fn release_label_override_wins() {
    let j = obj(vec![("title", s("T")), ("id", n(1)), ("labels", arr(vec![named("Ignored")]))]);
    let rm = ReleaseMaster::from_json(&j, ReleaseType::Master, Some(vec!["Kept".to_string()]))
        .unwrap();
    assert_eq!(rm.label, Some(vec!["Kept".to_string()]));
    assert!(matches!(rm.rtype, ReleaseType::Master));
}

#[test]
fn release_flat_label_strings_accepted() {
    let j = obj(vec![("title", s("T")), ("id", n(1)), ("label", arr(vec![s("Plain")]))]);
    let rm = ReleaseMaster::from_json(&j, ReleaseType::Release, None).unwrap();
    assert_eq!(rm.label, Some(vec!["Plain".to_string()]));
}

#[test]
fn release_missing_id_is_dropped() {
    let j = obj(vec![("title", s("T"))]);
    assert!(ReleaseMaster::from_json(&j, ReleaseType::Release, None).is_none());
}

#[test]
fn release_malformed_style_entry_rejected() {
    let j = obj(vec![("title", s("T")), ("id", n(1)), ("styles", arr(vec![s("Ok"), n(3)]))]);
    assert!(ReleaseMaster::from_json(&j, ReleaseType::Release, None).is_none());
}

#[test]
fn search_results_split_by_type_and_drop_malformed() {
    let j = obj(vec![(
        "results",
        arr(vec![
            obj(vec![("type", s("release")), ("title", s("R1")), ("id", n(1))]),
            obj(vec![("type", s("master")), ("title", s("M1")), ("id", n(2))]),
            obj(vec![("type", s("release")), ("id", n(3))]),
            obj(vec![("type", s("other")), ("title", s("X")), ("id", n(4))]),
            obj(vec![("type", s("release")), ("title", s("R2")), ("id", n(5))]),
        ]),
    )]);
    let sr = SearchResults::from_json(&j).unwrap();
    assert_eq!(sr.releases.len(), 2);
    assert_eq!(sr.releases[0].title, "R1");
    assert_eq!(sr.releases[1].title, "R2");
    assert_eq!(sr.masters.len(), 1);
    assert_eq!(sr.masters[0].title, "M1");
    assert!(matches!(sr.masters[0].rtype, ReleaseType::Master));
}

#[test]
fn search_without_results_array_is_none() {
    let j = obj(vec![("message", s("no results here"))]);
    assert!(SearchResults::from_json(&j).is_none());
}
