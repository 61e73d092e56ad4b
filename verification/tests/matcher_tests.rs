use discogs_tagger::levenshtein::{levenshtein, similarity};
use discogs_tagger::matcher::{match_in_tracklist, select_track};
use discogs_tagger::records::{ReleaseMaster, ReleaseType, Track};

fn mk_track(title: &str) -> Track {
    Track {
        title: title.to_string(),
        duration: "3:00".to_string(),
        position: "1".to_string(),
        artists: None,
        position_int: 1,
    }
}

fn mk_release(id: i64, tracks: Vec<Track>) -> ReleaseMaster {
    ReleaseMaster {
        rtype: ReleaseType::Release,
        title: "Album".to_string(),
        id,
        styles: vec![],
        genres: vec![],
        url: String::new(),
        country: String::new(),
        art_url: None,
        year: None,
        label: None,
        artists: Some(vec!["Someone".to_string()]),
        extra_artists: None,
        tracks: Some(tracks),
        released: None,
    }
}

#[test]
fn edit_distance_basics() {
    let a: Vec<char> = "kitten".chars().collect();
    let b: Vec<char> = "sitting".chars().collect();
    assert_eq!(levenshtein(&a, &b), 3);
    let e: Vec<char> = Vec::new();
    assert_eq!(levenshtein(&e, &a), 6);
    assert_eq!(levenshtein(&a, &a), 0);
}

#[test]
fn similarity_score_exact_values() {
    let a: Vec<char> = "abcd".chars().collect();
    let b: Vec<char> = "abcx".chars().collect();
    // distance 1 over length 4: (4 - 1) * 100 / 4 = 75
    assert_eq!(similarity(&a, &b), 75);
    let e: Vec<char> = Vec::new();
    assert_eq!(similarity(&e, &e), 100);
    assert_eq!(similarity(&a, &a), 100);
    assert_eq!(similarity(&e, &a), 0);
}

#[test]
fn exact_match_beats_earlier_fuzzy() {
    // the first track scores 80, the second is an exact strict-normalized
    // match; the exact one wins although the fuzzy one clears the threshold
    let tracks = vec![mk_track("intr"), mk_track("Intro")];
    assert_eq!(match_in_tracklist(&tracks, "intro", 0), Some(1));
}

#[test]
fn first_exact_match_wins_ties() {
    let tracks = vec![mk_track("Intro"), mk_track("INTRO")];
    assert_eq!(match_in_tracklist(&tracks, "intro", 80), Some(0));
}

#[test]
fn below_threshold_is_no_match() {
    // 24 characters, distance 5: score is (24 - 5) * 100 / 24 = 79
    let local = "aaaaaaaaaaaaaaaaaaaaaaaa";
    let tracks = vec![mk_track("aaaaaaaaaaaaaaaaaaabbbbb")];
    assert_eq!(match_in_tracklist(&tracks, local, 80), None);
    assert_eq!(match_in_tracklist(&tracks, local, 79), Some(0));
}

#[test]
fn empty_tracklist_is_no_match() {
    let tracks: Vec<Track> = Vec::new();
    assert_eq!(match_in_tracklist(&tracks, "anything", 0), None);
}

#[test]
fn earlier_candidate_wins_over_later_exact() {
    let fetched = vec![
        Some(mk_release(1, vec![mk_track("Other"), mk_track("Intro")])),
        Some(mk_release(2, vec![mk_track("intro")])),
    ];
    assert_eq!(select_track(&fetched, "Intro", 80), Some((0, 1)));
}

#[test]
fn failed_and_tracklistless_candidates_skipped() {
    let mut empty = mk_release(3, vec![]);
    empty.tracks = None;
    let fetched = vec![None, Some(empty), Some(mk_release(4, vec![mk_track("Intro")]))];
    assert_eq!(select_track(&fetched, "intro", 80), Some((2, 0)));
}

#[test]
fn no_candidate_clears_threshold() {
    let fetched = vec![Some(mk_release(5, vec![mk_track("completely unrelated")]))];
    assert_eq!(select_track(&fetched, "intro", 80), None);
}
