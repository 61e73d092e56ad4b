//! The catalog data model — releases, masters, tracks and search results —
//! and the typed decoders that build it from JSON responses.
//!
//! Decoding is lossy by policy: an entry whose required fields (title, id)
//! are missing or of the wrong shape is dropped, and a record with a
//! malformed list entry is rejected as a whole rather than read partially.

use vstd::prelude::*;
use crate::json::JsonValue;
use crate::numbers::{parse_i32, parse_i32_spec, parse_i16, parse_i16_spec};

verus! {

#[derive(Debug, Clone, Copy, PartialEq, Eq, Structural)]
pub enum ReleaseType {
    Release,
    Master,
}

#[derive(Debug)]
pub struct Track {
    pub title: String,
    pub duration: String,
    pub position: String,
    pub artists: Option<Vec<String>>,
    pub position_int: i32,
}

pub ghost struct TrackModel {
    pub title: Seq<char>,
    pub duration: Seq<char>,
    pub position: Seq<char>,
    pub artists: Option<Seq<Seq<char>>>,
    pub position_int: int,
}

impl View for Track {
    type V = TrackModel;

    open spec fn view(&self) -> TrackModel {
        TrackModel {
            title: self.title@,
            duration: self.duration@,
            position: self.position@,
            artists: self.artists.deep_view(),
            position_int: self.position_int as int,
        }
    }
}

impl DeepView for Track {
    type V = TrackModel;

    open spec fn deep_view(&self) -> TrackModel {
        self.view()
    }
}

#[derive(Debug)]
pub struct ReleaseMaster {
    pub rtype: ReleaseType,
    pub title: String,
    pub id: i64,
    pub styles: Vec<String>,
    pub genres: Vec<String>,
    pub url: String,
    pub country: String,
    pub art_url: Option<String>,
    pub year: Option<i16>,
    pub label: Option<Vec<String>>,
    pub artists: Option<Vec<String>>,
    pub extra_artists: Option<Vec<String>>,
    pub tracks: Option<Vec<Track>>,
    pub released: Option<String>,
}

pub ghost struct ReleaseModel {
    pub rtype: ReleaseType,
    pub title: Seq<char>,
    pub id: int,
    pub styles: Seq<Seq<char>>,
    pub genres: Seq<Seq<char>>,
    pub url: Seq<char>,
    pub country: Seq<char>,
    pub art_url: Option<Seq<char>>,
    pub year: Option<int>,
    pub label: Option<Seq<Seq<char>>>,
    pub artists: Option<Seq<Seq<char>>>,
    pub extra_artists: Option<Seq<Seq<char>>>,
    pub tracks: Option<Seq<TrackModel>>,
    pub released: Option<Seq<char>>,
}

impl View for ReleaseMaster {
    type V = ReleaseModel;

    open spec fn view(&self) -> ReleaseModel {
        ReleaseModel {
            rtype: self.rtype,
            title: self.title@,
            id: self.id as int,
            styles: self.styles.deep_view(),
            genres: self.genres.deep_view(),
            url: self.url@,
            country: self.country@,
            art_url: self.art_url.deep_view(),
            year: match self.year {
                Some(y) => Some(y as int),
                None => None,
            },
            label: self.label.deep_view(),
            artists: self.artists.deep_view(),
            extra_artists: self.extra_artists.deep_view(),
            tracks: self.tracks.deep_view(),
            released: self.released.deep_view(),
        }
    }
}

impl DeepView for ReleaseMaster {
    type V = ReleaseModel;

    open spec fn deep_view(&self) -> ReleaseModel {
        self.view()
    }
}

#[derive(Debug)]
pub struct SearchResults {
    pub releases: Vec<ReleaseMaster>,
    pub masters: Vec<ReleaseMaster>,
}

pub ghost struct SearchResultsModel {
    pub releases: Seq<ReleaseModel>,
    pub masters: Seq<ReleaseModel>,
}

impl View for SearchResults {
    type V = SearchResultsModel;

    open spec fn view(&self) -> SearchResultsModel {
        SearchResultsModel { releases: self.releases.deep_view(), masters: self.masters.deep_view() }
    }
}

/// Every element must be an object with a string "name" field; the list of
/// those names.
pub open spec fn names_of(arr: Seq<JsonValue>) -> Option<Seq<Seq<char>>>
    decreases arr.len(),
{
    if arr.len() == 0 {
        Some(Seq::empty())
    } else {
        match arr[0].spec_str_field("name"@) {
            Some(n) => match names_of(arr.drop_first()) {
                Some(rest) => Some(seq![n] + rest),
                None => None,
            },
            None => None,
        }
    }
}

/// Every element must be a plain string; the list of their contents.
pub open spec fn strings_of(arr: Seq<JsonValue>) -> Option<Seq<Seq<char>>>
    decreases arr.len(),
{
    if arr.len() == 0 {
        Some(Seq::empty())
    } else {
        match arr[0] {
            JsonValue::Str(s) => match strings_of(arr.drop_first()) {
                Some(rest) => Some(seq![s@] + rest),
                None => None,
            },
            _ => None,
        }
    }
}

/// A list under the singular key if present, else under the plural key, else
/// empty; search responses use the singular names, full records the plural.
pub open spec fn string_list_of(j: JsonValue, singular: Seq<char>, plural: Seq<char>) -> Option<
    Seq<Seq<char>>,
> {
    match j.spec_arr_field(singular) {
        Some(a) => strings_of(a),
        None => match j.spec_arr_field(plural) {
            Some(a) => strings_of(a),
            None => Some(Seq::empty()),
        },
    }
}

/// An optional name list under `key`: absent (or not an array) is fine,
/// a malformed entry is not.
pub open spec fn name_list_of(j: JsonValue, key: Seq<char>) -> Option<Option<Seq<Seq<char>>>> {
    match j.spec_arr_field(key) {
        Some(a) => match names_of(a) {
            Some(ns) => Some(Some(ns)),
            None => None,
        },
        None => Some(None),
    }
}

/// The record's label list: an override wins; else "label" as plain strings,
/// else "labels" as objects with names, else absent.
pub open spec fn label_list_of(j: JsonValue, label: Option<Seq<Seq<char>>>) -> Option<
    Option<Seq<Seq<char>>>,
> {
    match label {
        Some(l) => Some(Some(l)),
        None => match j.spec_arr_field("label"@) {
            Some(a) => match strings_of(a) {
                Some(l) => Some(Some(l)),
                None => None,
            },
            None => match j.spec_arr_field("labels"@) {
                Some(a) => match names_of(a) {
                    Some(l) => Some(Some(l)),
                    None => None,
                },
                None => Some(None),
            },
        },
    }
}

/// The track's derived ordinal: its position string when it parses as a
/// number, else the 1-based index in the containing tracklist.
pub open spec fn track_pos_of(p: Seq<char>, fallback: i32) -> int {
    match parse_i32_spec(p) {
        Some(v) => v as int,
        None => fallback as int,
    }
}

/// What decoding one tracklist entry yields; title, duration and position
/// are required strings.
pub open spec fn track_from_json_spec(j: JsonValue, fallback: i32) -> Option<TrackModel> {
    match j.spec_str_field("title"@) {
        Some(t) => match j.spec_str_field("duration"@) {
            Some(d) => match j.spec_str_field("position"@) {
                Some(p) => match j.spec_arr_field("artists"@) {
                    Some(a) => match names_of(a) {
                        Some(ns) => Some(
                            TrackModel {
                                title: t,
                                duration: d,
                                position: p,
                                artists: Some(ns),
                                position_int: track_pos_of(p, fallback),
                            },
                        ),
                        None => None,
                    },
                    None => Some(
                        TrackModel {
                            title: t,
                            duration: d,
                            position: p,
                            artists: None,
                            position_int: track_pos_of(p, fallback),
                        },
                    ),
                },
                None => None,
            },
            None => None,
        },
        None => None,
    }
}

/// The whole tracklist, positions counted from `pos`; a tracklist too long
/// for 32-bit ordinals is rejected.
pub open spec fn tracks_of(arr: Seq<JsonValue>, pos: int) -> Option<Seq<TrackModel>>
    decreases arr.len(),
{
    if arr.len() == 0 {
        Some(Seq::empty())
    } else if pos > i32::MAX {
        None
    } else {
        match track_from_json_spec(arr[0], pos as i32) {
            Some(t) => match tracks_of(arr.drop_first(), pos + 1) {
                Some(rest) => Some(seq![t] + rest),
                None => None,
            },
            None => None,
        }
    }
}

pub open spec fn tracklist_of(j: JsonValue) -> Option<Option<Seq<TrackModel>>> {
    match j.spec_arr_field("tracklist"@) {
        Some(a) => match tracks_of(a, 1) {
            Some(ts) => Some(Some(ts)),
            None => None,
        },
        None => Some(None),
    }
}

/// The year: a "year" string must parse as a 16-bit number; a numeric
/// "year" is truncated to 16 bits; anything else means no year.
pub open spec fn year_of(j: JsonValue) -> Option<Option<int>> {
    match j.spec_str_field("year"@) {
        Some(y) => match parse_i16_spec(y) {
            Some(v) => Some(Some(v as int)),
            None => None,
        },
        None => match j.spec_int_field("year"@) {
            Some(v) => Some(Some((v as i16) as int)),
            None => Some(None),
        },
    }
}

/// The cover-art address: "cover_image" when present, else the first entry
/// of "images", which must then carry a string "uri".
pub open spec fn art_url_of(j: JsonValue) -> Option<Option<Seq<char>>> {
    match j.spec_str_field("cover_image"@) {
        Some(u) => Some(Some(u)),
        None => match j.spec_arr_field("images"@) {
            Some(a) => if a.len() == 0 {
                Some(None)
            } else {
                match a[0].spec_str_field("uri"@) {
                    Some(u) => Some(Some(u)),
                    None => None,
                }
            },
            None => Some(None),
        },
    }
}

pub open spec fn str_field_or_empty(j: JsonValue, key: Seq<char>) -> Seq<char> {
    match j.spec_str_field(key) {
        Some(s) => s,
        None => Seq::empty(),
    }
}

/// What decoding a release or master record yields: `None` exactly when a
/// required field is missing or some list entry is malformed.
pub open spec fn release_from_json_spec(
    j: JsonValue,
    rtype: ReleaseType,
    label: Option<Seq<Seq<char>>>,
) -> Option<ReleaseModel> {
    match j.spec_str_field("title"@) {
        Some(title) => match j.spec_int_field("id"@) {
            Some(id) => match string_list_of(j, "style"@, "styles"@) {
                Some(styles) => match string_list_of(j, "genre"@, "genres"@) {
                    Some(genres) => match label_list_of(j, label) {
                        Some(lab) => match name_list_of(j, "artists"@) {
                            Some(arts) => match name_list_of(j, "extraartists"@) {
                                Some(xarts) => match tracklist_of(j) {
                                    Some(trks) => match year_of(j) {
                                        Some(yr) => match art_url_of(j) {
                                            Some(art) => Some(
                                                ReleaseModel {
                                                    rtype,
                                                    title,
                                                    id: id as int,
                                                    styles,
                                                    genres,
                                                    url: str_field_or_empty(j, "uri"@),
                                                    country: str_field_or_empty(j, "country"@),
                                                    art_url: art,
                                                    year: yr,
                                                    label: lab,
                                                    artists: arts,
                                                    extra_artists: xarts,
                                                    tracks: trks,
                                                    released: j.spec_str_field("released"@),
                                                },
                                            ),
                                            None => None,
                                        },
                                        None => None,
                                    },
                                    None => None,
                                },
                                None => None,
                            },
                            None => None,
                        },
                        None => None,
                    },
                    None => None,
                },
                None => None,
            },
            None => None,
        },
        None => None,
    }
}

/// The two result lists of a search response, in response order: entries
/// typed "release" and entries typed "master", each decoded as a search hit
/// and silently dropped when malformed.
pub open spec fn search_lists(results: Seq<JsonValue>) -> (Seq<ReleaseModel>, Seq<ReleaseModel>)
    decreases results.len(),
{
    if results.len() == 0 {
        (Seq::empty(), Seq::empty())
    } else {
        let rest = search_lists(results.drop_first());
        let r0 = results[0];
        let rs = if r0.spec_str_field("type"@) == Some("release"@) {
            match release_from_json_spec(r0, ReleaseType::Release, None) {
                Some(m) => seq![m] + rest.0,
                None => rest.0,
            }
        } else {
            rest.0
        };
        let ms = if r0.spec_str_field("type"@) == Some("master"@) {
            match release_from_json_spec(r0, ReleaseType::Master, None) {
                Some(m) => seq![m] + rest.1,
                None => rest.1,
            }
        } else {
            rest.1
        };
        (rs, ms)
    }
}

pub open spec fn search_from_json_spec(j: JsonValue) -> Option<SearchResultsModel> {
    match j.spec_arr_field("results"@) {
        Some(rs) => Some(
            SearchResultsModel { releases: search_lists(rs).0, masters: search_lists(rs).1 },
        ),
        None => None,
    }
}

/// Copies a string list, preserving its contents.
pub fn clone_strings(v: &Vec<String>) -> (r: Vec<String>)
    ensures
        r@ == v@,
{
    let mut r: Vec<String> = Vec::new();
    let mut i: usize = 0;
    while i < v.len()
        invariant
            i <= v@.len(),
            r@.len() == i,
            forall|k: int| 0 <= k < i ==> r@[k] == v@[k],
        decreases v@.len() - i,
    {
        r.push(v[i].clone());
        i = i + 1;
    }
    proof {
        assert(r@ =~= v@);
    }
    r
}

fn clone_opt_strings(v: &Option<Vec<String>>) -> (r: Option<Vec<String>>)
    ensures
        r.deep_view() == v.deep_view(),
        r is Some <==> v is Some,
{
    match v {
        Some(l) => Some(clone_strings(l)),
        None => None,
    }
}

/// Decodes an array of objects with "name" fields into the list of names.
fn decode_names(arr: &Vec<JsonValue>) -> (r: Option<Vec<String>>)
    ensures
        match r {
            Some(v) => names_of(arr@) == Some(v.deep_view()),
            None => names_of(arr@) is None,
        },
{
    let mut out: Vec<String> = Vec::new();
    let mut i: usize = 0;
    proof {
        assert(arr@.skip(0) =~= arr@);
    }
    while i < arr.len()
        invariant
            i <= arr@.len(),
            match names_of(arr@.skip(i as int)) {
                Some(rest) => names_of(arr@) == Some(out.deep_view() + rest),
                None => names_of(arr@) is None,
            },
        decreases arr@.len() - i,
    {
        proof {
            assert(arr@.skip(i as int).drop_first() =~= arr@.skip(i + 1 as int));
            assert(arr@.skip(i as int)[0] == arr@[i as int]);
        }
        match arr[i].str_field("name") {
            Some(s) => {
                out.push(s.clone());
            },
            None => {
                return None;
            },
        }
        proof {
            if names_of(arr@.skip(i + 1 as int)) is Some {
                assert(out.deep_view() + names_of(arr@.skip(i + 1 as int))->0 =~= out.deep_view().drop_last() + (seq![arr@[i as int].spec_str_field("name"@)->0] + names_of(arr@.skip(i + 1 as int))->0));
            }
        }
        i = i + 1;
    }
    proof {
        assert(arr@.skip(arr@.len() as int) =~= Seq::<JsonValue>::empty());
        assert(out.deep_view() + Seq::<Seq<char>>::empty() =~= out.deep_view());
    }
    Some(out)
}

/// Decodes an array of plain strings.
fn decode_strings(arr: &Vec<JsonValue>) -> (r: Option<Vec<String>>)
    ensures
        match r {
            Some(v) => strings_of(arr@) == Some(v.deep_view()),
            None => strings_of(arr@) is None,
        },
{
    let mut out: Vec<String> = Vec::new();
    let mut i: usize = 0;
    proof {
        assert(arr@.skip(0) =~= arr@);
    }
    while i < arr.len()
        invariant
            i <= arr@.len(),
            match strings_of(arr@.skip(i as int)) {
                Some(rest) => strings_of(arr@) == Some(out.deep_view() + rest),
                None => strings_of(arr@) is None,
            },
        decreases arr@.len() - i,
    {
        proof {
            assert(arr@.skip(i as int).drop_first() =~= arr@.skip(i + 1 as int));
            assert(arr@.skip(i as int)[0] == arr@[i as int]);
        }
        match arr[i].as_str() {
            Some(s) => {
                out.push(s.clone());
            },
            None => {
                return None;
            },
        }
        proof {
            if strings_of(arr@.skip(i + 1 as int)) is Some {
                assert(out.deep_view() + strings_of(arr@.skip(i + 1 as int))->0 =~= out.deep_view().drop_last() + (seq![out.deep_view().last()] + strings_of(arr@.skip(i + 1 as int))->0));
            }
        }
        i = i + 1;
    }
    proof {
        assert(arr@.skip(arr@.len() as int) =~= Seq::<JsonValue>::empty());
        assert(out.deep_view() + Seq::<Seq<char>>::empty() =~= out.deep_view());
    }
    Some(out)
}

impl Track {
    /// Decodes one tracklist entry; `fallback` is the 1-based index used
    /// when the position string is not numeric.
    pub fn from_json(json: &JsonValue, fallback: i32) -> (r: Option<Track>)
        ensures
            match r {
                Some(t) => track_from_json_spec(*json, fallback) == Some(t@),
                None => track_from_json_spec(*json, fallback) is None,
            },
    {
        let title = match json.str_field("title") {
            Some(s) => s.clone(),
            None => {
                return None;
            },
        };
        let duration = match json.str_field("duration") {
            Some(s) => s.clone(),
            None => {
                return None;
            },
        };
        let position = match json.str_field("position") {
            Some(s) => s.clone(),
            None => {
                return None;
            },
        };
        let artists: Option<Vec<String>> = match json.arr_field("artists") {
            Some(a) => match decode_names(a) {
                Some(ns) => Some(ns),
                None => {
                    return None;
                },
            },
            None => None,
        };
        let position_int = match parse_i32(position.as_str()) {
            Some(v) => v,
            None => fallback,
        };
        Some(Track { title, duration, position, artists, position_int })
    }

    /// A copy of the track with the same contents.
    pub fn duplicate(&self) -> (r: Track)
        ensures
            r@ == self@,
    {
        Track {
            title: self.title.clone(),
            duration: self.duration.clone(),
            position: self.position.clone(),
            artists: clone_opt_strings(&self.artists),
            position_int: self.position_int,
        }
    }
}

fn clone_tracks(v: &Vec<Track>) -> (r: Vec<Track>)
    ensures
        r.deep_view() == v.deep_view(),
{
    let mut r: Vec<Track> = Vec::new();
    let mut i: usize = 0;
    while i < v.len()
        invariant
            i <= v@.len(),
            r@.len() == i,
            forall|k: int| 0 <= k < i ==> r@[k]@ == v@[k]@,
        decreases v@.len() - i,
    {
        r.push(v[i].duplicate());
        i = i + 1;
    }
    proof {
        assert(r.deep_view() =~= v.deep_view());
    }
    r
}

impl ReleaseMaster {
    /// Decodes a release or master record; search hits and full records
    /// share the shape, with a label list optionally supplied by the caller.
    pub fn from_json(json: &JsonValue, rtype: ReleaseType, label: Option<Vec<String>>) -> (r:
        Option<ReleaseMaster>)
        ensures
            match r {
                Some(rm) => release_from_json_spec(*json, rtype, label.deep_view()) == Some(rm@),
                None => release_from_json_spec(*json, rtype, label.deep_view()) is None,
            },
    {
        let title = match json.str_field("title") {
            Some(s) => s.clone(),
            None => {
                return None;
            },
        };
        let id = match json.int_field("id") {
            Some(v) => v,
            None => {
                return None;
            },
        };
        let styles = match decode_string_list(json, "style", "styles") {
            Some(v) => v,
            None => {
                return None;
            },
        };
        let genres = match decode_string_list(json, "genre", "genres") {
            Some(v) => v,
            None => {
                return None;
            },
        };
        let label = match decode_label_list(json, label) {
            Some(v) => v,
            None => {
                return None;
            },
        };
        let artists = match decode_name_list(json, "artists") {
            Some(v) => v,
            None => {
                return None;
            },
        };
        let extra_artists = match decode_name_list(json, "extraartists") {
            Some(v) => v,
            None => {
                return None;
            },
        };
        let tracks = match decode_tracklist(json) {
            Some(v) => v,
            None => {
                return None;
            },
        };
        let year = match decode_year(json) {
            Some(v) => v,
            None => {
                return None;
            },
        };
        let art_url = match decode_art_url(json) {
            Some(v) => v,
            None => {
                return None;
            },
        };
        let url = match json.str_field("uri") {
            Some(s) => s.clone(),
            None => String::new(),
        };
        let country = match json.str_field("country") {
            Some(s) => s.clone(),
            None => String::new(),
        };
        let released = match json.str_field("released") {
            Some(s) => Some(s.clone()),
            None => None,
        };
        Some(
            ReleaseMaster {
                rtype,
                title,
                id,
                styles,
                genres,
                url,
                country,
                art_url,
                year,
                label,
                artists,
                extra_artists,
                tracks,
                released,
            },
        )
    }

    /// A copy of the record with the same contents.
    pub fn duplicate(&self) -> (r: ReleaseMaster)
        ensures
            r@ == self@,
    {
        ReleaseMaster {
            rtype: self.rtype,
            title: self.title.clone(),
            id: self.id,
            styles: clone_strings(&self.styles),
            genres: clone_strings(&self.genres),
            url: self.url.clone(),
            country: self.country.clone(),
            art_url: match &self.art_url {
                Some(s) => Some(s.clone()),
                None => None,
            },
            year: self.year,
            label: clone_opt_strings(&self.label),
            artists: clone_opt_strings(&self.artists),
            extra_artists: clone_opt_strings(&self.extra_artists),
            tracks: match &self.tracks {
                Some(ts) => Some(clone_tracks(ts)),
                None => None,
            },
            released: match &self.released {
                Some(s) => Some(s.clone()),
                None => None,
            },
        }
    }
}

fn decode_string_list(json: &JsonValue, singular: &str, plural: &str) -> (r: Option<Vec<String>>)
    ensures
        match r {
            Some(v) => string_list_of(*json, singular@, plural@) == Some(v.deep_view()),
            None => string_list_of(*json, singular@, plural@) is None,
        },
{
    match json.arr_field(singular) {
        Some(a) => decode_strings(a),
        None => match json.arr_field(plural) {
            Some(a) => decode_strings(a),
            None => {
                let empty: Vec<String> = Vec::new();
                proof {
                    assert(empty.deep_view() =~= Seq::<Seq<char>>::empty());
                }
                Some(empty)
            },
        },
    }
}

fn decode_name_list(json: &JsonValue, key: &str) -> (r: Option<Option<Vec<String>>>)
    ensures
        match r {
            Some(v) => name_list_of(*json, key@) == Some(v.deep_view()),
            None => name_list_of(*json, key@) is None,
        },
{
    match json.arr_field(key) {
        Some(a) => match decode_names(a) {
            Some(ns) => Some(Some(ns)),
            None => None,
        },
        None => Some(None),
    }
}

fn decode_label_list(json: &JsonValue, label: Option<Vec<String>>) -> (r: Option<
    Option<Vec<String>>,
>)
    ensures
        match r {
            Some(v) => label_list_of(*json, label.deep_view()) == Some(v.deep_view()),
            None => label_list_of(*json, label.deep_view()) is None,
        },
{
    match label {
        Some(l) => Some(Some(l)),
        None => match json.arr_field("label") {
            Some(a) => match decode_strings(a) {
                Some(l) => Some(Some(l)),
                None => None,
            },
            None => match json.arr_field("labels") {
                Some(a) => match decode_names(a) {
                    Some(l) => Some(Some(l)),
                    None => None,
                },
                None => Some(None),
            },
        },
    }
}

fn decode_tracklist(json: &JsonValue) -> (r: Option<Option<Vec<Track>>>)
    ensures
        match r {
            Some(v) => tracklist_of(*json) == Some(v.deep_view()),
            None => tracklist_of(*json) is None,
        },
{
    let arr = match json.arr_field("tracklist") {
        Some(a) => a,
        None => {
            return Some(None);
        },
    };
    let mut out: Vec<Track> = Vec::new();
    let mut i: usize = 0;
    proof {
        assert(arr@.skip(0) =~= arr@);
    }
    while i < arr.len()
        invariant
            i <= arr@.len(),
            i <= i32::MAX,
            out@.len() == i,
            json.spec_arr_field("tracklist"@) == Some(arr@),
            match tracks_of(arr@.skip(i as int), i + 1) {
                Some(rest) => tracks_of(arr@, 1) == Some(out.deep_view() + rest),
                None => tracks_of(arr@, 1) is None,
            },
        decreases arr@.len() - i,
    {
        proof {
            assert(arr@.skip(i as int).drop_first() =~= arr@.skip(i + 1 as int));
            assert(arr@.skip(i as int)[0] == arr@[i as int]);
        }
        if i == 0x7fff_ffff {
            return None;
        }
        let t = match Track::from_json(&arr[i], (i + 1) as i32) {
            Some(t) => t,
            None => {
                return None;
            },
        };
        out.push(t);
        proof {
            if tracks_of(arr@.skip(i + 1 as int), i + 2) is Some {
                assert(out.deep_view() + tracks_of(arr@.skip(i + 1 as int), i + 2)->0
                    =~= out.deep_view().drop_last() + (seq![out.deep_view().last()] + tracks_of(
                    arr@.skip(i + 1 as int),
                    i + 2,
                )->0));
            }
        }
        i = i + 1;
    }
    proof {
        assert(arr@.skip(arr@.len() as int) =~= Seq::<JsonValue>::empty());
        assert(out.deep_view() + Seq::<TrackModel>::empty() =~= out.deep_view());
    }
    Some(Some(out))
}

fn decode_year(json: &JsonValue) -> (r: Option<Option<i16>>)
    ensures
        match r {
            Some(v) => year_of(*json) == Some(
                match v {
                    Some(y) => Some(y as int),
                    None => None,
                },
            ),
            None => year_of(*json) is None,
        },
{
    match json.str_field("year") {
        Some(y) => match parse_i16(y.as_str()) {
            Some(v) => Some(Some(v)),
            None => None,
        },
        None => match json.int_field("year") {
            Some(v) => Some(Some(#[verifier::truncate] (v as i16))),
            None => Some(None),
        },
    }
}

fn decode_art_url(json: &JsonValue) -> (r: Option<Option<String>>)
    ensures
        match r {
            Some(v) => art_url_of(*json) == Some(v.deep_view()),
            None => art_url_of(*json) is None,
        },
{
    match json.str_field("cover_image") {
        Some(u) => Some(Some(u.clone())),
        None => match json.arr_field("images") {
            Some(a) => if a.len() == 0 {
                Some(None)
            } else {
                match a[0].str_field("uri") {
                    Some(u) => Some(Some(u.clone())),
                    None => None,
                }
            },
            None => Some(None),
        },
    }
}

impl SearchResults {
    /// Splits a search response into its release and master hits, dropping
    /// malformed entries; `None` when the response has no results array.
    pub fn from_json(json: &JsonValue) -> (r: Option<SearchResults>)
        ensures
            match r {
                Some(sr) => search_from_json_spec(*json) == Some(sr@),
                None => search_from_json_spec(*json) is None,
            },
    {
        let results = match json.arr_field("results") {
            Some(a) => a,
            None => {
                return None;
            },
        };
        let mut releases: Vec<ReleaseMaster> = Vec::new();
        let mut masters: Vec<ReleaseMaster> = Vec::new();
        let mut i: usize = 0;
        proof {
            assert(results@.skip(0) =~= results@);
        }
        while i < results.len()
            invariant
                i <= results@.len(),
                releases.deep_view() + search_lists(results@.skip(i as int)).0 == search_lists(
                    results@,
                ).0,
                masters.deep_view() + search_lists(results@.skip(i as int)).1 == search_lists(
                    results@,
                ).1,
            decreases results@.len() - i,
        {
            proof {
                assert(results@.skip(i as int).drop_first() =~= results@.skip(i + 1 as int));
                assert(results@.skip(i as int)[0] == results@[i as int]);
            }
            let entry = &results[i];
            let is_release = match entry.str_field("type") {
                Some(t) => crate::text::str_eq(t.as_str(), "release"),
                None => false,
            };
            let is_master = match entry.str_field("type") {
                Some(t) => crate::text::str_eq(t.as_str(), "master"),
                None => false,
            };
            if is_release {
                match ReleaseMaster::from_json(entry, ReleaseType::Release, None) {
                    Some(rm) => {
                        releases.push(rm);
                        proof {
                            lemma_snoc_head(releases.deep_view(), search_lists(results@.skip(i + 1 as int)).0);
                        }
                    },
                    None => {},
                }
            }
            if is_master {
                match ReleaseMaster::from_json(entry, ReleaseType::Master, None) {
                    Some(rm) => {
                        masters.push(rm);
                        proof {
                            lemma_snoc_head(masters.deep_view(), search_lists(results@.skip(i + 1 as int)).1);
                        }
                    },
                    None => {},
                }
            }
            i = i + 1;
        }
        proof {
            assert(results@.skip(results@.len() as int) =~= Seq::<JsonValue>::empty());
            assert(releases.deep_view() + Seq::<ReleaseModel>::empty() =~= releases.deep_view());
            assert(masters.deep_view() + Seq::<ReleaseModel>::empty() =~= masters.deep_view());
        }
        Some(SearchResults { releases, masters })
    }
}

/// Splitting the last element off the left list and prepending it to the
/// right one keeps the concatenation.
proof fn lemma_snoc_head<A>(s: Seq<A>, rest: Seq<A>)
    requires
        s.len() > 0,
    ensures
        s + rest =~= s.drop_last() + (seq![s.last()] + rest),
{
}

} // verus!
