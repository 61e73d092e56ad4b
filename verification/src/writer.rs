//! The tag write policy: given a resolved record and track and a tagging
//! configuration, decides per field whether and what to write into a FLAC or
//! ID3-family tag, modelled as plain data that the I/O layer moves in and
//! out of the real containers.
//!
//! The rule for every field is: write if the field is enabled and either
//! overwrite is on or the field is currently absent — except title and
//! artist, which are written whenever enabled, since a resolved match is
//! treated as authoritative for them.

use vstd::prelude::*;
use crate::dates::parse_ymd;
use crate::discogs::Discogs;
use crate::files::{MusicFileInfo, MusicFileType};
use crate::normalize::clean_artist_spec;
use crate::numbers::{i64_to_string, int_str, push_two_digit, two_digit_str};
use crate::records::{clone_strings, ReleaseMaster, ReleaseModel, Track, TrackModel};
use crate::strlist::{cleaned_names, clean_artist_list, concat_strings, join_spec, join_strings, sort_spec, sort_strings};
use crate::text::string_from_chars;
use vstd::string::StringExecFns;

verus! {

/// Which fields to write and how to compose genres, for one batch run.
#[derive(Debug, Clone)]
pub struct TaggerConfig {
    pub title: bool,
    pub artist: bool,
    pub album: bool,
    pub label: bool,
    pub date: bool,
    pub track: bool,
    pub art: bool,
    /// ID3 genre composition: 0 none, 1 styles only, 2 genres only,
    /// 3 styles and genres merged.
    pub id3_genre: i8,
    /// FLAC genre composition: 0 none, 1 both fields separately, 2 styles
    /// into the genre field, 3 genres only, 4 merged into the genre field.
    pub flac_genre: i8,
    pub artist_separator: String,
    pub fuzziness: u8,
    pub overwrite: bool,
    pub id3v23: bool,
}

#[derive(Debug)]
pub struct TagPicture {
    pub front_cover: bool,
    pub mime: String,
    pub description: String,
    pub data: Vec<u8>,
}

pub ghost struct PicModel {
    pub front_cover: bool,
    pub mime: Seq<char>,
    pub description: Seq<char>,
    pub data: Seq<u8>,
}

impl View for TagPicture {
    type V = PicModel;

    open spec fn view(&self) -> PicModel {
        PicModel {
            front_cover: self.front_cover,
            mime: self.mime@,
            description: self.description@,
            data: self.data@,
        }
    }
}

impl DeepView for TagPicture {
    type V = PicModel;

    open spec fn deep_view(&self) -> PicModel {
        self.view()
    }
}

/// The comment fields and pictures of a FLAC tag that the writer touches;
/// comment fields are multi-valued.
#[derive(Debug)]
pub struct FlacTag {
    pub title: Option<Vec<String>>,
    pub album: Option<Vec<String>>,
    pub artist: Option<Vec<String>>,
    pub label: Option<Vec<String>>,
    pub date: Option<Vec<String>>,
    pub genre: Option<Vec<String>>,
    pub style: Option<Vec<String>>,
    pub track: Option<u32>,
    pub pictures: Vec<TagPicture>,
}

pub ghost struct FlacTagModel {
    pub title: Option<Seq<Seq<char>>>,
    pub album: Option<Seq<Seq<char>>>,
    pub artist: Option<Seq<Seq<char>>>,
    pub label: Option<Seq<Seq<char>>>,
    pub date: Option<Seq<Seq<char>>>,
    pub genre: Option<Seq<Seq<char>>>,
    pub style: Option<Seq<Seq<char>>>,
    pub track: Option<int>,
    pub pictures: Seq<PicModel>,
}

impl View for FlacTag {
    type V = FlacTagModel;

    open spec fn view(&self) -> FlacTagModel {
        FlacTagModel {
            title: self.title.deep_view(),
            album: self.album.deep_view(),
            artist: self.artist.deep_view(),
            label: self.label.deep_view(),
            date: self.date.deep_view(),
            genre: self.genre.deep_view(),
            style: self.style.deep_view(),
            track: match self.track {
                Some(t) => Some(t as int),
                None => None,
            },
            pictures: self.pictures.deep_view(),
        }
    }
}

/// A timestamp as the structured recorded-date frame holds it.
#[derive(Debug)]
pub struct Id3Timestamp {
    pub year: i32,
    pub month: Option<u8>,
    pub day: Option<u8>,
    pub hour: Option<u8>,
    pub minute: Option<u8>,
    pub second: Option<u8>,
}

pub ghost struct TsModel {
    pub year: int,
    pub month: Option<int>,
    pub day: Option<int>,
    pub hour: Option<int>,
    pub minute: Option<int>,
    pub second: Option<int>,
}

pub open spec fn opt_u8_int(o: Option<u8>) -> Option<int> {
    match o {
        Some(v) => Some(v as int),
        None => None,
    }
}

impl View for Id3Timestamp {
    type V = TsModel;

    open spec fn view(&self) -> TsModel {
        TsModel {
            year: self.year as int,
            month: opt_u8_int(self.month),
            day: opt_u8_int(self.day),
            hour: opt_u8_int(self.hour),
            minute: opt_u8_int(self.minute),
            second: opt_u8_int(self.second),
        }
    }
}

/// The frames of an ID3-family tag that the writer touches; single-valued
/// text frames, the structured recorded date, the two legacy date frames,
/// and pictures.
#[derive(Debug)]
pub struct Id3Tag {
    pub title: Option<String>,
    pub album: Option<String>,
    pub artist: Option<String>,
    pub publisher: Option<String>,
    pub date_recorded: Option<Id3Timestamp>,
    pub date_text: Option<String>,
    pub year_text: Option<String>,
    pub genre: Option<String>,
    pub track: Option<u32>,
    pub pictures: Vec<TagPicture>,
}

pub ghost struct Id3TagModel {
    pub title: Option<Seq<char>>,
    pub album: Option<Seq<char>>,
    pub artist: Option<Seq<char>>,
    pub publisher: Option<Seq<char>>,
    pub date_recorded: Option<TsModel>,
    pub date_text: Option<Seq<char>>,
    pub year_text: Option<Seq<char>>,
    pub genre: Option<Seq<char>>,
    pub track: Option<int>,
    pub pictures: Seq<PicModel>,
}

impl View for Id3Tag {
    type V = Id3TagModel;

    open spec fn view(&self) -> Id3TagModel {
        Id3TagModel {
            title: self.title.deep_view(),
            album: self.album.deep_view(),
            artist: self.artist.deep_view(),
            publisher: self.publisher.deep_view(),
            date_recorded: match self.date_recorded {
                Some(ts) => Some(ts@),
                None => None,
            },
            date_text: self.date_text.deep_view(),
            year_text: self.year_text.deep_view(),
            genre: self.genre.deep_view(),
            track: match self.track {
                Some(t) => Some(t as int),
                None => None,
            },
            pictures: self.pictures.deep_view(),
        }
    }
}

/// The artist names a resolved match carries: the track-level override when
/// present, else the record-level list.
pub open spec fn resolved_artists(track: TrackModel, release: ReleaseModel) -> Seq<Seq<char>> {
    match track.artists {
        Some(a) => a,
        None => release.artists->0,
    }
}

/// The track ordinal as a 32-bit tag number: two's-complement wrap of the
/// derived position.
pub open spec fn track_number_of(n: int) -> int {
    if n >= 0 {
        n
    } else {
        n + 0x1_0000_0000
    }
}

/// Write-if-absent policy for one field.
pub open spec fn maybe_write<T>(enabled: bool, overwrite: bool, old_v: Option<T>, new_v: T) -> Option<
    T,
> {
    if enabled && (overwrite || old_v is None) {
        Some(new_v)
    } else {
        old_v
    }
}

pub open spec fn without_front_covers(pics: Seq<PicModel>) -> Seq<PicModel>
    decreases pics.len(),
{
    if pics.len() == 0 {
        pics
    } else if pics[0].front_cover {
        without_front_covers(pics.drop_first())
    } else {
        seq![pics[0]] + without_front_covers(pics.drop_first())
    }
}

pub open spec fn front_cover_jpeg(desc: Seq<char>, data: Seq<u8>) -> PicModel {
    PicModel { front_cover: true, mime: "image/jpeg"@, description: desc, data }
}

/// Whether the writer reaches for cover art at all: art enabled, an art
/// address on the record, and either overwrite or no picture yet.
pub open spec fn art_condition(
    art_enabled: bool,
    overwrite: bool,
    art_url: Option<Seq<char>>,
    pics: Seq<PicModel>,
) -> bool {
    art_enabled && art_url is Some && (overwrite || pics.len() == 0)
}

/// The month and day of a day-precision released date: present only when
/// the record carries a full ten-character date naming a valid calendar day.
pub open spec fn date_md(released: Option<Seq<char>>) -> Option<(int, int)> {
    match released {
        Some(s) => match crate::dates::parse_ymd_spec(s) {
            Some(t) => Some((t.1, t.2)),
            None => None,
        },
        None => None,
    }
}

/// The FLAC tag after one write pass: each field by the write policy, the
/// pictures replaced only when art bytes arrived.
pub open spec fn flac_after_write(
    config: TaggerConfig,
    t: FlacTagModel,
    release: ReleaseModel,
    track: TrackModel,
    art: Option<Seq<u8>>,
) -> FlacTagModel {
    FlacTagModel {
        title: if config.title {
            Some(seq![track.title])
        } else {
            t.title
        },
        album: maybe_write(config.album, config.overwrite, t.album, seq![release.title]),
        artist: if config.artist {
            Some(cleaned_names(resolved_artists(track, release)))
        } else {
            t.artist
        },
        label: if config.label && release.label is Some && release.label->0.len() > 0 {
            maybe_write(true, config.overwrite, t.label, seq![clean_artist_spec(release.label->0[0])])
        } else {
            t.label
        },
        date: if config.date && (config.overwrite || t.date is None) {
            if release.released is Some {
                Some(seq![release.released->0])
            } else if release.year is Some {
                Some(seq![int_str(release.year->0)])
            } else {
                t.date
            }
        } else {
            t.date
        },
        genre: if config.flac_genre == 1 || config.flac_genre == 3 {
            maybe_write(true, config.overwrite, t.genre, sort_spec(release.genres))
        } else if config.flac_genre == 2 {
            maybe_write(true, config.overwrite, t.genre, sort_spec(release.styles))
        } else if config.flac_genre == 4 {
            maybe_write(true, config.overwrite, t.genre, sort_spec(release.genres + release.styles))
        } else {
            t.genre
        },
        style: if config.flac_genre == 1 {
            maybe_write(true, config.overwrite, t.style, sort_spec(release.styles))
        } else {
            t.style
        },
        track: maybe_write(config.track, config.overwrite, t.track, track_number_of(track.position_int)),
        pictures: match art {
            Some(d) => without_front_covers(t.pictures).push(front_cover_jpeg(Seq::empty(), d)),
            None => t.pictures,
        },
    }
}

/// The ID3 tag after one write pass.
pub open spec fn id3_after_write(
    config: TaggerConfig,
    t: Id3TagModel,
    release: ReleaseModel,
    track: TrackModel,
    art: Option<Seq<u8>>,
) -> Id3TagModel {
    let md = date_md(release.released);
    let dating = config.date && release.year is Some;
    let v24_fires = dating && !config.id3v23 && (config.overwrite || t.date_recorded is None);
    let tdat_fires = dating && config.id3v23 && (config.overwrite || t.date_text is None) && md is Some;
    let tyer_fires = dating && config.id3v23 && (config.overwrite || t.year_text is None);
    Id3TagModel {
        title: if config.title {
            Some(track.title)
        } else {
            t.title
        },
        album: maybe_write(config.album, config.overwrite, t.album, release.title),
        artist: if config.artist {
            Some(join_spec(cleaned_names(resolved_artists(track, release)), config.artist_separator@))
        } else {
            t.artist
        },
        publisher: if config.label && release.label is Some && release.label->0.len() > 0 {
            maybe_write(true, config.overwrite, t.publisher, clean_artist_spec(release.label->0[0]))
        } else {
            t.publisher
        },
        date_recorded: if v24_fires {
            Some(
                TsModel {
                    year: release.year->0,
                    month: match md {
                        Some(p) => Some(p.0),
                        None => None,
                    },
                    day: match md {
                        Some(p) => Some(p.1),
                        None => None,
                    },
                    hour: None,
                    minute: None,
                    second: None,
                },
            )
        } else if tdat_fires || tyer_fires {
            None
        } else {
            t.date_recorded
        },
        date_text: if v24_fires {
            None
        } else if tdat_fires {
            ({
                let p = md->0;
                Some(two_digit_str(p.1) + two_digit_str(p.0))
            })
        } else {
            t.date_text
        },
        year_text: if v24_fires {
            None
        } else if tyer_fires {
            Some(int_str(release.year->0))
        } else {
            t.year_text
        },
        genre: if config.id3_genre > 0 && (config.overwrite || t.genre is None) {
            if config.id3_genre == 1 {
                Some(join_spec(sort_spec(release.styles), seq![',', ' ']))
            } else if config.id3_genre == 2 {
                Some(join_spec(sort_spec(release.genres), seq![',', ' ']))
            } else if config.id3_genre == 3 {
                Some(join_spec(sort_spec(release.styles + release.genres), seq![',', ' ']))
            } else {
                t.genre
            }
        } else {
            t.genre
        },
        track: maybe_write(config.track, config.overwrite, t.track, track_number_of(track.position_int)),
        pictures: match art {
            Some(d) => without_front_covers(t.pictures).push(front_cover_jpeg("Cover"@, d)),
            None => t.pictures,
        },
    }
}

fn duplicate_picture(p: &TagPicture) -> (r: TagPicture)
    ensures
        r@ == p@,
{
    TagPicture {
        front_cover: p.front_cover,
        mime: p.mime.clone(),
        description: p.description.clone(),
        data: clone_bytes(&p.data),
    }
}

fn clone_bytes(v: &Vec<u8>) -> (r: Vec<u8>)
    ensures
        r@ == v@,
{
    let mut r: Vec<u8> = Vec::new();
    let mut i: usize = 0;
    while i < v.len()
        invariant
            i <= v@.len(),
            r@.len() == i,
            forall|k: int| 0 <= k < i ==> r@[k] == v@[k],
        decreases v@.len() - i,
    {
        r.push(v[i]);
        i = i + 1;
    }
    proof {
        assert(r@ =~= v@);
    }
    r
}

/// Replaces every existing front cover with one freshly fetched JPEG image,
/// leaving other pictures in place.
fn apply_front_cover(pics: &mut Vec<TagPicture>, description: &str, data: Vec<u8>)
    ensures
        final(pics).deep_view() == without_front_covers(old(pics).deep_view()).push(
            front_cover_jpeg(description@, data@),
        ),
{
    let mut out: Vec<TagPicture> = Vec::new();
    let mut i: usize = 0;
    proof {
        assert(pics.deep_view().skip(0) =~= pics.deep_view());
        assert(out.deep_view() + without_front_covers(pics.deep_view()) =~= without_front_covers(
            pics.deep_view(),
        ));
    }
    while i < pics.len()
        invariant
            i <= pics@.len(),
            out.deep_view() + without_front_covers(pics.deep_view().skip(i as int))
                == without_front_covers(pics.deep_view()),
        decreases pics@.len() - i,
    {
        proof {
            assert(pics.deep_view().skip(i as int).drop_first() =~= pics.deep_view().skip(
                i + 1 as int,
            ));
            assert(pics.deep_view().skip(i as int)[0] == pics.deep_view()[i as int]);
        }
        if !pics[i].front_cover {
            out.push(duplicate_picture(&pics[i]));
            proof {
                assert(out.deep_view() + without_front_covers(
                    pics.deep_view().skip(i + 1 as int),
                ) =~= without_front_covers(pics.deep_view()));
            }
        }
        i = i + 1;
    }
    proof {
        assert(pics.deep_view().skip(pics@.len() as int) =~= Seq::<PicModel>::empty());
        assert(out.deep_view() + Seq::<PicModel>::empty() =~= out.deep_view());
    }
    out.push(
        TagPicture {
            front_cover: true,
            mime: String::from_str("image/jpeg"),
            description: String::from_str(description),
            data,
        },
    );
    *pics = out;
    proof {
        assert(pics.deep_view() =~= without_front_covers(old(pics).deep_view()).push(
            front_cover_jpeg(description@, data@),
        ));
    }
}

/// Fetches cover art when the policy calls for it and replaces the front
/// cover on success; a failed fetch is reported and leaves the pictures
/// alone.
fn apply_art(
    discogs: &mut Discogs,
    enabled: bool,
    overwrite: bool,
    art_url: &Option<String>,
    pics: &mut Vec<TagPicture>,
    description: &str,
) -> (art_failed: bool)
    requires
        old(discogs).wf(),
    ensures
        final(discogs).wf(),
        Discogs::same_settings(*old(discogs), *final(discogs)),
        final(discogs).spec_cache() == old(discogs).spec_cache(),
        art_condition(enabled, overwrite, art_url.deep_view(), old(pics).deep_view()) ==> (
        if art_failed {
            final(pics).deep_view() == old(pics).deep_view()
        } else {
            exists|d: Seq<u8>|
                final(pics).deep_view() == without_front_covers(old(pics).deep_view()).push(
                    front_cover_jpeg(description@, d),
                )
        }),
        !art_condition(enabled, overwrite, art_url.deep_view(), old(pics).deep_view()) ==> (
        !art_failed && final(pics).deep_view() == old(pics).deep_view()),
{
    let mut art_failed = false;
    if enabled && art_url.is_some() && (overwrite || pics.len() == 0) {
        let url = match art_url {
            Some(u) => u.clone(),
            None => String::new(),
        };
        match discogs.download_art(url.as_str()) {
            Ok(data) => {
                let ghost d = data@;
                apply_front_cover(pics, description, data);
                proof {
                    assert(pics.deep_view() == without_front_covers(old(pics).deep_view()).push(
                        front_cover_jpeg(description@, d),
                    ));
                }
            },
            Err(_) => {
                art_failed = true;
            },
        }
    }
    art_failed
}

fn single_string(s: String) -> (r: Vec<String>)
    ensures
        r.deep_view() == seq![s@],
{
    let mut r: Vec<String> = Vec::new();
    r.push(s);
    proof {
        assert(r.deep_view() =~= seq![s@]);
    }
    r
}

/// The artist names to write, cleaned: track override first, else the
/// record's list.
fn resolve_clean_artists(track: &Track, release: &ReleaseMaster) -> (r: Vec<String>)
    requires
        track@.artists is Some || release@.artists is Some,
    ensures
        r.deep_view() == cleaned_names(resolved_artists(track@, release@)),
{
    match &track.artists {
        Some(a) => clean_artist_list(a),
        None => match &release.artists {
            Some(a) => clean_artist_list(a),
            None => {
                // unreachable under the precondition
                proof {
                    assert(false);
                }
                Vec::new()
            },
        },
    }
}

fn track_number_exec(n: i32) -> (r: u32)
    ensures
        r as int == track_number_of(n as int),
{
    if n >= 0 {
        n as u32
    } else {
        ((n as i64) + 0x1_0000_0000i64) as u32
    }
}

/// Writes the resolved metadata into a FLAC tag model by the per-field
/// policy; cover art is fetched through the client when called for, and a
/// failed art fetch is reported without touching the pictures or failing
/// the rest.
#[verifier::rlimit(100)]
pub fn write_flac_tag(
    discogs: &mut Discogs,
    config: &TaggerConfig,
    tag: &mut FlacTag,
    release: &ReleaseMaster,
    track: &Track,
) -> (art_failed: bool)
    requires
        old(discogs).wf(),
        config.artist ==> track@.artists is Some || release@.artists is Some,
    ensures
        final(discogs).wf(),
        Discogs::same_settings(*old(discogs), *final(discogs)),
        final(discogs).spec_cache() == old(discogs).spec_cache(),
        art_condition(config.art, config.overwrite, release@.art_url, old(tag)@.pictures) ==> (
        if art_failed {
            final(tag)@ == flac_after_write(*config, old(tag)@, release@, track@, None)
        } else {
            exists|d: Seq<u8>|
                final(tag)@ == flac_after_write(*config, old(tag)@, release@, track@, Some(d))
        }),
        !art_condition(config.art, config.overwrite, release@.art_url, old(tag)@.pictures) ==> (
        !art_failed && final(tag)@ == flac_after_write(*config, old(tag)@, release@, track@, None)),
{
    let ghost t0 = tag@;
    if config.title {
        tag.title = Some(single_string(track.title.clone()));
    }
    if config.album && (config.overwrite || tag.album.is_none()) {
        tag.album = Some(single_string(release.title.clone()));
    }
    if config.artist {
        tag.artist = Some(resolve_clean_artists(track, release));
    }
    let has_label = match &release.label {
        Some(l) => l.len() > 0,
        None => false,
    };
    if config.label && has_label && (config.overwrite || tag.label.is_none()) {
        let first = match &release.label {
            Some(l) => crate::normalize::clean_discogs_artist(l[0].as_str()),
            None => String::new(),
        };
        tag.label = Some(single_string(first));
    }
    if config.date && (config.overwrite || tag.date.is_none()) {
        match &release.released {
            Some(r) => {
                tag.date = Some(single_string(r.clone()));
            },
            None => {
                match release.year {
                    Some(y) => {
                        tag.date = Some(single_string(i64_to_string(y as i64)));
                    },
                    None => {},
                }
            },
        }
    }
    if config.flac_genre == 1 || config.flac_genre == 3 {
        if config.overwrite || tag.genre.is_none() {
            tag.genre = Some(sort_strings(&release.genres));
        }
    } else if config.flac_genre == 2 {
        if config.overwrite || tag.genre.is_none() {
            tag.genre = Some(sort_strings(&release.styles));
        }
    } else if config.flac_genre == 4 {
        if config.overwrite || tag.genre.is_none() {
            let merged = concat_strings(&release.genres, &release.styles);
            tag.genre = Some(sort_strings(&merged));
        }
    }
    if config.flac_genre == 1 {
        if config.overwrite || tag.style.is_none() {
            tag.style = Some(sort_strings(&release.styles));
        }
    }
    if config.track && (config.overwrite || tag.track.is_none()) {
        tag.track = Some(track_number_exec(track.position_int));
    }
    let art_failed = apply_art(
        discogs,
        config.art,
        config.overwrite,
        &release.art_url,
        &mut tag.pictures,
        "",
    );
    proof {
        reveal_strlit("");
        assert(("")@ =~= Seq::<char>::empty());
        if art_condition(config.art, config.overwrite, release@.art_url, t0.pictures)
            && !art_failed {
            let d = choose|d: Seq<u8>|
                tag@.pictures == without_front_covers(t0.pictures).push(
                    front_cover_jpeg(Seq::empty(), d),
                );
            let expect = flac_after_write(*config, t0, release@, track@, Some(d));
            assert(tag@.title == expect.title);
            assert(tag@.album == expect.album);
            assert(tag@.artist == expect.artist);
            assert(tag@.label == expect.label);
            assert(tag@.date == expect.date);
            assert(tag@.genre == expect.genre);
            assert(tag@.style == expect.style);
            assert(tag@.track == expect.track);
            assert(tag@.pictures == expect.pictures);
            assert(tag@ == expect);
        } else {
            let expect = flac_after_write(*config, t0, release@, track@, None);
            assert(tag@.title == expect.title);
            assert(tag@.album == expect.album);
            assert(tag@.artist == expect.artist);
            assert(tag@.label == expect.label);
            assert(tag@.date == expect.date);
            assert(tag@.genre == expect.genre);
            assert(tag@.style == expect.style);
            assert(tag@.track == expect.track);
            assert(tag@.pictures == expect.pictures);
            assert(tag@ == expect);
        }
    }
    art_failed
}

/// Writes the resolved metadata into an ID3-family tag model by the
/// per-field policy, honoring the legacy date-compatibility mode; a failed
/// art fetch is reported without touching the pictures or failing the rest.
#[verifier::rlimit(100)]
pub fn write_id3_tag(
    discogs: &mut Discogs,
    config: &TaggerConfig,
    tag: &mut Id3Tag,
    release: &ReleaseMaster,
    track: &Track,
) -> (art_failed: bool)
    requires
        old(discogs).wf(),
        config.artist ==> track@.artists is Some || release@.artists is Some,
    ensures
        final(discogs).wf(),
        Discogs::same_settings(*old(discogs), *final(discogs)),
        final(discogs).spec_cache() == old(discogs).spec_cache(),
        art_condition(config.art, config.overwrite, release@.art_url, old(tag)@.pictures) ==> (
        if art_failed {
            final(tag)@ == id3_after_write(*config, old(tag)@, release@, track@, None)
        } else {
            exists|d: Seq<u8>|
                final(tag)@ == id3_after_write(*config, old(tag)@, release@, track@, Some(d))
        }),
        !art_condition(config.art, config.overwrite, release@.art_url, old(tag)@.pictures) ==> (
        !art_failed && final(tag)@ == id3_after_write(*config, old(tag)@, release@, track@, None)),
{
    let ghost t0 = tag@;
    if config.title {
        tag.title = Some(track.title.clone());
    }
    if config.album && (config.overwrite || tag.album.is_none()) {
        tag.album = Some(release.title.clone());
    }
    if config.artist {
        let names = resolve_clean_artists(track, release);
        tag.artist = Some(join_strings(&names, config.artist_separator.as_str()));
    }
    let has_label = match &release.label {
        Some(l) => l.len() > 0,
        None => false,
    };
    if config.label && has_label && (config.overwrite || tag.publisher.is_none()) {
        let first = match &release.label {
            Some(l) => crate::normalize::clean_discogs_artist(l[0].as_str()),
            None => String::new(),
        };
        tag.publisher = Some(first);
    }
    let has_year = release.year.is_some();
    if config.date && has_year {
        let year: i16 = match release.year {
            Some(y) => y,
            None => 0,
        };
        let md: Option<(u8, u8)> = match &release.released {
            Some(r) => match parse_ymd(r.as_str()) {
                Some(t) => Some((t.1, t.2)),
                None => None,
            },
            None => None,
        };
        proof {
            assert(md_view(md) == date_md(release@.released));
        }
        apply_id3_dates(tag, config.overwrite, config.id3v23, year, md);
    }
    apply_id3_genre(tag, config.id3_genre, config.overwrite, release);
    if config.track && (config.overwrite || tag.track.is_none()) {
        tag.track = Some(track_number_exec(track.position_int));
    }
    let art_failed = apply_art(
        discogs,
        config.art,
        config.overwrite,
        &release.art_url,
        &mut tag.pictures,
        "Cover",
    );
    proof {
        reveal_strlit(", ");
        assert((", ")@ =~= seq![',', ' ']);
        if art_condition(config.art, config.overwrite, release@.art_url, t0.pictures)
            && !art_failed {
            let d = choose|d: Seq<u8>|
                tag@.pictures == without_front_covers(t0.pictures).push(
                    front_cover_jpeg("Cover"@, d),
                );
            let expect = id3_after_write(*config, t0, release@, track@, Some(d));
            assert(tag@.title == expect.title);
            assert(tag@.album == expect.album);
            assert(tag@.artist == expect.artist);
            assert(tag@.publisher == expect.publisher);
            assert(tag@.date_recorded == expect.date_recorded);
            assert(tag@.date_text == expect.date_text);
            assert(tag@.year_text == expect.year_text);
            assert(tag@.genre == expect.genre);
            assert(tag@.track == expect.track);
            assert(tag@.pictures == expect.pictures);
            assert(tag@ == expect);
        } else {
            let expect = id3_after_write(*config, t0, release@, track@, None);
            assert(tag@.title == expect.title);
            assert(tag@.album == expect.album);
            assert(tag@.artist == expect.artist);
            assert(tag@.publisher == expect.publisher);
            assert(tag@.date_recorded == expect.date_recorded);
            assert(tag@.date_text == expect.date_text);
            assert(tag@.year_text == expect.year_text);
            assert(tag@.genre == expect.genre);
            assert(tag@.track == expect.track);
            assert(tag@.pictures == expect.pictures);
            assert(tag@ == expect);
        }
    }
    art_failed
}

pub open spec fn md_view(md: Option<(u8, u8)>) -> Option<(int, int)> {
    match md {
        Some(p) => Some((p.0 as int, p.1 as int)),
        None => None,
    }
}

/// Applies the date policy to the three date frames: the structured
/// recorded date in the modern mode, the legacy day-month and year text
/// frames in the compatibility mode, each removing the other representation
/// when it fires.
fn apply_id3_dates(tag: &mut Id3Tag, overwrite: bool, id3v23: bool, year: i16, md: Option<(u8, u8)>)
    ensures
        ({
            let v24_fires = !id3v23 && (overwrite || old(tag)@.date_recorded is None);
            let tdat_fires = id3v23 && (overwrite || old(tag)@.date_text is None) && md is Some;
            let tyer_fires = id3v23 && (overwrite || old(tag)@.year_text is None);
            &&& final(tag)@.date_recorded == (if v24_fires {
                Some(
                    TsModel {
                        year: year as int,
                        month: match md_view(md) {
                            Some(p) => Some(p.0),
                            None => None,
                        },
                        day: match md_view(md) {
                            Some(p) => Some(p.1),
                            None => None,
                        },
                        hour: None,
                        minute: None,
                        second: None,
                    },
                )
            } else if tdat_fires || tyer_fires {
                None
            } else {
                old(tag)@.date_recorded
            })
            &&& final(tag)@.date_text == (if v24_fires {
                None
            } else if tdat_fires {
                ({
                    let p = md_view(md)->0;
                    Some(two_digit_str(p.1) + two_digit_str(p.0))
                })
            } else {
                old(tag)@.date_text
            })
            &&& final(tag)@.year_text == (if v24_fires {
                None
            } else if tyer_fires {
                Some(int_str(year as int))
            } else {
                old(tag)@.year_text
            })
        }),
        final(tag).title == old(tag).title,
        final(tag).album == old(tag).album,
        final(tag).artist == old(tag).artist,
        final(tag).publisher == old(tag).publisher,
        final(tag).genre == old(tag).genre,
        final(tag).track == old(tag).track,
        final(tag).pictures == old(tag).pictures,
{
    if !id3v23 {
        if overwrite || tag.date_recorded.is_none() {
            tag.date_text = None;
            tag.year_text = None;
            tag.date_recorded = Some(
                Id3Timestamp {
                    year: year as i32,
                    month: match md {
                        Some(p) => Some(p.0),
                        None => None,
                    },
                    day: match md {
                        Some(p) => Some(p.1),
                        None => None,
                    },
                    hour: None,
                    minute: None,
                    second: None,
                },
            );
        }
    } else {
        if (overwrite || tag.date_text.is_none()) && md.is_some() {
            tag.date_recorded = None;
            let (m, d) = match md {
                Some(p) => p,
                None => (0, 0),
            };
            let mut s: Vec<char> = Vec::new();
            push_two_digit(d, &mut s);
            push_two_digit(m, &mut s);
            tag.date_text = Some(string_from_chars(&s));
        }
        if overwrite || tag.year_text.is_none() {
            tag.date_recorded = None;
            tag.year_text = Some(i64_to_string(year as i64));
        }
    }
}

/// Applies the genre composition mode to the single ID3 genre frame:
/// styles, genres, or their merge, sorted and joined with ", ".
fn apply_id3_genre(tag: &mut Id3Tag, id3_genre: i8, overwrite: bool, release: &ReleaseMaster)
    ensures
        final(tag)@.genre == (if id3_genre > 0 && (overwrite || old(tag)@.genre is None) {
            if id3_genre == 1 {
                Some(join_spec(sort_spec(release@.styles), seq![',', ' ']))
            } else if id3_genre == 2 {
                Some(join_spec(sort_spec(release@.genres), seq![',', ' ']))
            } else if id3_genre == 3 {
                Some(join_spec(sort_spec(release@.styles + release@.genres), seq![',', ' ']))
            } else {
                old(tag)@.genre
            }
        } else {
            old(tag)@.genre
        }),
        final(tag).title == old(tag).title,
        final(tag).album == old(tag).album,
        final(tag).artist == old(tag).artist,
        final(tag).publisher == old(tag).publisher,
        final(tag).date_recorded == old(tag).date_recorded,
        final(tag).date_text == old(tag).date_text,
        final(tag).year_text == old(tag).year_text,
        final(tag).track == old(tag).track,
        final(tag).pictures == old(tag).pictures,
{
    proof {
        reveal_strlit(", ");
        assert((", ")@ =~= seq![',', ' ']);
    }
    if id3_genre > 0 && (overwrite || tag.genre.is_none()) {
        if id3_genre == 1 {
            let sorted = sort_strings(&release.styles);
            tag.genre = Some(join_strings(&sorted, ", "));
        } else if id3_genre == 2 {
            let sorted = sort_strings(&release.genres);
            tag.genre = Some(join_strings(&sorted, ", "));
        } else if id3_genre == 3 {
            let merged = concat_strings(&release.styles, &release.genres);
            let sorted = sort_strings(&merged);
            tag.genre = Some(join_strings(&sorted, ", "));
        }
    }
}

/// A tag loaded from a file, in whichever of the two families the file
/// uses.
#[derive(Debug)]
pub enum TagFile {
    Flac(FlacTag),
    Id3(Id3Tag),
}

#[derive(Debug, Clone, Copy, PartialEq, Eq, Structural)]
pub enum WriteError {
    /// The loaded tag's family does not belong to the file's format.
    WrongContainer,
}

/// Writes the resolved metadata into whichever tag family the file uses;
/// `Ok` carries whether an attempted art fetch failed, which is reported
/// but fails nothing.
pub fn write_tag(
    discogs: &mut Discogs,
    config: &TaggerConfig,
    info: &MusicFileInfo,
    tag: &mut TagFile,
    release: &ReleaseMaster,
    track: &Track,
) -> (r: Result<bool, WriteError>)
    requires
        old(discogs).wf(),
        config.artist ==> track@.artists is Some || release@.artists is Some,
    ensures
        final(discogs).wf(),
        Discogs::same_settings(*old(discogs), *final(discogs)),
        match r {
            Ok(art_failed) => {
                &&& (info.tag == MusicFileType::FLAC ==> (*old(tag)) is Flac && (*final(tag)) is Flac
                    && (if art_failed {
                    (*final(tag))->Flac_0@ == flac_after_write(
                        *config,
                        (*old(tag))->Flac_0@,
                        release@,
                        track@,
                        None,
                    )
                } else {
                    exists|d: Option<Seq<u8>>|
                        (*final(tag))->Flac_0@ == flac_after_write(
                            *config,
                            (*old(tag))->Flac_0@,
                            release@,
                            track@,
                            d,
                        )
                }))
                &&& (info.tag != MusicFileType::FLAC ==> (*old(tag)) is Id3 && (*final(tag)) is Id3 && (
                if art_failed {
                    (*final(tag))->Id3_0@ == id3_after_write(
                        *config,
                        (*old(tag))->Id3_0@,
                        release@,
                        track@,
                        None,
                    )
                } else {
                    exists|d: Option<Seq<u8>>|
                        (*final(tag))->Id3_0@ == id3_after_write(
                            *config,
                            (*old(tag))->Id3_0@,
                            release@,
                            track@,
                            d,
                        )
                }))
            },
            Err(_) => *final(tag) == *old(tag) && final(discogs).spec_cache() == old(
                discogs,
            ).spec_cache(),
        },
        r is Err <==> (info.tag == MusicFileType::FLAC && (*old(tag)) is Id3) || (info.tag
            != MusicFileType::FLAC && (*old(tag)) is Flac),
{
    match info.tag {
        MusicFileType::FLAC => {
            match tag {
                TagFile::Flac(f) => {
                    let art_failed = write_flac_tag(discogs, config, f, release, track);
                    proof {
                        if !art_failed {
                            if art_condition(
                                config.art,
                                config.overwrite,
                                release@.art_url,
                                (*old(tag))->Flac_0@.pictures,
                            ) {
                            } else {
                                assert((*final(tag))->Flac_0@ == flac_after_write(
                                    *config,
                                    (*old(tag))->Flac_0@,
                                    release@,
                                    track@,
                                    None,
                                ));
                            }
                        }
                    }
                    Ok(art_failed)
                },
                TagFile::Id3(_) => Err(WriteError::WrongContainer),
            }
        },
        _ => {
            match tag {
                TagFile::Id3(f) => {
                    let art_failed = write_id3_tag(discogs, config, f, release, track);
                    proof {
                        if !art_failed {
                            if art_condition(
                                config.art,
                                config.overwrite,
                                release@.art_url,
                                (*old(tag))->Id3_0@.pictures,
                            ) {
                            } else {
                                assert((*final(tag))->Id3_0@ == id3_after_write(
                                    *config,
                                    (*old(tag))->Id3_0@,
                                    release@,
                                    track@,
                                    None,
                                ));
                            }
                        }
                    }
                    Ok(art_failed)
                },
                TagFile::Flac(_) => Err(WriteError::WrongContainer),
            }
        },
    }
}

/// Album write policy: with overwrite off, an album already in the file is
/// never rewritten; with overwrite on and the field enabled, the record
/// title is always written, whatever was there.
pub proof fn lemma_flac_album_policy(
    config: TaggerConfig,
    t: FlacTagModel,
    release: ReleaseModel,
    track: TrackModel,
    art: Option<Seq<u8>>,
)
    ensures
        !config.overwrite && t.album is Some ==> flac_after_write(
            config,
            t,
            release,
            track,
            art,
        ).album == t.album,
        config.album && config.overwrite ==> flac_after_write(config, t, release, track, art).album
            == Some(seq![release.title]),
{
}

/// Album write policy for the ID3 family, as for FLAC.
pub proof fn lemma_id3_album_policy(
    config: TaggerConfig,
    t: Id3TagModel,
    release: ReleaseModel,
    track: TrackModel,
    art: Option<Seq<u8>>,
)
    ensures
        !config.overwrite && t.album is Some ==> id3_after_write(
            config,
            t,
            release,
            track,
            art,
        ).album == t.album,
        config.album && config.overwrite ==> id3_after_write(config, t, release, track, art).album
            == Some(release.title),
{
}

/// Round trip for FLAC: with every field enabled and overwrite on, the
/// fields read back from the written tag are exactly the resolved values,
/// whatever the tag held before.
pub proof fn lemma_flac_round_trip(
    config: TaggerConfig,
    t: FlacTagModel,
    release: ReleaseModel,
    track: TrackModel,
    d: Seq<u8>,
)
    requires
        config.title,
        config.album,
        config.artist,
        config.label,
        config.date,
        config.track,
        config.overwrite,
        config.flac_genre == 1,
        release.label is Some && release.label->0.len() > 0,
        release.released is Some,
        track.artists is Some || release.artists is Some,
    ensures
        ({
            let a = flac_after_write(config, t, release, track, Some(d));
            &&& a.title == Some(seq![track.title])
            &&& a.album == Some(seq![release.title])
            &&& a.artist == Some(cleaned_names(resolved_artists(track, release)))
            &&& a.label == Some(seq![clean_artist_spec(release.label->0[0])])
            &&& a.date == Some(seq![release.released->0])
            &&& a.genre == Some(sort_spec(release.genres))
            &&& a.style == Some(sort_spec(release.styles))
            &&& a.track == Some(track_number_of(track.position_int))
            &&& a.pictures == without_front_covers(t.pictures).push(
                front_cover_jpeg(Seq::empty(), d),
            )
        }),
{
}

/// Round trip for the ID3 family with the structured date mode: every
/// enabled field reads back the resolved value.
pub proof fn lemma_id3_round_trip(
    config: TaggerConfig,
    t: Id3TagModel,
    release: ReleaseModel,
    track: TrackModel,
    d: Seq<u8>,
)
    requires
        config.title,
        config.album,
        config.artist,
        config.label,
        config.date,
        config.track,
        config.overwrite,
        !config.id3v23,
        config.id3_genre == 2,
        release.label is Some && release.label->0.len() > 0,
        release.year is Some,
        track.artists is Some || release.artists is Some,
    ensures
        ({
            let a = id3_after_write(config, t, release, track, Some(d));
            &&& a.title == Some(track.title)
            &&& a.album == Some(release.title)
            &&& a.artist == Some(
                join_spec(cleaned_names(resolved_artists(track, release)), config.artist_separator@),
            )
            &&& a.publisher == Some(clean_artist_spec(release.label->0[0]))
            &&& a.date_recorded is Some && a.date_recorded->0.year == release.year->0
            &&& a.date_text is None
            &&& a.year_text is None
            &&& a.genre == Some(join_spec(sort_spec(release.genres), seq![',', ' ']))
            &&& a.track == Some(track_number_of(track.position_int))
            &&& a.pictures == without_front_covers(t.pictures).push(front_cover_jpeg("Cover"@, d))
        }),
{
}

} // verus!
