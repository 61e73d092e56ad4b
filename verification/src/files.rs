//! Local file metadata: the values the discovery step hands to the matcher
//! and the writer, built from raw tag fields that the I/O layer reads out of
//! a file's tag container.

use vstd::prelude::*;
use vstd::string::StringExecFns;
use crate::text::{chars_of, chars_range, lower_chars, lower_seq, string_from_chars};

verus! {

#[derive(Debug, Clone, Copy, PartialEq, Eq, Structural)]
pub enum MusicFileType {
    AIFF,
    MP3,
    FLAC,
}

#[derive(Debug, Clone)]
pub struct MusicFileInfo {
    pub path: String,
    pub title: String,
    pub artists: Vec<String>,
    pub tag: MusicFileType,
}

pub ghost struct InfoModel {
    pub path: Seq<char>,
    pub title: Seq<char>,
    pub artists: Seq<Seq<char>>,
    pub tag: MusicFileType,
}

impl View for MusicFileInfo {
    type V = InfoModel;

    open spec fn view(&self) -> InfoModel {
        InfoModel {
            path: self.path@,
            title: self.title@,
            artists: self.artists.deep_view(),
            tag: self.tag,
        }
    }
}

/// Why a file's raw tag fields could not be turned into file metadata.
#[derive(Debug, Clone, Copy, PartialEq, Eq, Structural)]
pub enum InfoError {
    /// A FLAC file carrying ID3 tags; unsupported on purpose.
    FlacWithId3,
    /// The file does not begin with the FLAC marker.
    NotFlac,
    /// A FLAC file without a Vorbis comment block.
    MissingComments,
    MissingTitle,
    MissingArtist,
    /// The raw tag variant does not belong to the path's format.
    WrongContainer,
}

/// The raw fields the I/O layer reads from a file before the library builds
/// its metadata: ID3-family text frames, or FLAC header bytes and Vorbis
/// comment lists.
#[derive(Debug)]
pub enum RawTag {
    Id3 { title: Option<String>, artist: Option<String> },
    Flac {
        header: Vec<u8>,
        has_comments: bool,
        title: Option<Vec<String>>,
        artist: Option<Vec<String>>,
    },
}

pub open spec fn has_suffix(s: Seq<char>, suf: Seq<char>) -> bool {
    s.len() >= suf.len() && s.skip(s.len() - suf.len()) == suf
}

/// A path with a ".flac" extension, case-insensitively.
pub open spec fn flac_path(path: Seq<char>) -> bool {
    has_suffix(lower_seq(path), seq!['.', 'f', 'l', 'a', 'c'])
}

/// A path with a ".aif" or ".aiff" extension, case-sensitively, as the
/// ID3-family loader distinguishes the two containers.
pub open spec fn aiff_path(path: Seq<char>) -> bool {
    has_suffix(path, seq!['.', 'a', 'i', 'f']) || has_suffix(path, seq!['.', 'a', 'i', 'f', 'f'])
}

pub open spec fn id3_header(h: Seq<u8>) -> bool {
    h.len() >= 3 && h[0] == 73 && h[1] == 68 && h[2] == 51
}

pub open spec fn flac_header(h: Seq<u8>) -> bool {
    h.len() == 4 && h[0] == 102 && h[1] == 76 && h[2] == 97 && h[3] == 67
}

/// Smallest index at or after `from` holding `c`.
pub open spec fn first_index_of(s: Seq<char>, c: char, from: int) -> Option<int>
    decreases s.len() - from when 0 <= from <= s.len()
{
    if from >= s.len() {
        None
    } else if s[from] == c {
        Some(from)
    } else {
        first_index_of(s, c, from + 1)
    }
}

pub open spec fn contains_char(s: Seq<char>, c: char) -> bool {
    exists|i: int| 0 <= i < s.len() && s[i] == c
}

/// The pieces of `s` split on every occurrence of `sep`, empty pieces kept;
/// scanning stands at `i`, the current piece began at `start`.
pub open spec fn split_on_from(s: Seq<char>, sep: char, start: int, i: int) -> Seq<Seq<char>>
    decreases s.len() - i when 0 <= start <= i <= s.len()
{
    if i >= s.len() {
        seq![s.subrange(start, s.len() as int)]
    } else if s[i] == sep {
        seq![s.subrange(start, i)] + split_on_from(s, sep, i + 1, i + 1)
    } else {
        split_on_from(s, sep, start, i + 1)
    }
}

pub open spec fn split_on(s: Seq<char>, sep: char) -> Seq<Seq<char>> {
    split_on_from(s, sep, 0, 0)
}

/// How a single artist tag string is split into artist names: on semicolons
/// if any, else on commas, else on slashes, else kept whole.
pub open spec fn parse_artist_spec(s: Seq<char>) -> Seq<Seq<char>> {
    if contains_char(s, ';') {
        split_on(s, ';')
    } else if contains_char(s, ',') {
        split_on(s, ',')
    } else if contains_char(s, '/') {
        split_on(s, '/')
    } else {
        seq![s]
    }
}

/// What building file metadata from a path and raw tag fields yields,
/// including which error comes on which input.
pub open spec fn load_info_spec(path: Seq<char>, raw: RawTag) -> Result<InfoModel, InfoError> {
    if flac_path(path) {
        match raw {
            RawTag::Flac { header, has_comments, title, artist } => {
                if id3_header(header@) {
                    Err(InfoError::FlacWithId3)
                } else if !flac_header(header@) {
                    Err(InfoError::NotFlac)
                } else if !has_comments {
                    Err(InfoError::MissingComments)
                } else {
                    match artist {
                        Some(artists) => {
                            if artists.len() == 0 {
                                Err(InfoError::MissingArtist)
                            } else {
                                let names = if artists.len() == 1 {
                                    parse_artist_spec(artists[0]@)
                                } else {
                                    artists.deep_view()
                                };
                                match title {
                                    Some(titles) => if titles.len() == 0 {
                                        Err(InfoError::MissingTitle)
                                    } else {
                                        Ok(
                                            InfoModel {
                                                path,
                                                title: titles[0]@,
                                                artists: names,
                                                tag: MusicFileType::FLAC,
                                            },
                                        )
                                    },
                                    None => Err(InfoError::MissingTitle),
                                }
                            }
                        },
                        None => Err(InfoError::MissingArtist),
                    }
                }
            },
            _ => Err(InfoError::WrongContainer),
        }
    } else {
        match raw {
            RawTag::Id3 { title, artist } => {
                match title {
                    Some(t) => match artist {
                        Some(a) => Ok(
                            InfoModel {
                                path,
                                title: t@,
                                artists: parse_artist_spec(a@),
                                tag: if aiff_path(path) {
                                    MusicFileType::AIFF
                                } else {
                                    MusicFileType::MP3
                                },
                            },
                        ),
                        None => Err(InfoError::MissingArtist),
                    },
                    None => Err(InfoError::MissingTitle),
                }
            },
            _ => Err(InfoError::WrongContainer),
        }
    }
}

fn find_char(v: &Vec<char>, c: char, from: usize) -> (r: Option<usize>)
    requires
        from <= v@.len(),
    ensures
        match r {
            Some(i) => first_index_of(v@, c, from as int) == Some(i as int),
            None => first_index_of(v@, c, from as int) is None,
        },
    decreases v@.len() - from,
{
    if from >= v.len() {
        None
    } else if v[from] == c {
        Some(from)
    } else {
        find_char(v, c, from + 1)
    }
}

proof fn lemma_contains_iff_found(s: Seq<char>, c: char, from: int)
    requires
        0 <= from <= s.len(),
    ensures
        first_index_of(s, c, from) is Some <==> exists|i: int| from <= i < s.len() && s[i] == c,
    decreases s.len() - from,
{
    if from >= s.len() {
    } else if s[from] == c {
    } else {
        lemma_contains_iff_found(s, c, from + 1);
    }
}

fn split_push(v: &Vec<char>, sep: char, start: usize, i: usize, out: &mut Vec<String>)
    requires
        start <= i <= v@.len(),
    ensures
        final(out).deep_view() == old(out).deep_view() + split_on_from(
            v@,
            sep,
            start as int,
            i as int,
        ),
    decreases v@.len() - i,
{
    if i >= v.len() {
        let piece = chars_range(v, start, v.len());
        out.push(string_from_chars(&piece));
        proof {
            assert(final(out).deep_view() =~= old(out).deep_view() + split_on_from(
                v@,
                sep,
                start as int,
                i as int,
            ));
        }
    } else if v[i] == sep {
        let piece = chars_range(v, start, i);
        out.push(string_from_chars(&piece));
        split_push(v, sep, i + 1, i + 1, out);
        proof {
            assert(final(out).deep_view() =~= old(out).deep_view() + split_on_from(
                v@,
                sep,
                start as int,
                i as int,
            ));
        }
    } else {
        split_push(v, sep, start, i + 1, out);
    }
}

fn split_string(v: &Vec<char>, sep: char) -> (r: Vec<String>)
    ensures
        r.deep_view() == split_on(v@, sep),
{
    let mut out: Vec<String> = Vec::new();
    split_push(v, sep, 0, 0, &mut out);
    proof {
        assert(out.deep_view() =~= split_on(v@, sep));
    }
    out
}

/// Splits a raw artist tag string on the first separator family it holds:
/// semicolons, else commas, else slashes, else none.
pub fn parse_artist_tag(src: &str) -> (r: Vec<String>)
    ensures
        r.deep_view() == parse_artist_spec(src@),
{
    let v = chars_of(src);
    proof {
        lemma_contains_iff_found(v@, ';', 0);
        lemma_contains_iff_found(v@, ',', 0);
        lemma_contains_iff_found(v@, '/', 0);
    }
    if find_char(&v, ';', 0).is_some() {
        split_string(&v, ';')
    } else if find_char(&v, ',', 0).is_some() {
        split_string(&v, ',')
    } else if find_char(&v, '/', 0).is_some() {
        split_string(&v, '/')
    } else {
        let mut out: Vec<String> = Vec::new();
        out.push(string_from_chars(&v));
        proof {
            assert(out.deep_view() =~= seq![src@]);
        }
        out
    }
}

fn path_is_flac(path: &str) -> (r: bool)
    ensures
        r == flac_path(path@),
{
    let v = chars_of(path);
    let low = lower_chars(&v);
    let n = low.len();
    if n < 5 {
        return false;
    }
    let hit = low[n - 5] == '.' && low[n - 4] == 'f' && low[n - 3] == 'l' && low[n - 2] == 'a'
        && low[n - 1] == 'c';
    proof {
        if hit {
            assert(lower_seq(path@).skip(n - 5) =~= seq!['.', 'f', 'l', 'a', 'c']);
        }
    }
    hit
}

fn path_is_aiff(path: &str) -> (r: bool)
    ensures
        r == aiff_path(path@),
{
    let v = chars_of(path);
    let n = v.len();
    let aif = n >= 4 && v[n - 4] == '.' && v[n - 3] == 'a' && v[n - 2] == 'i' && v[n - 1] == 'f';
    let aiff = n >= 5 && v[n - 5] == '.' && v[n - 4] == 'a' && v[n - 3] == 'i' && v[n - 2] == 'f'
        && v[n - 1] == 'f';
    proof {
        if aif {
            assert(path@.skip(n - 4) =~= seq!['.', 'a', 'i', 'f']);
        }
        if aiff {
            assert(path@.skip(n - 5) =~= seq!['.', 'a', 'i', 'f', 'f']);
        }
    }
    aif || aiff
}

/// Builds the metadata for one local file from its path and the raw tag
/// fields read from it; the path's extension decides which tag family the
/// raw fields must come from.
pub fn load_file_info(path: &str, raw: RawTag) -> (r: Result<MusicFileInfo, InfoError>)
    ensures
        match r {
            Ok(info) => load_info_spec(path@, raw) == Ok::<InfoModel, InfoError>(info@),
            Err(e) => load_info_spec(path@, raw) == Err::<InfoModel, InfoError>(e),
        },
{
    if path_is_flac(path) {
        match raw {
            RawTag::Flac { header, has_comments, title, artist } => {
                if header.len() >= 3 && header[0] == 73 && header[1] == 68 && header[2] == 51 {
                    return Err(InfoError::FlacWithId3);
                }
                let is_flac = header.len() == 4 && header[0] == 102 && header[1] == 76
                    && header[2] == 97 && header[3] == 67;
                if !is_flac {
                    return Err(InfoError::NotFlac);
                }
                if !has_comments {
                    return Err(InfoError::MissingComments);
                }
                let artists = match artist {
                    Some(a) => a,
                    None => {
                        return Err(InfoError::MissingArtist);
                    },
                };
                if artists.len() == 0 {
                    return Err(InfoError::MissingArtist);
                }
                let names: Vec<String> = if artists.len() == 1 {
                    parse_artist_tag(artists[0].as_str())
                } else {
                    artists
                };
                let titles = match title {
                    Some(t) => t,
                    None => {
                        return Err(InfoError::MissingTitle);
                    },
                };
                if titles.len() == 0 {
                    return Err(InfoError::MissingTitle);
                }
                Ok(
                    MusicFileInfo {
                        path: String::from_str(path),
                        title: titles[0].clone(),
                        artists: names,
                        tag: MusicFileType::FLAC,
                    },
                )
            },
            _ => Err(InfoError::WrongContainer),
        }
    } else {
        match raw {
            RawTag::Id3 { title, artist } => {
                let t = match title {
                    Some(t) => t,
                    None => {
                        return Err(InfoError::MissingTitle);
                    },
                };
                let a = match artist {
                    Some(a) => a,
                    None => {
                        return Err(InfoError::MissingArtist);
                    },
                };
                let tag = if path_is_aiff(path) {
                    MusicFileType::AIFF
                } else {
                    MusicFileType::MP3
                };
                Ok(
                    MusicFileInfo {
                        path: String::from_str(path),
                        title: t,
                        artists: parse_artist_tag(a.as_str()),
                        tag,
                    },
                )
            },
            _ => Err(InfoError::WrongContainer),
        }
    }
}

} // verus!
