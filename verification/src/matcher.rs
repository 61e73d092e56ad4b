//! The track matcher: picks the catalog track for a local file by exact
//! strict-normalized title equality first, and by fuzzy similarity against a
//! threshold second, over candidates fetched lazily from the catalog.

use vstd::prelude::*;
use crate::discogs::{ClientError, Discogs, detail_request, master_url_of, release_url_of, search_url_of, starts_with_seq};
use crate::files::MusicFileInfo;
use crate::levenshtein::{similarity, similarity_spec};
use crate::normalize::{normalize, normalize_spec};
use crate::records::{ReleaseMaster, ReleaseModel, ReleaseType, Track, TrackModel};
use crate::text::{chars_of, str_eq};
use vstd::string::StringExecFns;

verus! {

/// The strict-normalized form of a title, the only form titles are compared
/// in.
pub open spec fn strict_norm(s: Seq<char>) -> Seq<char> {
    normalize_spec(s, true)
}

/// An exact match: strict-normalized equality of the track and local titles.
pub open spec fn track_exact(t: TrackModel, local: Seq<char>) -> bool {
    strict_norm(t.title) == strict_norm(local)
}

/// A track's fuzzy score against the local title, 0 to 100.
pub open spec fn track_score(t: TrackModel, local: Seq<char>) -> int {
    similarity_spec(strict_norm(t.title), strict_norm(local))
}

pub open spec fn first_exact_from(tracks: Seq<TrackModel>, local: Seq<char>, i: int) -> Option<int>
    decreases tracks.len() - i when 0 <= i <= tracks.len()
{
    if i >= tracks.len() {
        None
    } else if track_exact(tracks[i], local) {
        Some(i)
    } else {
        first_exact_from(tracks, local, i + 1)
    }
}

/// The index of the best-scoring track, earliest among ties; scanning stands
/// at `i` with `best` the best index so far.
pub open spec fn best_index_from(tracks: Seq<TrackModel>, local: Seq<char>, i: int, best: int) -> int
    decreases tracks.len() - i when 0 <= i <= tracks.len()
{
    if i >= tracks.len() {
        best
    } else if track_score(tracks[i], local) > track_score(tracks[best], local) {
        best_index_from(tracks, local, i + 1, i)
    } else {
        best_index_from(tracks, local, i + 1, best)
    }
}

/// The matcher's decision on one tracklist: the first exact match if there
/// is one; else the first best-scoring track when its score reaches the
/// fuzziness threshold; else nothing.
pub open spec fn tracklist_choice(tracks: Seq<TrackModel>, local: Seq<char>, fuzziness: u8) -> Option<
    int,
> {
    match first_exact_from(tracks, local, 0) {
        Some(i) => Some(i),
        None => if tracks.len() > 0 {
            let b = best_index_from(tracks, local, 1, 0);
            if track_score(tracks[b], local) >= fuzziness {
                Some(b)
            } else {
                None
            }
        } else {
            None
        },
    }
}

proof fn lemma_first_exact_hit(tracks: Seq<TrackModel>, local: Seq<char>, k: int, i: int)
    requires
        0 <= k <= i < tracks.len(),
        track_exact(tracks[i], local),
        forall|j: int| k <= j < i ==> !track_exact(#[trigger] tracks[j], local),
    ensures
        first_exact_from(tracks, local, k) == Some(i),
    decreases i - k,
{
    if k < i {
        lemma_first_exact_hit(tracks, local, k + 1, i);
    }
}

proof fn lemma_no_exact(tracks: Seq<TrackModel>, local: Seq<char>, k: int)
    requires
        0 <= k <= tracks.len(),
        forall|j: int| k <= j < tracks.len() ==> !track_exact(#[trigger] tracks[j], local),
    ensures
        first_exact_from(tracks, local, k) is None,
    decreases tracks.len() - k,
{
    if k < tracks.len() {
        lemma_no_exact(tracks, local, k + 1);
    }
}

proof fn lemma_best_index_bounds(tracks: Seq<TrackModel>, local: Seq<char>, i: int, best: int)
    requires
        0 <= i <= tracks.len(),
        0 <= best < tracks.len(),
    ensures
        0 <= best_index_from(tracks, local, i, best) < tracks.len(),
    decreases tracks.len() - i,
{
    if i < tracks.len() {
        if track_score(tracks[i], local) > track_score(tracks[best], local) {
            lemma_best_index_bounds(tracks, local, i + 1, i);
        } else {
            lemma_best_index_bounds(tracks, local, i + 1, best);
        }
    }
}

/// Picks the matching track in one tracklist: the first exact
/// strict-normalized title match, else the first best-scoring track if it
/// reaches the threshold.
pub fn match_in_tracklist(tracks: &Vec<Track>, local_title: &str, fuzziness: u8) -> (r: Option<
    usize,
>)
    ensures
        match r {
            Some(i) => i < tracks@.len() && tracklist_choice(
                tracks.deep_view(),
                local_title@,
                fuzziness,
            ) == Some(i as int),
            None => tracklist_choice(tracks.deep_view(), local_title@, fuzziness) is None,
        },
{
    let local_strict = normalize(local_title, true);
    let local_chars = chars_of(local_strict.as_str());
    let n = tracks.len();
    let mut i: usize = 0;
    while i < n
        invariant
            i <= n,
            n == tracks@.len(),
            local_strict@ == strict_norm(local_title@),
            local_chars@ == local_strict@,
            forall|j: int|
                0 <= j < i ==> !track_exact(#[trigger] tracks.deep_view()[j], local_title@),
        decreases n - i,
    {
        let t_strict = normalize(tracks[i].title.as_str(), true);
        if str_eq(t_strict.as_str(), local_strict.as_str()) {
            proof {
                assert(track_exact(tracks.deep_view()[i as int], local_title@));
                lemma_first_exact_hit(tracks.deep_view(), local_title@, 0, i as int);
            }
            return Some(i);
        }
        i = i + 1;
    }
    proof {
        lemma_no_exact(tracks.deep_view(), local_title@, 0);
    }
    if n == 0 {
        return None;
    }
    let first_strict = normalize(tracks[0].title.as_str(), true);
    let mut best: usize = 0;
    let mut best_score: u8 = similarity(&chars_of(first_strict.as_str()), &local_chars);
    let mut i: usize = 1;
    while i < n
        invariant
            1 <= i <= n,
            n == tracks@.len(),
            best < n,
            local_strict@ == strict_norm(local_title@),
            local_chars@ == local_strict@,
            best_score == track_score(tracks.deep_view()[best as int], local_title@),
            best_index_from(tracks.deep_view(), local_title@, i as int, best as int)
                == best_index_from(tracks.deep_view(), local_title@, 1, 0),
        decreases n - i,
    {
        let t_strict = normalize(tracks[i].title.as_str(), true);
        let score = similarity(&chars_of(t_strict.as_str()), &local_chars);
        if score > best_score {
            best = i;
            best_score = score;
        }
        i = i + 1;
    }
    if best_score >= fuzziness {
        Some(best)
    } else {
        None
    }
}

/// What one fetched candidate contributes: the chosen track index of its
/// tracklist, if the fetch succeeded, the record has a tracklist, and the
/// matcher accepts a track in it.
pub open spec fn candidate_choice(cand: Option<ReleaseModel>, local: Seq<char>, fuzziness: u8) -> Option<
    int,
> {
    match cand {
        Some(rm) => match rm.tracks {
            Some(ts) => tracklist_choice(ts, local, fuzziness),
            None => None,
        },
        None => None,
    }
}

/// The matcher's decision over an ordered candidate list: the first
/// candidate that yields a track wins, and later candidates are never
/// consulted.
pub open spec fn select_spec(
    fetched: Seq<Option<ReleaseModel>>,
    local: Seq<char>,
    fuzziness: u8,
) -> Option<(int, int)>
    decreases fetched.len(),
{
    if fetched.len() == 0 {
        None
    } else {
        match candidate_choice(fetched[0], local, fuzziness) {
            Some(t) => Some((0int, t)),
            None => match select_spec(fetched.drop_first(), local, fuzziness) {
                Some(p) => Some((p.0 + 1, p.1)),
                None => None,
            },
        }
    }
}

proof fn lemma_select_bounds(fetched: Seq<Option<ReleaseModel>>, local: Seq<char>, fuzziness: u8)
    ensures
        select_spec(fetched, local, fuzziness) is Some ==> {
            let p = select_spec(fetched, local, fuzziness)->0;
            0 <= p.0 < fetched.len()
        },
    decreases fetched.len(),
{
    if fetched.len() > 0 {
        lemma_select_bounds(fetched.drop_first(), local, fuzziness);
    }
}

/// Picks the matching (candidate, track) pair from an ordered list of
/// fetched candidate records, first hit wins.
pub fn select_track(fetched: &Vec<Option<ReleaseMaster>>, local_title: &str, fuzziness: u8) -> (r:
    Option<(usize, usize)>)
    ensures
        match r {
            Some(p) => select_spec(fetched.deep_view(), local_title@, fuzziness) == Some(
                (p.0 as int, p.1 as int),
            ) && p.0 < fetched@.len(),
            None => select_spec(fetched.deep_view(), local_title@, fuzziness) is None,
        },
{
    let mut i: usize = 0;
    proof {
        assert(fetched.deep_view().skip(0) =~= fetched.deep_view());
        lemma_select_bounds(fetched.deep_view(), local_title@, fuzziness);
    }
    while i < fetched.len()
        invariant
            i <= fetched@.len(),
            fetched.deep_view().len() == fetched@.len(),
            match select_spec(fetched.deep_view(), local_title@, fuzziness) {
                Some(p) => p.0 >= i && select_spec(
                    fetched.deep_view().skip(i as int),
                    local_title@,
                    fuzziness,
                ) == Some((p.0 - i, p.1)),
                None => select_spec(
                    fetched.deep_view().skip(i as int),
                    local_title@,
                    fuzziness,
                ) is None,
            },
        decreases fetched@.len() - i,
    {
        proof {
            assert(fetched.deep_view().skip(i as int).drop_first() =~= fetched.deep_view().skip(
                i + 1 as int,
            ));
            assert(fetched.deep_view().skip(i as int)[0] == fetched.deep_view()[i as int]);
            lemma_select_bounds(fetched.deep_view().skip(i + 1 as int), local_title@, fuzziness);
        }
        let hit: Option<usize> = match &fetched[i] {
            Some(rm) => match &rm.tracks {
                Some(ts) => match_in_tracklist(ts, local_title, fuzziness),
                None => None,
            },
            None => None,
        };
        match hit {
            Some(t) => {
                return Some((i, t));
            },
            None => {},
        }
        i = i + 1;
    }
    None
}

/// Exact strict-normalized title equality always wins over any fuzzy score:
/// when a track matches the local title exactly, the matcher's choice for
/// that tracklist is the first such track, whatever any other track scores
/// and whatever the threshold asks.
pub proof fn lemma_exact_match_wins(
    tracks: Seq<TrackModel>,
    local: Seq<char>,
    fuzziness: u8,
    i: int,
)
    requires
        0 <= i < tracks.len(),
        track_exact(tracks[i], local),
        forall|j: int| 0 <= j < i ==> !track_exact(#[trigger] tracks[j], local),
    ensures
        tracklist_choice(tracks, local, fuzziness) == Some(i),
{
    lemma_first_exact_hit(tracks, local, 0, i);
}

/// A candidate that yields a track is never passed over: the matcher's
/// overall choice falls on it or on an earlier candidate, whatever any later
/// candidate would score.
pub proof fn lemma_first_hit_short_circuits(
    fetched: Seq<Option<ReleaseModel>>,
    local: Seq<char>,
    fuzziness: u8,
    c: int,
)
    requires
        0 <= c < fetched.len(),
        candidate_choice(fetched[c], local, fuzziness) is Some,
    ensures
        select_spec(fetched, local, fuzziness) is Some,
        ({
            let p = select_spec(fetched, local, fuzziness)->0;
            p.0 <= c
        }),
    decreases fetched.len(),
{
    if candidate_choice(fetched[0], local, fuzziness) is Some {
    } else {
        assert(c >= 1);
        assert(fetched.drop_first()[c - 1] == fetched[c]);
        lemma_first_hit_short_circuits(fetched.drop_first(), local, fuzziness, c - 1);
    }
}

/// The free-text query of the matcher's first search: the
/// display-normalized local title, a space, and the first local artist.
pub open spec fn free_text_query(title: Seq<char>, artist: Seq<char>) -> Seq<char> {
    normalize_spec(title, false) + seq![' '] + artist
}

/// How many of a request log's URLs are detail fetches.
pub open spec fn count_details(s: Seq<Seq<char>>) -> int
    decreases s.len(),
{
    if s.len() == 0 {
        0
    } else {
        (if detail_request(s.first()) {
            1int
        } else {
            0int
        }) + count_details(s.drop_first())
    }
}

proof fn lemma_count_details_push(s: Seq<Seq<char>>, u: Seq<char>)
    ensures
        count_details(s.push(u)) == count_details(s) + (if detail_request(u) {
            1int
        } else {
            0int
        }),
    decreases s.len(),
{
    let p = s.push(u);
    if s.len() == 0 {
        assert(p.drop_first() =~= Seq::<Seq<char>>::empty());
        assert(p.first() == u);
        assert(count_details(p.drop_first()) == 0);
        assert(count_details(p) == (if detail_request(u) {
            1int
        } else {
            0int
        }) + count_details(p.drop_first()));
    } else {
        assert(p.drop_first() =~= s.drop_first().push(u));
        assert(p.first() == s.first());
        lemma_count_details_push(s.drop_first(), u);
        assert(count_details(p) == (if detail_request(s.first()) {
            1int
        } else {
            0int
        }) + count_details(p.drop_first()));
    }
}

/// A search URL is a search request and not a detail request: the two
/// endpoint prefixes part ways right after the host.
proof fn lemma_search_url_classified(
    rt: Option<Seq<char>>,
    q: Option<Seq<char>>,
    t: Option<Seq<char>>,
    a: Option<Seq<char>>,
)
    ensures
        !detail_request(search_url_of(rt, q, t, a)),
{
    let u = search_url_of(rt, q, t, a);
    let search_lit = "https://api.discogs.com/database/search?"@;
    assert(u.take(search_lit.len() as int) =~= search_lit);
    reveal_strlit("https://api.discogs.com/database/search?");
    reveal_strlit("https://api.discogs.com/releases/");
    reveal_strlit("https://api.discogs.com/masters/");
    if starts_with_seq(u, "https://api.discogs.com/releases/"@) {
        assert(u[24] == search_lit[24]);
        assert(u[24] == "https://api.discogs.com/releases/"@[24]);
        assert(false);
    }
    if starts_with_seq(u, "https://api.discogs.com/masters/"@) {
        assert(u[24] == search_lit[24]);
        assert(u[24] == "https://api.discogs.com/masters/"@[24]);
        assert(false);
    }
}

proof fn lemma_detail_url_classified(id: int)
    ensures
        detail_request(release_url_of(id)),
        detail_request(master_url_of(id)),
{
    let rl = "https://api.discogs.com/releases/"@;
    let ml = "https://api.discogs.com/masters/"@;
    assert(release_url_of(id).take(rl.len() as int) =~= rl);
    assert(master_url_of(id).take(ml.len() as int) =~= ml);
}

proof fn lemma_log_split(r0: Seq<Seq<char>>, appended: Seq<Seq<char>>)
    ensures
        r0.is_prefix_of(r0 + appended),
        (r0 + appended).skip(r0.len() as int) == appended,
{
    assert((r0 + appended).subrange(0, r0.len() as int) =~= r0);
    assert((r0 + appended).skip(r0.len() as int) =~= appended);
}

/// What match_track promises of its outbound traffic: the first request is
/// the free-text search; any later request is the structured fallback search
/// or a detail fetch; at most four detail fetches and at most two requests
/// besides them; an error leaves no detail fetch behind.
pub open spec fn match_requests_ok(
    appended: Seq<Seq<char>>,
    title: Seq<char>,
    artist: Seq<char>,
    is_err: bool,
) -> bool {
    let first_url = search_url_of(
        Some("release,master"@),
        Some(free_text_query(title, artist)),
        None,
        None,
    );
    let second_url = search_url_of(Some("release,master"@), None, Some(title), Some(artist));
    &&& appended.len() >= 1
    &&& appended[0] == first_url
    &&& (forall|k: int|
        1 <= k < appended.len() ==> (#[trigger] appended[k]) == second_url || detail_request(
            appended[k],
        ))
    &&& count_details(appended) <= 4
    &&& appended.len() <= 2 + count_details(appended)
    &&& (is_err ==> count_details(appended) == 0)
}

/// Resolves one local file against the catalog: a free-text search first, a
/// structured (title, artist) search when that yields no releases, then at
/// most two masters and two releases fetched in full and matched in order,
/// masters first. A candidate whose detail fetch fails, decodes to nothing
/// or has no tracklist is skipped; only a failed search is an error. The
/// contract also bounds the outbound traffic: one or two search requests of
/// the stated shapes and at most four detail fetches, and the client's cache
/// only grows.
pub fn match_track(discogs: &mut Discogs, info: &MusicFileInfo, fuzziness: u8) -> (r: Result<
    Option<(Track, ReleaseMaster)>,
    ClientError,
>)
    requires
        old(discogs).wf(),
        info.artists@.len() > 0,
    ensures
        final(discogs).wf(),
        Discogs::same_settings(*old(discogs), *final(discogs)),
        Discogs::cache_extends(*old(discogs), *final(discogs)),
        old(discogs).spec_requests().is_prefix_of(final(discogs).spec_requests()),
        match_requests_ok(
            final(discogs).spec_requests().skip(old(discogs).spec_requests().len() as int),
            info.title@,
            info.artists.deep_view()[0],
            r is Err,
        ),
        match r {
            Ok(Some(p)) => {
                &&& p.1@.tracks is Some
                &&& tracklist_choice(p.1@.tracks->0, info.title@, fuzziness) is Some
                &&& {
                    let i = tracklist_choice(p.1@.tracks->0, info.title@, fuzziness)->0;
                    0 <= i < p.1@.tracks->0.len() && p.0@ == p.1@.tracks->0[i]
                }
            },
            _ => true,
        },
{
    let ghost r0 = discogs.spec_requests();
    let ghost first_url = search_url_of(
        Some("release,master"@),
        Some(free_text_query(info.title@, info.artists.deep_view()[0])),
        None,
        None,
    );
    let ghost second_url = search_url_of(
        Some("release,master"@),
        None,
        Some(info.title@),
        Some(info.artists.deep_view()[0]),
    );
    let free_query = normalize(info.title.as_str(), false).concat(" ").concat(
        info.artists[0].as_str(),
    );
    proof {
        reveal_strlit(" ");
        assert((" ")@ =~= seq![' ']);
        assert(info.artists@[0]@ == info.artists.deep_view()[0]);
        assert(free_query@ == free_text_query(info.title@, info.artists.deep_view()[0]));
        lemma_search_url_classified(
            Some("release,master"@),
            Some(free_text_query(info.title@, info.artists.deep_view()[0])),
            None,
            None,
        );
        lemma_search_url_classified(
            Some("release,master"@),
            None,
            Some(info.title@),
            Some(info.artists.deep_view()[0]),
        );
    }
    let ghost mut appended: Seq<Seq<char>> = Seq::empty();
    let search1 = discogs.search(Some("release,master"), Some(free_query.as_str()), None, None);
    proof {
        appended = appended.push(first_url);
        assert(appended =~= seq![first_url]);
        assert(discogs.spec_requests() == r0 + appended) by {
            assert(r0.push(first_url) =~= r0 + appended);
        }
        lemma_count_details_push(Seq::empty(), first_url);
        assert(count_details(Seq::<Seq<char>>::empty()) == 0);
        lemma_log_split(r0, appended);
    }
    let mut results = match search1 {
        Ok(r) => r,
        Err(e) => {
            return Err(e);
        },
    };
    let need_fallback = match &results {
        Some(sr) => sr.releases.len() == 0,
        None => true,
    };
    if need_fallback {
        let search2 = discogs.search(
            Some("release,master"),
            None,
            Some(info.title.as_str()),
            Some(info.artists[0].as_str()),
        );
        proof {
            let ghost prev = appended;
            appended = appended.push(second_url);
            assert(discogs.spec_requests() == r0 + appended) by {
                assert((r0 + prev).push(second_url) =~= r0 + appended);
            }
            lemma_count_details_push(prev, second_url);
            lemma_log_split(r0, appended);
        }
        results = match search2 {
            Ok(r) => r,
            Err(e) => {
                return Err(e);
            },
        };
    }
    let mut r = match results {
        Some(sr) => sr,
        None => {
            proof {
                lemma_log_split(r0, appended);
            }
            return Ok(None);
        },
    };
    r.masters.truncate(2);
    r.releases.truncate(2);
    let mut which: usize = 0;
    while which < 2
        invariant
            discogs.wf(),
            Discogs::same_settings(*old(discogs), *discogs),
            Discogs::cache_extends(*old(discogs), *discogs),
            r0 == old(discogs).spec_requests(),
            first_url == search_url_of(
                Some("release,master"@),
                Some(free_text_query(info.title@, info.artists.deep_view()[0])),
                None,
                None,
            ),
            second_url == search_url_of(
                Some("release,master"@),
                None,
                Some(info.title@),
                Some(info.artists.deep_view()[0]),
            ),
            discogs.spec_requests() == r0 + appended,
            1 <= appended.len() <= 2 + count_details(appended),
            appended[0] == first_url,
            forall|k: int|
                1 <= k < appended.len() ==> (#[trigger] appended[k]) == second_url
                    || detail_request(appended[k]),
            count_details(appended) <= 2 * which,
            which <= 2,
            r.masters@.len() <= 2,
            r.releases@.len() <= 2,
        decreases 2 - which,
    {
        let list = if which == 0 {
            &r.masters
        } else {
            &r.releases
        };
        let mut i: usize = 0;
        while i < list.len()
            invariant
                discogs.wf(),
                Discogs::same_settings(*old(discogs), *discogs),
                Discogs::cache_extends(*old(discogs), *discogs),
                r0 == old(discogs).spec_requests(),
                first_url == search_url_of(
                    Some("release,master"@),
                    Some(free_text_query(info.title@, info.artists.deep_view()[0])),
                    None,
                    None,
                ),
                second_url == search_url_of(
                    Some("release,master"@),
                    None,
                    Some(info.title@),
                    Some(info.artists.deep_view()[0]),
                ),
                discogs.spec_requests() == r0 + appended,
                1 <= appended.len() <= 2 + count_details(appended),
                appended[0] == first_url,
                forall|k: int|
                    1 <= k < appended.len() ==> (#[trigger] appended[k]) == second_url
                        || detail_request(appended[k]),
                count_details(appended) <= 2 * which + i,
                which <= 1,
                i <= list@.len(),
                list@.len() <= 2,
            decreases list@.len() - i,
        {
            let cand = &list[i];
            let ghost pre = *discogs;
            let fetched = match cand.rtype {
                ReleaseType::Release => discogs.release(cand.id),
                ReleaseType::Master => {
                    let label = match &cand.label {
                        Some(l) => Some(crate::records::clone_strings(l)),
                        None => None,
                    };
                    discogs.master(cand.id, label)
                },
            };
            proof {
                let ghost prev = appended;
                if !pre.spec_cache().contains_key(cand.id) {
                    let u = match cand.rtype {
                        ReleaseType::Release => release_url_of(cand.id as int),
                        ReleaseType::Master => master_url_of(cand.id as int),
                    };
                    appended = appended.push(u);
                    lemma_detail_url_classified(cand.id as int);
                    assert(discogs.spec_requests() == r0 + appended) by {
                        assert((r0 + prev).push(u) =~= r0 + appended);
                    }
                    lemma_count_details_push(prev, u);
                }
                assert forall|k: i64| #[trigger]
                    old(discogs).spec_cache().contains_key(k) implies discogs.spec_cache()
                    .contains_key(k) && discogs.spec_cache()[k] == old(
                    discogs,
                ).spec_cache()[k] by {
                    assert(pre.spec_cache().contains_key(k));
                }
            }
            // a candidate whose detail fetch fails is skipped, like one whose
            // record is malformed or has no tracklist
            let full: Option<ReleaseMaster> = match fetched {
                Ok(f) => f,
                Err(_) => None,
            };
            match full {
                Some(record) => {
                    let hit: Option<usize> = match &record.tracks {
                        Some(ts) => match_in_tracklist(ts, info.title.as_str(), fuzziness),
                        None => None,
                    };
                    match hit {
                        Some(t) => {
                            let track = match &record.tracks {
                                Some(ts) => ts[t].duplicate(),
                                None => {
                                    return Ok(None);  // unreachable: the hit came from a tracklist
                                },
                            };
                            proof {
                                lemma_log_split(r0, appended);
                                assert(count_details(appended) <= 2 * which + i + 1);
                                assert(match_requests_ok(
                                    discogs.spec_requests().skip(r0.len() as int),
                                    info.title@,
                                    info.artists.deep_view()[0],
                                    false,
                                ));
                            }
                            return Ok(Some((track, record)));
                        },
                        None => {},
                    }
                },
                None => {},
            }
            i = i + 1;
        }
        which = which + 1;
    }
    proof {
        lemma_log_split(r0, appended);
    }
    Ok(None)
}

} // verus!
