//! The catalog client: rate-limited, token-authenticated GET requests against
//! the catalog service, typed decoding of its responses, and an append-only
//! id-keyed cache of full records.

use vstd::prelude::*;
use vstd::string::StringExecFns;
use std::collections::HashMap;
use crate::json::{JsonValue, decoded_json, parse_json};
use crate::numbers::{i64_to_string, int_str};
use crate::records::{ReleaseMaster, ReleaseType, SearchResults, release_from_json_spec, search_from_json_spec, search_lists};

verus! {

#[derive(Debug)]
pub enum ClientError {
    /// A network or transport failure, with the transport's own words.
    Transport(String),
    /// A response body that is not a JSON document.
    Malformed,
}

pub struct HttpResponse {
    pub status: u16,
    pub body: Vec<u8>,
}

/// Declares reqwest's blocking client type so the catalog client can hold
/// one; the library only hands it to the request wrapper.
#[verifier::external_type_specification]
#[verifier::external_body]
pub struct ExReqwestClient(reqwest::blocking::Client);

/// Relies on reqwest::blocking::ClientBuilder: builds a blocking client with
/// the tagger's user-agent string; building may fail.
#[verifier::external_body]
fn build_client() -> Result<reqwest::blocking::Client, ClientError> {
    reqwest::blocking::Client::builder().user_agent("DiscogsTagger/1.0").build().map_err(
        |e| ClientError::Transport(e.to_string()),
    )
}

/// Relies on reqwest::blocking::Client::get and RequestBuilder::send: one GET
/// request, with the catalog token riding in the Authorization header when
/// one is set; the response is reduced to its status code and body bytes.
#[verifier::external_body]
fn http_get(client: &reqwest::blocking::Client, url: &str, token: &Option<String>) -> Result<
    HttpResponse,
    ClientError,
> {
    let mut req = client.get(url);
    if let Some(t) = token {
        req = req.header("Authorization", format!("Discogs token={}", t));
    }
    let res = req.send().map_err(|e| ClientError::Transport(e.to_string()))?;
    let status = res.status().as_u16();
    let body = res.bytes().map_err(|e| ClientError::Transport(e.to_string()))?.to_vec();
    Ok(HttpResponse { status, body })
}

/// Relies on std::time::SystemTime::now: milliseconds since the Unix epoch,
/// zero if the clock reads before it.
#[verifier::external_body]
fn now_millis() -> u128 {
    std::time::SystemTime::now().duration_since(std::time::SystemTime::UNIX_EPOCH).unwrap_or(
        std::time::Duration::from_millis(0),
    ).as_millis()
}

/// Relies on std::sync::mpsc::Receiver::recv_timeout: with the sender kept
/// alive and silent, the call blocks the calling thread for the full timeout.
#[verifier::external_body]
fn sleep_ms(ms: u64) {
    let (keep, rx) = std::sync::mpsc::channel::<()>();
    let _ = rx.recv_timeout(std::time::Duration::from_millis(ms));
    drop(keep);
}

/// What url's form_urlencoded serializer returns for a pair list: a function
/// of the pairs alone.
pub uninterp spec fn form_urlencoded_of(pairs: Seq<(Seq<char>, Seq<char>)>) -> Seq<char>;

pub open spec fn pairs_view(s: Seq<(String, String)>) -> Seq<(Seq<char>, Seq<char>)> {
    s.map_values(|p: (String, String)| (p.0@, p.1@))
}

/// Relies on url::form_urlencoded::Serializer: the
/// application/x-www-form-urlencoded encoding of the given pairs, in order.
#[verifier::external_body]
fn encode_pairs(pairs: &Vec<(String, String)>) -> (r: String)
    ensures
        r@ == form_urlencoded_of(pairs_view(pairs@)),
{
    let mut enc = url::form_urlencoded::Serializer::new(String::new());
    for (k, v) in pairs.iter() {
        enc.append_pair(k, v);
    }
    enc.finish()
}

pub open spec fn opt_str_view(o: Option<&str>) -> Option<Seq<char>> {
    match o {
        Some(s) => Some(s@),
        None => None,
    }
}

pub open spec fn opt_pair(key: Seq<char>, v: Option<Seq<char>>) -> Seq<(Seq<char>, Seq<char>)> {
    match v {
        Some(x) => seq![(key, x)],
        None => Seq::empty(),
    }
}

/// The query pairs a search request carries: the type filter (defaulted),
/// then exactly the provided subset of free text, title and artist.
pub open spec fn search_pairs(
    result_type: Option<Seq<char>>,
    query: Option<Seq<char>>,
    title: Option<Seq<char>>,
    artist: Option<Seq<char>>,
) -> Seq<(Seq<char>, Seq<char>)> {
    seq![
        (
            "type"@,
            match result_type {
                Some(t) => t,
                None => "release,master"@,
            },
        ),
    ] + opt_pair("q"@, query) + opt_pair("title"@, title) + opt_pair("artist"@, artist)
}

/// The full URL of a search request.
pub open spec fn search_url_of(
    result_type: Option<Seq<char>>,
    query: Option<Seq<char>>,
    title: Option<Seq<char>>,
    artist: Option<Seq<char>>,
) -> Seq<char> {
    "https://api.discogs.com/database/search?"@ + form_urlencoded_of(
        search_pairs(result_type, query, title, artist),
    )
}

pub open spec fn release_url_of(id: int) -> Seq<char> {
    "https://api.discogs.com/releases/"@ + int_str(id)
}

pub open spec fn master_url_of(id: int) -> Seq<char> {
    "https://api.discogs.com/masters/"@ + int_str(id)
}

pub open spec fn starts_with_seq(s: Seq<char>, p: Seq<char>) -> bool {
    s.len() >= p.len() && s.take(p.len() as int) == p
}

/// Classification of the client's outbound request URLs, for contracts that
/// bound request traffic.
pub open spec fn search_request(u: Seq<char>) -> bool {
    starts_with_seq(u, "https://api.discogs.com/database/search?"@)
}

pub open spec fn detail_request(u: Seq<char>) -> bool {
    starts_with_seq(u, "https://api.discogs.com/releases/"@) || starts_with_seq(
        u,
        "https://api.discogs.com/masters/"@,
    )
}

/// Whether a response answers the credential check: exactly an OK status.
pub fn token_ok(r: &HttpResponse) -> (b: bool)
    ensures
        b == (r.status == 200),
{
    r.status == 200
}

/// The minimum spacing between two requests, in milliseconds, at a given
/// request-per-minute rate.
pub open spec fn spacing_ms(rate: int) -> int {
    60000int / rate
}

/// The delay the rate limiter asks for before the next request: nothing when
/// limiting is off or no request has been made yet; otherwise whatever is
/// left of the minimum spacing since the last request, plus a 10 ms safety
/// margin.
pub fn compute_delay(rate: i16, enabled: bool, last: u128, now: u128) -> (d: u64)
    requires
        rate > 0,
    ensures
        (!enabled || last == 0) ==> d == 0,
        (enabled && last > 0) ==> {
            let diff = if now >= last {
                now - last
            } else {
                0
            };
            if diff < spacing_ms(rate as int) {
                d == spacing_ms(rate as int) - diff + 10
            } else {
                d == 0
            }
        },
{
    if !enabled || last == 0 {
        return 0;
    }
    let spacing: u64 = 60000 / (rate as u64);
    let diff: u128 = if now >= last {
        now - last
    } else {
        0
    };
    if diff < spacing as u128 {
        (spacing - diff as u64) + 10
    } else {
        0
    }
}

/// The catalog client. The effective rate is 25 requests per minute without
/// a token and 60 with one; the cache maps numeric ids to fetched records
/// (or to "not found") for the life of the process.
pub struct Discogs {
    client: reqwest::blocking::Client,
    pub token: Option<String>,
    rate_limit: i16,
    rate_limit_enabled: bool,
    last_request: u128,
    release_cache: HashMap<i64, Option<ReleaseMaster>>,
    requests: Ghost<Seq<Seq<char>>>,
}

impl Discogs {
    pub closed spec fn spec_token(self) -> Option<String> {
        self.token
    }

    /// The request rate in requests per minute; always positive.
    pub closed spec fn spec_rate(self) -> int {
        self.rate_limit as int
    }

    pub closed spec fn spec_limiting(self) -> bool {
        self.rate_limit_enabled
    }

    pub closed spec fn spec_last_request(self) -> int {
        self.last_request as int
    }

    pub closed spec fn spec_cache(self) -> Map<i64, Option<ReleaseMaster>> {
        self.release_cache@
    }

    /// The URLs of the requests attempted so far, oldest first: ghost
    /// bookkeeping that lets contracts speak about outbound traffic.
    pub closed spec fn spec_requests(self) -> Seq<Seq<char>> {
        self.requests@
    }

    pub closed spec fn wf(self) -> bool {
        self.rate_limit > 0
    }

    /// The client's settings survive a call: token, rate and the limiting
    /// switch are as they were.
    pub open spec fn same_settings(pre: Discogs, post: Discogs) -> bool {
        &&& post.spec_token() == pre.spec_token()
        &&& post.spec_rate() == pre.spec_rate()
        &&& post.spec_limiting() == pre.spec_limiting()
    }

    /// The cache only grows: every id cached before is still cached, with
    /// the same record.
    pub open spec fn cache_extends(pre: Discogs, post: Discogs) -> bool {
        forall|k: i64|
            #[trigger] pre.spec_cache().contains_key(k) ==> post.spec_cache().contains_key(k)
                && post.spec_cache()[k] == pre.spec_cache()[k]
    }

    /// A fresh client: no token, the unauthenticated 25/minute rate, rate
    /// limiting off, nothing cached, no request made yet.
    pub fn new() -> (r: Result<Discogs, ClientError>)
        ensures
            match r {
                Ok(d) => {
                    &&& d.wf()
                    &&& d.spec_token() is None
                    &&& d.spec_rate() == 25
                    &&& !d.spec_limiting()
                    &&& d.spec_last_request() == 0
                    &&& d.spec_cache() == Map::<i64, Option<ReleaseMaster>>::empty()
                    &&& d.spec_requests() == Seq::<Seq<char>>::empty()
                },
                Err(_) => true,
            },
    {
        let client = match build_client() {
            Ok(c) => c,
            Err(e) => {
                return Err(e);
            },
        };
        Ok(
            Discogs {
                client,
                token: None,
                rate_limit: 25,
                rate_limit_enabled: false,
                last_request: 0,
                release_cache: HashMap::new(),
                requests: Ghost(Seq::empty()),
            },
        )
    }

    /// Stores the token and raises the rate to the authenticated tier.
    pub fn authorize_token(&mut self, token: String)
        ensures
            final(self).wf(),
            final(self).spec_token() == Some(token),
            final(self).spec_rate() == 60,
            final(self).spec_limiting() == old(self).spec_limiting(),
            final(self).spec_last_request() == old(self).spec_last_request(),
            final(self).spec_cache() == old(self).spec_cache(),
            final(self).spec_requests() == old(self).spec_requests(),
    {
        self.token = Some(token);
        self.rate_limit = 60;
    }

    /// Switches the rate-limiting delay on or off.
    pub fn rate_limit(&mut self, rate_limit: bool)
        requires
            old(self).wf(),
        ensures
            final(self).wf(),
            final(self).spec_limiting() == rate_limit,
            final(self).spec_token() == old(self).spec_token(),
            final(self).spec_rate() == old(self).spec_rate(),
            final(self).spec_last_request() == old(self).spec_last_request(),
            final(self).spec_cache() == old(self).spec_cache(),
            final(self).spec_requests() == old(self).spec_requests(),
    {
        self.rate_limit_enabled = rate_limit;
    }

    /// One rate-limited GET. On success the last-request timestamp is taken
    /// after the response arrived, so latency is not charged against the
    /// next request's budget; a transport failure leaves it unchanged.
    fn get(&mut self, url: &str) -> (r: Result<HttpResponse, ClientError>)
        requires
            old(self).wf(),
        ensures
            final(self).wf(),
            Discogs::same_settings(*old(self), *final(self)),
            final(self).spec_cache() == old(self).spec_cache(),
            final(self).spec_requests() == old(self).spec_requests().push(url@),
    {
        if self.rate_limit_enabled && self.last_request > 0 {
            let now = now_millis();
            let d = compute_delay(self.rate_limit, true, self.last_request, now);
            if d > 0 {
                sleep_ms(d);
            }
        }
        let result = http_get(&self.client, url, &self.token);
        self.requests = Ghost(self.requests@.push(url@));
        match result {
            Ok(resp) => {
                self.last_request = now_millis();
                Ok(resp)
            },
            Err(e) => Err(e),
        }
    }

    /// A throwaway search that succeeds exactly when the service answers
    /// with an OK status: a pure credential check, the body never inspected.
    /// The decision on the received response is the verified `token_ok`.
    pub fn validate_token(&mut self) -> (r: Option<()>)
        requires
            old(self).wf(),
        ensures
            final(self).wf(),
            Discogs::same_settings(*old(self), *final(self)),
            final(self).spec_cache() == old(self).spec_cache(),
            final(self).spec_requests() == old(self).spec_requests().push(
                "https://api.discogs.com/database/search?q=test"@,
            ),
    {
        match self.get("https://api.discogs.com/database/search?q=test") {
            Ok(r) => {
                if token_ok(&r) {
                    Some(())
                } else {
                    None
                }
            },
            Err(_) => None,
        }
    }

    /// Fetches raw bytes, rate limited like every other request; used for
    /// cover art.
    pub fn download_art(&mut self, url: &str) -> (r: Result<Vec<u8>, ClientError>)
        requires
            old(self).wf(),
        ensures
            final(self).wf(),
            Discogs::same_settings(*old(self), *final(self)),
            final(self).spec_cache() == old(self).spec_cache(),
            final(self).spec_requests() == old(self).spec_requests().push(url@),
    {
        match self.get(url) {
            Ok(r) => Ok(r.body),
            Err(e) => Err(e),
        }
    }

    /// A catalog search. Exactly one of a combined free-text query or a
    /// (title, artist) pair is meant to be passed per call; the query string
    /// carries whichever parameters are given. `Ok(None)` is a response
    /// without a results array; malformed hits inside the array are dropped.
    pub fn search(
        &mut self,
        result_type: Option<&str>,
        query: Option<&str>,
        title: Option<&str>,
        artist: Option<&str>,
    ) -> (r: Result<Option<SearchResults>, ClientError>)
        requires
            old(self).wf(),
        ensures
            final(self).wf(),
            Discogs::same_settings(*old(self), *final(self)),
            final(self).spec_cache() == old(self).spec_cache(),
            final(self).spec_requests() == old(self).spec_requests().push(
                search_url_of(
                    opt_str_view(result_type),
                    opt_str_view(query),
                    opt_str_view(title),
                    opt_str_view(artist),
                ),
            ),
            match r {
                Ok(Some(sr)) => {
                    &&& (exists|bytes: Seq<u8>|
                        {
                            &&& #[trigger] decoded_json(bytes) is Some
                            &&& search_from_json_spec(decoded_json(bytes)->0) == Some(sr@)
                        })
                    &&& (forall|k: int|
                        0 <= k < sr@.releases.len() ==> (#[trigger] sr@.releases[k]).rtype
                            == ReleaseType::Release)
                    &&& (forall|k: int|
                        0 <= k < sr@.masters.len() ==> (#[trigger] sr@.masters[k]).rtype
                            == ReleaseType::Master)
                },
                _ => true,
            },
    {
        let mut pairs: Vec<(String, String)> = Vec::new();
        let tval = match result_type {
            Some(t) => String::from_str(t),
            None => String::from_str("release,master"),
        };
        pairs.push((String::from_str("type"), tval));
        match query {
            Some(q) => pairs.push((String::from_str("q"), String::from_str(q))),
            None => {},
        }
        match title {
            Some(t) => pairs.push((String::from_str("title"), String::from_str(t))),
            None => {},
        }
        match artist {
            Some(a) => pairs.push((String::from_str("artist"), String::from_str(a))),
            None => {},
        }
        proof {
            assert(pairs_view(pairs@) =~= search_pairs(
                opt_str_view(result_type),
                opt_str_view(query),
                opt_str_view(title),
                opt_str_view(artist),
            ));
        }
        let qs = encode_pairs(&pairs);
        let url = String::from_str("https://api.discogs.com/database/search?").concat(qs.as_str());
        proof {
            assert(url@ == search_url_of(
                opt_str_view(result_type),
                opt_str_view(query),
                opt_str_view(title),
                opt_str_view(artist),
            ));
        }
        let resp = match self.get(url.as_str()) {
            Ok(r) => r,
            Err(e) => {
                return Err(e);
            },
        };
        let json = match parse_json(&resp.body) {
            Some(j) => j,
            None => {
                return Err(ClientError::Malformed);
            },
        };
        let out = SearchResults::from_json(&json);
        proof {
            if out is Some {
                assert(decoded_json(resp.body@) == Some(json));
                assert(search_from_json_spec(decoded_json(resp.body@)->0) == Some(out->0@));
                lemma_search_lists_types(json.spec_arr_field("results"@)->0);
            }
        }
        Ok(out)
    }

    /// A full release record by id. A cached id — found or not — is answered
    /// from the cache without any request; otherwise the record is fetched,
    /// decoded as a release, and cached under its id whatever the decode
    /// outcome.
    pub fn release(&mut self, id: i64) -> (r: Result<Option<ReleaseMaster>, ClientError>)
        requires
            old(self).wf(),
        ensures
            final(self).wf(),
            Discogs::same_settings(*old(self), *final(self)),
            old(self).spec_cache().contains_key(id) ==> *final(self) == *old(self) && match r {
                Ok(v) => v.deep_view() == old(self).spec_cache()[id].deep_view(),
                Err(_) => false,
            },
            !old(self).spec_cache().contains_key(id) ==> match r {
                Ok(v) => {
                    &&& final(self).spec_cache().dom() =~= old(self).spec_cache().dom().insert(id)
                    &&& final(self).spec_cache()[id].deep_view() == v.deep_view()
                    &&& (forall|k: i64|
                        k != id && old(self).spec_cache().contains_key(k)
                            ==> final(self).spec_cache()[k] == old(self).spec_cache()[k])
                    &&& (v is Some ==> (exists|bytes: Seq<u8>|
                        {
                            &&& #[trigger] decoded_json(bytes) is Some
                            &&& release_from_json_spec(decoded_json(bytes)->0, ReleaseType::Release, None)
                                == Some(v->0@)
                        }))
                    &&& (v is Some ==> v->0@.rtype == ReleaseType::Release)
                },
                Err(_) => final(self).spec_cache() == old(self).spec_cache(),
            },
            !old(self).spec_cache().contains_key(id) ==> final(self).spec_requests() == old(
                self,
            ).spec_requests().push(release_url_of(id as int)),
    {
        if self.release_cache.contains_key(&id) {
            let cached = self.release_cache.get(&id);
            match cached {
                Some(v) => {
                    return Ok(duplicate_opt_record(v));
                },
                None => {
                    return Err(ClientError::Malformed);  // unreachable: the key is present
                },
            }
        }
        let url = String::from_str("https://api.discogs.com/releases/").concat(
            i64_to_string(id).as_str(),
        );
        proof {
            assert(url@ == release_url_of(id as int));
        }
        let resp = match self.get(url.as_str()) {
            Ok(r) => r,
            Err(e) => {
                return Err(e);
            },
        };
        let json = match parse_json(&resp.body) {
            Some(j) => j,
            None => {
                return Err(ClientError::Malformed);
            },
        };
        proof {
            assert(decoded_json(resp.body@) == Some(json));
        }
        let record = ReleaseMaster::from_json(&json, ReleaseType::Release, None);
        let out = duplicate_opt_record(&record);
        self.release_cache.insert(id, record);
        Ok(out)
    }

    /// A full master record by id, with an optional label list carried over
    /// from the search hit, since master detail responses have none of their
    /// own. Cached exactly like releases, in the same id-keyed cache.
    pub fn master(&mut self, id: i64, label: Option<Vec<String>>) -> (r: Result<
        Option<ReleaseMaster>,
        ClientError,
    >)
        requires
            old(self).wf(),
        ensures
            final(self).wf(),
            Discogs::same_settings(*old(self), *final(self)),
            old(self).spec_cache().contains_key(id) ==> *final(self) == *old(self) && match r {
                Ok(v) => v.deep_view() == old(self).spec_cache()[id].deep_view(),
                Err(_) => false,
            },
            !old(self).spec_cache().contains_key(id) ==> match r {
                Ok(v) => {
                    &&& final(self).spec_cache().dom() =~= old(self).spec_cache().dom().insert(id)
                    &&& final(self).spec_cache()[id].deep_view() == v.deep_view()
                    &&& (forall|k: i64|
                        k != id && old(self).spec_cache().contains_key(k)
                            ==> final(self).spec_cache()[k] == old(self).spec_cache()[k])
                    &&& (v is Some ==> (exists|bytes: Seq<u8>|
                        {
                            &&& #[trigger] decoded_json(bytes) is Some
                            &&& release_from_json_spec(
                                decoded_json(bytes)->0,
                                ReleaseType::Master,
                                label.deep_view(),
                            ) == Some(v->0@)
                        }))
                    &&& (v is Some ==> v->0@.rtype == ReleaseType::Master)
                    &&& (v is Some && label is Some ==> v->0@.label == label.deep_view())
                },
                Err(_) => final(self).spec_cache() == old(self).spec_cache(),
            },
            !old(self).spec_cache().contains_key(id) ==> final(self).spec_requests() == old(
                self,
            ).spec_requests().push(master_url_of(id as int)),
    {
        if self.release_cache.contains_key(&id) {
            let cached = self.release_cache.get(&id);
            match cached {
                Some(v) => {
                    return Ok(duplicate_opt_record(v));
                },
                None => {
                    return Err(ClientError::Malformed);  // unreachable: the key is present
                },
            }
        }
        let url = String::from_str("https://api.discogs.com/masters/").concat(
            i64_to_string(id).as_str(),
        );
        proof {
            assert(url@ == master_url_of(id as int));
        }
        let resp = match self.get(url.as_str()) {
            Ok(r) => r,
            Err(e) => {
                return Err(e);
            },
        };
        let json = match parse_json(&resp.body) {
            Some(j) => j,
            None => {
                return Err(ClientError::Malformed);
            },
        };
        proof {
            assert(decoded_json(resp.body@) == Some(json));
        }
        let record = ReleaseMaster::from_json(&json, ReleaseType::Master, label);
        let out = duplicate_opt_record(&record);
        self.release_cache.insert(id, record);
        Ok(out)
    }
}

fn duplicate_opt_record(v: &Option<ReleaseMaster>) -> (r: Option<ReleaseMaster>)
    ensures
        r.deep_view() == v.deep_view(),
{
    match v {
        Some(rm) => Some(rm.duplicate()),
        None => None,
    }
}

/// Search-hit lists carry the kind they were decoded under: every entry of
/// the release list is a release, every entry of the master list a master.
pub proof fn lemma_search_lists_types(results: Seq<JsonValue>)
    ensures
        forall|k: int|
            0 <= k < search_lists(results).0.len() ==> (#[trigger] search_lists(results).0[k]).rtype
                == ReleaseType::Release,
        forall|k: int|
            0 <= k < search_lists(results).1.len() ==> (#[trigger] search_lists(results).1[k]).rtype
                == ReleaseType::Master,
    decreases results.len(),
{
    if results.len() == 0 {
    } else {
        lemma_search_lists_types(results.drop_first());
        let r0 = results[0];
        if r0.spec_str_field("type"@) == Some("release"@) {
            match release_from_json_spec(r0, ReleaseType::Release, None) {
                Some(m) => {
                    assert(m.rtype == ReleaseType::Release);
                },
                None => {},
            }
        }
        if r0.spec_str_field("type"@) == Some("master"@) {
            match release_from_json_spec(r0, ReleaseType::Master, None) {
                Some(m) => {
                    assert(m.rtype == ReleaseType::Master);
                },
                None => {},
            }
        }
    }
}

} // verus!
