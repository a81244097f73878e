//! The values of `fetch()`, `Request`, `Response` and `Headers`: the fetch
//! options with their defaults, header parsing, response construction and
//! the origin comparison.
use vstd::prelude::*;

use super::cors::{
    check_preflight, custom_header_names, custom_request_headers, join_comma, needs_preflight, or_empty,
    preflight_verdict, request_headers_value, simple_request, CorsError,
};
use super::headers::{lookup_header, HeaderMap};
use super::preflight_cache::{expiry_at, fresh_in, lookup_expiry, parse_u64_spec, preflight_max_age, PreflightCache};
use crate::text::{split_char, split_on, str_eq, to_lowercase, to_uppercase, trim, trim_spec, unicode_lowercase, unicode_uppercase};
use crate::urls::{parse_url_parts, url_parts};

verus! {

/// JavaScript `fetch()` global function.
pub struct Fetch;

/// JavaScript `Request` constructor.
pub struct Request;

/// JavaScript `Response` constructor.
pub struct Response;

/// JavaScript `Headers` constructor.
pub struct Headers;

/// Parsed fetch options.
pub struct FetchInit {
    pub method: String,
    pub headers: HeaderMap,
    pub body: Option<String>,
    pub mode: String,
    pub credentials: String,
}

impl FetchInit {
    /// The options of a `fetch(url)` without an init object.
    pub fn defaults() -> (f: Self)
        ensures
            f.method@ == "GET"@,
            f.headers.wf(),
            f.headers.pairs().len() == 0,
            f.body is None,
            f.mode@ == "cors"@,
            f.credentials@ == "same-origin"@,
    {
        FetchInit {
            method: "GET".to_owned(),
            headers: HeaderMap::new(),
            body: None,
            mode: "cors".to_owned(),
            credentials: "same-origin".to_owned(),
        }
    }

    /// The options read from an init object: `method` (the property's string,
    /// upper-cased), `headers`, `body`, `mode` (default `cors`) and
    /// `credentials` (default `same-origin`); a `User-Agent` header is added
    /// when absent.
    pub fn from_options(
        method: &str,
        headers: HeaderMap,
        body: Option<String>,
        mode: Option<String>,
        credentials: Option<String>,
        user_agent: &str,
    ) -> (f: Self)
        requires
            headers.wf(),
        ensures
            f.method@ == unicode_uppercase(method@),
            f.headers.wf(),
            f.headers.get_spec("User-Agent"@) == match headers.get_spec("User-Agent"@) {
                Some(v) => Some(v),
                None => Some(user_agent@),
            },
            forall|k: Seq<char>| k != "User-Agent"@ ==> f.headers.get_spec(k) == headers.get_spec(k),
            f.body == body,
            f.mode@ == match mode {
                Some(m) => m@,
                None => "cors"@,
            },
            f.credentials@ == match credentials {
                Some(c) => c@,
                None => "same-origin"@,
            },
    {
        let mut headers = headers;
        if !headers.contains_key("User-Agent") {
            headers.insert("User-Agent".to_owned(), user_agent.to_owned());
        }
        let mode = match mode {
            Some(m) => m,
            None => "cors".to_owned(),
        };
        let credentials = match credentials {
            Some(c) => c,
            None => "same-origin".to_owned(),
        };
        FetchInit { method: to_uppercase(method), headers, body, mode, credentials }
    }
}

/// `str::lines`: the pieces between `\n`, without a final empty piece, each
/// without one trailing `\r`.
pub open spec fn lines_spec(s: Seq<char>) -> Seq<Seq<char>> {
    let parts = split_on(s, '\n');
    let kept = if parts.last().len() == 0 {
        parts.drop_last()
    } else {
        parts
    };
    kept.map_values(|l: Seq<char>| if l.len() > 0 && l.last() == '\r' {
        l.drop_last()
    } else {
        l
    })
}

/// The position of the first `c` in `s`.
pub open spec fn first_index(s: Seq<char>, c: char) -> Option<int>
    decreases s.len(),
{
    if s.len() == 0 {
        None
    } else if s[0] == c {
        Some(0)
    } else {
        match first_index(s.drop_first(), c) {
            Some(i) => Some(i + 1),
            None => None,
        }
    }
}

/// The header a `"key: value"` line gives, if it has a colon.
pub open spec fn header_line(l: Seq<char>) -> Option<(Seq<char>, Seq<char>)> {
    match first_index(l, ':') {
        Some(i) => Some((trim_spec(l.take(i)), trim_spec(l.skip(i + 1)))),
        None => None,
    }
}

/// The headers of a sequence of lines, in order.
pub open spec fn header_lines(ls: Seq<Seq<char>>) -> Seq<(Seq<char>, Seq<char>)>
    decreases ls.len(),
{
    if ls.len() == 0 {
        Seq::empty()
    } else {
        let prev = header_lines(ls.drop_last());
        match header_line(ls.last()) {
            Some(h) => prev.push(h),
            None => prev,
        }
    }
}

proof fn lemma_first_index(s: Seq<char>, c: char, i: int)
    requires
        0 <= i < s.len(),
        s[i] == c,
        forall|j: int| 0 <= j < i ==> s[j] != c,
    ensures
        first_index(s, c) == Some(i),
    decreases i,
{
    if i > 0 {
        assert forall|j: int| 0 <= j < i - 1 implies s.drop_first()[j] != c by {
            assert(s.drop_first()[j] == s[j + 1]);
        }
        lemma_first_index(s.drop_first(), c, i - 1);
    }
}

proof fn lemma_first_index_none(s: Seq<char>, c: char)
    requires
        forall|j: int| 0 <= j < s.len() ==> s[j] != c,
    ensures
        first_index(s, c) is None,
    decreases s.len(),
{
    if s.len() > 0 {
        assert forall|j: int| 0 <= j < s.len() - 1 implies s.drop_first()[j] != c by {
            assert(s.drop_first()[j] == s[j + 1]);
        }
        lemma_first_index_none(s.drop_first(), c);
    }
}

/// Take the characters `lo..hi` of `s`.
fn substring(s: &str, lo: usize, hi: usize) -> (r: String)
    requires
        lo <= hi <= s@.len(),
    ensures
        r@ == s@.subrange(lo as int, hi as int),
{
    let mut out = String::new();
    let mut k = lo;
    while k < hi
        invariant
            lo <= k <= hi <= s@.len(),
            out@ == s@.subrange(lo as int, k as int),
        decreases hi - k,
    {
        crate::path::push_char(&mut out, s.get_char(k));
        proof {
            assert(out@ =~= s@.subrange(lo as int, k + 1));
        }
        k = k + 1;
    }
    out
}

/// The header of one line, if it has a colon.
fn parse_header_line(l: &str) -> (r: Option<(String, String)>)
    ensures
        match (r, header_line(l@)) {
            (Some((k, v)), Some((k2, v2))) => k@ == k2 && v@ == v2,
            (None, None) => true,
            _ => false,
        },
{
    let n = l.unicode_len();
    let mut i: usize = 0;
    while i < n
        invariant
            n == l@.len(),
            i <= n,
            forall|j: int| 0 <= j < i ==> l@[j] != ':',
        decreases n - i,
    {
        if l.get_char(i) == ':' {
            proof {
                lemma_first_index(l@, ':', i as int);
            }
            let key = substring(l, 0, i);
            let value = substring(l, i + 1, n);
            proof {
                assert(key@ =~= l@.take(i as int));
                assert(value@ =~= l@.skip(i + 1));
            }
            return Some((trim(key.as_str()), trim(value.as_str())));
        }
        i = i + 1;
    }
    proof {
        lemma_first_index_none(l@, ':');
    }
    None
}

/// `str::lines`, collected.
pub fn lines(s: &str) -> (r: Vec<String>)
    ensures
        r@.map_values(|x: String| x@) == lines_spec(s@),
{
    let parts = split_char(s, '\n');
    let ghost ps = parts@.map_values(|x: String| x@);
    proof {
        assert(ps.len() == parts@.len());
        crate::text::lemma_split_nonempty(s@, '\n');
    }
    let last_empty = parts[parts.len() - 1].unicode_len() == 0;
    let count = if last_empty {
        parts.len() - 1
    } else {
        parts.len()
    };
    let ghost kept = if ps.last().len() == 0 {
        ps.drop_last()
    } else {
        ps
    };
    proof {
        assert(ps.last() == parts@[parts@.len() - 1]@);
        assert(kept.len() == count);
    }
    let mut out: Vec<String> = Vec::new();
    let mut i: usize = 0;
    while i < count
        invariant
            0 <= i <= count <= parts@.len(),
            ps == parts@.map_values(|x: String| x@),
            kept.len() == count,
            forall|j: int| 0 <= j < count ==> kept[j] == ps[j],
            out@.map_values(|x: String| x@) == kept.take(i as int).map_values(
                |l: Seq<char>| if l.len() > 0 && l.last() == '\r' {
                    l.drop_last()
                } else {
                    l
                },
            ),
        decreases count - i,
    {
        let p = &parts[i];
        let m = p.unicode_len();
        let line = if m > 0 && p.get_char(m - 1) == '\r' {
            substring(p.as_str(), 0, m - 1)
        } else {
            substring(p.as_str(), 0, m)
        };
        let ghost before = out@.map_values(|x: String| x@);
        out.push(line);
        proof {
            assert(kept[i as int] == p@);
            assert(p@.subrange(0, m as int) =~= p@);
            assert(p@.subrange(0, m - 1) =~= p@.drop_last());
            assert(kept.take(i + 1) =~= kept.take(i as int).push(kept[i as int]));
            assert(line@ == (if p@.len() > 0 && p@.last() == '\r' {
                p@.drop_last()
            } else {
                p@
            }));
            assert(out@.map_values(|x: String| x@) =~= before.push(line@));
            assert(out@.map_values(|x: String| x@) =~= kept.take(i + 1).map_values(
                |l: Seq<char>| if l.len() > 0 && l.last() == '\r' {
                    l.drop_last()
                } else {
                    l
                },
            ));
        }
        i = i + 1;
    }
    proof {
        assert(kept.take(count as int) =~= kept);
    }
    out
}

/// Headers given as a string: each `key: value` line sets `key`, a later line
/// overriding an earlier one; lines without a colon are skipped.
pub fn parse_header_lines(s: &str) -> (m: HeaderMap)
    ensures
        m.wf(),
        forall|k: Seq<char>| m.get_spec(k) == lookup_header(header_lines(lines_spec(s@)), k),
{
    let ls = lines(s);
    let ghost lv = ls@.map_values(|x: String| x@);
    let mut m = HeaderMap::new();
    let mut i: usize = 0;
    while i < ls.len()
        invariant
            0 <= i <= ls@.len(),
            lv == ls@.map_values(|x: String| x@),
            lv == lines_spec(s@),
            m.wf(),
            forall|k: Seq<char>| m.get_spec(k) == lookup_header(header_lines(lv.take(i as int)), k),
        decreases ls@.len() - i,
    {
        let h = parse_header_line(ls[i].as_str());
        proof {
            assert(lv.take(i + 1).drop_last() =~= lv.take(i as int));
            assert(lv.take(i + 1).last() == ls@[i as int]@);
        }
        match h {
            Some((k, v)) => {
                let ghost kv = k@;
                let ghost vv = v@;
                m.insert(k, v);
                proof {
                    let hs = header_lines(lv.take(i + 1));
                    assert(hs == header_lines(lv.take(i as int)).push((kv, vv)));
                    assert(hs.drop_last() =~= header_lines(lv.take(i as int)));
                }
            },
            None => {},
        }
        i = i + 1;
    }
    proof {
        assert(lv.take(ls@.len() as int) =~= lv);
    }
    m
}

/// Headers from `[name, value]` pairs or an object's properties: names are
/// lower-cased, and a later pair overrides an earlier one.
pub fn headers_from_pairs(pairs: &Vec<(String, String)>) -> (m: HeaderMap)
    ensures
        m.wf(),
        forall|k: Seq<char>| m.get_spec(k) == lookup_header(
            pairs@.map_values(|p: (String, String)| (unicode_lowercase(p.0@), p.1@)),
            k,
        ),
{
    let ghost pv = pairs@.map_values(|p: (String, String)| (unicode_lowercase(p.0@), p.1@));
    let mut m = HeaderMap::new();
    let mut i: usize = 0;
    while i < pairs.len()
        invariant
            0 <= i <= pairs@.len(),
            pv == pairs@.map_values(|p: (String, String)| (unicode_lowercase(p.0@), p.1@)),
            m.wf(),
            forall|k: Seq<char>| m.get_spec(k) == lookup_header(pv.take(i as int), k),
        decreases pairs@.len() - i,
    {
        let name = to_lowercase(pairs[i].0.as_str());
        let value = pairs[i].1.clone();
        m.insert(name, value);
        proof {
            assert(pv.take(i + 1).drop_last() =~= pv.take(i as int));
            assert(pv.take(i + 1).last() == pv[i as int]);
        }
        i = i + 1;
    }
    proof {
        assert(pv.take(pairs@.len() as int) =~= pv);
    }
    m
}

/// Internal data of a `Request`.
pub struct RequestData {
    pub url: String,
    pub method: String,
    pub headers: HeaderMap,
    pub body: Option<String>,
    pub mode: String,
    pub credentials: String,
}

/// Why a URL was refused.
#[derive(Debug, Clone, Copy, PartialEq, Eq, Structural)]
pub enum InvalidUrl {
    InvalidUrl,
}

impl Request {
    /// `new Request(url)`: the URL must parse; the request is a plain GET.
    pub fn construct(url: String) -> (r: Result<RequestData, InvalidUrl>)
        ensures
            url_parts(url@) is None ==> r == Err::<RequestData, InvalidUrl>(InvalidUrl::InvalidUrl),
            url_parts(url@) is Some ==> (r matches Ok(d) && {
                &&& d.url@ == url@
                &&& d.method@ == "GET"@
                &&& d.headers.wf() && d.headers.pairs().len() == 0
                &&& d.body is None
                &&& d.mode@ == "cors"@
                &&& d.credentials@ == "same-origin"@
            }),
    {
        if parse_url_parts(url.as_str()).is_none() {
            return Err(InvalidUrl::InvalidUrl);
        }
        Ok(
            RequestData {
                url,
                method: "GET".to_owned(),
                headers: HeaderMap::new(),
                body: None,
                mode: "cors".to_owned(),
                credentials: "same-origin".to_owned(),
            },
        )
    }
}

/// Internal data of a `Response`.
pub struct ResponseData {
    pub body: Option<String>,
    pub status: u16,
    pub status_text: String,
    pub headers: HeaderMap,
    pub url: String,
}

pub open spec fn status_ok(status: u16) -> bool {
    200 <= status && status < 300
}

/// The status and status text of `new Response(body, init)`: 200 when no
/// status is given; the text given, else `OK` for a 2xx status and empty
/// otherwise.
pub open spec fn response_init_spec(status: Option<u16>, status_text: Option<Seq<char>>) -> (u16, Seq<char>) {
    let st = match status {
        Some(s) => s,
        None => 200,
    };
    (st, match status_text {
        Some(t) => t,
        None => if status_ok(st) {
            "OK"@
        } else {
            Seq::empty()
        },
    })
}

impl ResponseData {
    /// `ok`: the status is in 200..=299.
    pub fn ok(&self) -> (r: bool)
        ensures
            r == status_ok(self.status),
    {
        self.status >= 200 && self.status < 300
    }

    /// `text()`: the body, or the empty string.
    pub fn text(&self) -> (r: &str)
        ensures
            r@ == match self.body {
                Some(b) => b@,
                None => Seq::empty(),
            },
    {
        match &self.body {
            Some(b) => b.as_str(),
            None => {
                proof {
                    reveal_strlit("");
                }
                ""
            },
        }
    }
}

/// Why `json()` has nothing to parse.
#[derive(Debug, Clone, Copy, PartialEq, Eq, Structural)]
pub enum JsonBodyError {
    /// The response has no body.
    NullBody,
}

impl ResponseData {
    /// The text `json()` parses: the body, refused when there is none.
    pub fn json_source(&self) -> (r: Result<&str, JsonBodyError>)
        ensures
            match self.body {
                Some(b) => r matches Ok(t) && t@ == b@,
                None => r == Err::<&str, JsonBodyError>(JsonBodyError::NullBody),
            },
    {
        match &self.body {
            Some(b) => Ok(b.as_str()),
            None => Err(JsonBodyError::NullBody),
        }
    }
}

impl Response {
    /// `new Response(body, init)` once `status` and `statusText` were read
    /// from the init object.
    pub fn construct(body: Option<String>, status: Option<u16>, status_text: Option<String>) -> (r: ResponseData)
        ensures
            r.body == body,
            (r.status, r.status_text@) == response_init_spec(status, match status_text {
                Some(t) => Some(t@),
                None => None,
            }),
            r.headers.wf() && r.headers.pairs().len() == 0,
            r.url@ == Seq::<char>::empty(),
    {
        let st = match status {
            Some(s) => s,
            None => 200,
        };
        let text = match status_text {
            Some(t) => t,
            None => if st >= 200 && st < 300 {
                "OK".to_owned()
            } else {
                String::new()
            },
        };
        ResponseData { body, status: st, status_text: text, headers: HeaderMap::new(), url: String::new() }
    }
}

/// The response type of a fetch: `opaque` for `no-cors`, `cors` when the
/// response carries `Access-Control-Allow-Origin`, `basic` otherwise.
pub fn response_type(mode: &str, has_allow_origin: bool) -> (r: &'static str)
    ensures
        r@ == (if mode@ == "no-cors"@ {
            "opaque"@
        } else if has_allow_origin {
            "cors"@
        } else {
            "basic"@
        }),
{
    if str_eq(mode, "no-cors") {
        "opaque"
    } else if has_allow_origin {
        "cors"
    } else {
        "basic"
    }
}

/// The origin of a parsed URL: scheme, host and port (the scheme's default
/// port when the URL has none: 443 for https, 80 otherwise).
pub open spec fn origin_of(p: (Seq<char>, Option<Seq<char>>, Option<u16>)) -> Option<(Seq<char>, Seq<char>, u16)> {
    match p.1 {
        Some(h) => Some((p.0, h, match p.2 {
            Some(port) => port,
            None => if p.0 == "https"@ {
                443
            } else {
                80
            },
        })),
        None => None,
    }
}

/// Whether two URLs have the same origin (scheme, host, port); a URL that
/// does not parse or has no host matches nothing.
pub open spec fn same_origin_spec(a: Seq<char>, b: Seq<char>) -> bool {
    match (url_parts(a), url_parts(b)) {
        (Some(pa), Some(pb)) => match (origin_of(pa), origin_of(pb)) {
            (Some(oa), Some(ob)) => oa == ob,
            _ => false,
        },
        _ => false,
    }
}

fn origin(u: &str) -> (r: Option<(String, String, u16)>)
    ensures
        match (r, url_parts(u@)) {
            (Some((s, h, p)), Some(q)) => origin_of(q) == Some((s@, h@, p)),
            (None, Some(q)) => origin_of(q) is None,
            (None, None) => true,
            _ => false,
        },
{
    match parse_url_parts(u) {
        Some((scheme, host, port)) => match host {
            Some(h) => {
                let p = match port {
                    Some(p) => p,
                    None => if str_eq(scheme.as_str(), "https") {
                        443
                    } else {
                        80
                    },
                };
                Some((scheme, h, p))
            },
            None => None,
        },
        None => None,
    }
}

/// Whether two URLs have the same origin.
pub fn same_origin(url_a: &str, url_b: &str) -> (r: bool)
    ensures
        r == same_origin_spec(url_a@, url_b@),
{
    match (origin(url_a), origin(url_b)) {
        (Some((sa, ha, pa)), Some((sb, hb, pb))) => str_eq(sa.as_str(), sb.as_str()) && str_eq(ha.as_str(), hb.as_str())
            && pa == pb,
        _ => false,
    }
}

/// The host a preflight is cached under: the URL's host, or the empty string.
pub fn preflight_cache_host(url: &str) -> (r: String)
    ensures
        r@ == match url_parts(url@) {
            Some((_, Some(h), _)) => h,
            _ => Seq::empty(),
        },
{
    match parse_url_parts(url) {
        Some((_, Some(h), _)) => h,
        _ => String::new(),
    }
}

/// The max age a preflight response asks for (5 seconds by default).
pub open spec fn max_age_spec(header: Option<&str>) -> u64 {
    match header {
        Some(h) => match parse_u64_spec(h@) {
            Some(n) => n,
            None => 5,
        },
        None => 5,
    }
}

/// Handle the response to a CORS preflight made at `now`: when CORS is
/// enforced, a refusal ends the fetch; otherwise (or when it passed) the
/// preflight is cached for its max age.
pub fn complete_preflight(
    cache: &mut PreflightCache,
    host: String,
    method: &str,
    now: u64,
    status: u16,
    allow_methods: Option<&str>,
    allow_headers: Option<&str>,
    max_age_header: Option<&str>,
    custom: &Vec<String>,
    strict: bool,
) -> (r: Result<(), CorsError>)
    requires
        old(cache).wf(),
    ensures
        final(cache).wf(),
        r == preflight_verdict(status, method@, or_empty(allow_methods), or_empty(allow_headers), custom@.map_values(|x: String| x@), strict),
        r is Err ==> final(cache)@ == old(cache)@,
        r is Ok && max_age_spec(max_age_header) > 0 && now < u64::MAX ==> lookup_expiry(final(cache)@, host@, method@) == Some(
            expiry_at(now, max_age_spec(max_age_header)),
        ),
        r is Ok && max_age_spec(max_age_header) == 0 ==> final(cache)@ == old(cache)@,
        forall|h: Seq<char>, m: Seq<char>, t: u64|
            now <= t && !(h == host@ && m == method@) ==> fresh_in(final(cache)@, h, m, t) == fresh_in(
                old(cache)@,
                h,
                m,
                t,
            ),
{
    let verdict = check_preflight(status, method, allow_methods, allow_headers, custom, strict);
    if verdict.is_err() {
        return verdict;
    }
    let max_age = preflight_max_age(max_age_header);
    cache.record(host, method.to_owned(), now, max_age);
    verdict
}

impl ResponseData {
    /// The response of a fetch that reached the network: its type is
    /// `opaque`, `cors` or `basic` by the request mode and whether the
    /// response carries `access-control-allow-origin`.
    pub fn from_network(status: u16, status_text: String, headers: HeaderMap, body: String, url: String, mode: &str) -> (r: (
        ResponseData,
        &'static str,
    ))
        requires
            headers.wf(),
        ensures
            r.0.status == status,
            r.0.status_text@ == status_text@,
            r.0.body matches Some(b) && b@ == body@,
            r.0.url@ == url@,
            r.0.headers.pairs() == headers.pairs(),
            r.1@ == (if mode@ == "no-cors"@ {
                "opaque"@
            } else if headers.get_spec("access-control-allow-origin"@) is Some {
                "cors"@
            } else {
                "basic"@
            }),
    {
        let has_acao = headers.contains_key("access-control-allow-origin");
        let t = response_type(mode, has_acao);
        (ResponseData { body: Some(body), status, status_text, headers, url }, t)
    }
}

/// How the network part of a fetch failed.
#[derive(Debug, Clone, Copy, PartialEq, Eq, Structural)]
pub enum TransportFailure {
    /// The request could not be sent or was not answered.
    Request,
    /// The reply came but its body could not be read.
    Body,
}

/// The message of the `TypeError` a fetch's promise is rejected with when
/// its network part fails with `detail`.
pub open spec fn failure_message(kind: TransportFailure, detail: Seq<char>) -> Seq<char> {
    match kind {
        TransportFailure::Request => "Fetch request failed: "@ + detail,
        TransportFailure::Body => "Failed to read response body: "@ + detail,
    }
}

/// What a fetch's promise settles with, given what the network answered:
/// a reply (status, status text, headers, body) fulfils it with the
/// response and its type; a failure rejects it with a `TypeError` whose
/// message is returned.
pub fn settle_fetch(
    reply: Result<(u16, String, HeaderMap, String), (TransportFailure, String)>,
    url: String,
    mode: &str,
) -> (r: Result<(ResponseData, &'static str), String>)
    requires
        reply matches Ok(t) ==> t.2.wf(),
    ensures
        match reply {
            Ok((status, status_text, headers, body)) => r matches Ok((d, t)) && {
                &&& d.status == status
                &&& d.status_text@ == status_text@
                &&& d.body matches Some(b) && b@ == body@
                &&& d.url@ == url@
                &&& d.headers.pairs() == headers.pairs()
                &&& t@ == (if mode@ == "no-cors"@ {
                    "opaque"@
                } else if headers.get_spec("access-control-allow-origin"@) is Some {
                    "cors"@
                } else {
                    "basic"@
                })
            },
            Err((kind, detail)) => r matches Err(m) && m@ == failure_message(kind, detail@),
        },
{
    match reply {
        Ok((status, status_text, headers, body)) => Ok(ResponseData::from_network(status, status_text, headers, body, url, mode)),
        Err((kind, detail)) => {
            let mut m = match kind {
                TransportFailure::Request => "Fetch request failed: ".to_string(),
                TransportFailure::Body => "Failed to read response body: ".to_string(),
            };
            m.append(detail.as_str());
            Err(m)
        },
    }
}

/// What `fetch()` sends first.
pub enum FetchStep {
    /// A CORS preflight: an `OPTIONS` request with
    /// `Access-Control-Request-Method` and, when there are custom headers,
    /// `Access-Control-Request-Headers`.
    SendPreflight { request_method: String, request_headers: Option<String>, custom: Vec<String> },
    /// The request itself.
    SendRequest,
}

/// A fetch about to go out: its URL, options, and the host its preflight is
/// cached under.
pub struct FetchPlan {
    pub url: String,
    pub init: FetchInit,
    pub cache_host: String,
}

/// Why `fetch()` failed before sending anything, or after a preflight.
#[derive(Debug, Clone, Copy, PartialEq, Eq, Structural)]
pub enum FetchError {
    /// The URL does not parse (a `TypeError`).
    InvalidUrl,
    /// The preflight request itself failed and CORS is enforced.
    PreflightFailed,
}

/// Start a `fetch(url, init)` at time `now`: check the URL, take the options
/// (the defaults when there is no init object), and decide whether a
/// preflight goes first.
pub fn plan_fetch(url: String, init: Option<FetchInit>, cache: &PreflightCache, now: u64) -> (r: Result<(FetchPlan, FetchStep), FetchError>)
    requires
        cache.wf(),
        init matches Some(i) ==> i.headers.wf(),
    ensures
        url_parts(url@) is None ==> r == Err::<(FetchPlan, FetchStep), FetchError>(FetchError::InvalidUrl),
        url_parts(url@) is Some ==> (r matches Ok((plan, step)) && {
            let host = match url_parts(url@) {
                Some((_, Some(h), _)) => h,
                _ => Seq::<char>::empty(),
            };
            &&& plan.url@ == url@
            &&& plan.cache_host@ == host
            &&& plan.init.headers.wf()
            &&& (init is None ==> plan.init.method@ == "GET"@ && plan.init.mode@ == "cors"@ && plan.init.headers.pairs().len() == 0
                && plan.init.body is None)
            &&& (init matches Some(i) ==> plan.init.method@ == i.method@ && plan.init.mode@ == i.mode@
                && plan.init.headers.pairs() == i.headers.pairs() && plan.init.body == i.body)
            &&& match step {
                FetchStep::SendPreflight { request_method, request_headers, custom } => {
                    &&& plan.init.mode@ == "cors"@
                    &&& !simple_request(plan.init.method@, plan.init.headers.pairs())
                    &&& !cache.fresh(host, plan.init.method@, now)
                    &&& request_method@ == plan.init.method@
                    &&& custom@.map_values(|x: String| x@) == custom_header_names(plan.init.headers.pairs())
                    &&& match request_headers {
                        Some(v) => custom@.len() > 0 && v@ == join_comma(custom@.map_values(|x: String| x@)),
                        None => custom@.len() == 0,
                    }
                },
                FetchStep::SendRequest => !(plan.init.mode@ == "cors"@ && !simple_request(
                    plan.init.method@,
                    plan.init.headers.pairs(),
                ) && !cache.fresh(host, plan.init.method@, now)),
            }
        }),
{
    if parse_url_parts(url.as_str()).is_none() {
        return Err(FetchError::InvalidUrl);
    }
    let init = match init {
        Some(i) => i,
        None => FetchInit::defaults(),
    };
    let cache_host = preflight_cache_host(url.as_str());
    let cached = cache.is_fresh(cache_host.as_str(), init.method.as_str(), now);
    let step = if needs_preflight(init.mode.as_str(), init.method.as_str(), &init.headers, cached) {
        let custom = custom_request_headers(&init.headers);
        let request_headers = if custom.len() == 0 {
            None
        } else {
            Some(request_headers_value(&custom))
        };
        FetchStep::SendPreflight { request_method: init.method.clone(), request_headers, custom }
    } else {
        FetchStep::SendRequest
    };
    Ok((FetchPlan { url, init, cache_host }, step))
}

/// An HTTP `tchar`: a letter, a digit or one of ``!#$%&'*+-.^_`|~``.
pub open spec fn is_tchar(c: char) -> bool {
    ||| ('0' <= c && c <= '9')
    ||| ('a' <= c && c <= 'z')
    ||| ('A' <= c && c <= 'Z')
    ||| c == '!' || c == '#' || c == '$' || c == '%' || c == '&' || c == '\'' || c == '*'
    ||| c == '+' || c == '-' || c == '.' || c == '^' || c == '_' || c == '`' || c == '|' || c == '~'
}

/// An HTTP token: one or more `tchar`s; these are the method names the HTTP
/// client accepts.
pub open spec fn http_token(s: Seq<char>) -> bool {
    s.len() > 0 && forall|i: int| 0 <= i < s.len() ==> is_tchar(#[trigger] s[i])
}

fn char_is_tchar(c: char) -> (r: bool)
    ensures
        r == is_tchar(c),
{
    ('0' <= c && c <= '9') || ('a' <= c && c <= 'z') || ('A' <= c && c <= 'Z') || c == '!' || c == '#' || c == '$'
        || c == '%' || c == '&' || c == '\'' || c == '*' || c == '+' || c == '-' || c == '.' || c == '^' || c == '_'
        || c == '`' || c == '|' || c == '~'
}

/// The method a request goes out with: the given method when it is an HTTP
/// token, `GET` otherwise (an empty or malformed method falls back to `GET`).
pub fn request_method(method: &str) -> (r: String)
    ensures
        r@ == (if http_token(method@) {
            method@
        } else {
            "GET"@
        }),
{
    let n = method.unicode_len();
    let mut i: usize = 0;
    let mut ok = n > 0;
    while i < n
        invariant
            n == method@.len(),
            i <= n,
            ok == (n > 0 && forall|j: int| 0 <= j < i ==> is_tchar(#[trigger] method@[j])),
        decreases n - i,
    {
        let c = method.get_char(i);
        if !char_is_tchar(c) {
            ok = false;
        }
        i = i + 1;
    }
    if ok {
        method.to_string()
    } else {
        "GET".to_string()
    }
}

/// The preflight request itself failed: an error when CORS is enforced,
/// otherwise the fetch goes on.
pub fn preflight_request_failed(strict: bool) -> (r: Result<(), FetchError>)
    ensures
        r == (if strict {
            Err(FetchError::PreflightFailed)
        } else {
            Ok(())
        }),
{
    if strict {
        Err(FetchError::PreflightFailed)
    } else {
        Ok(())
    }
}

} // verus!
