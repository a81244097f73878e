//! CORS decisions of `fetch()`: which requests are simple, which headers a
//! preflight must announce, whether a preflight response allows the request,
//! how long a successful preflight is cached, and whether CORS is enforced.
use vstd::prelude::*;

use super::headers::HeaderMap;
use crate::text::{
    all_ascii, ascii_lower_seq, eq_ignore_ascii_case, is_prefix, split_char, split_on, starts_with,
    str_eq, to_lowercase, to_uppercase, trim, trim_spec, unicode_lowercase, unicode_uppercase,
};

verus! {

/// GET, HEAD and POST need no preflight.
pub open spec fn simple_method(m: Seq<char>) -> bool {
    m == "GET"@ || m == "HEAD"@ || m == "POST"@
}

/// The request headers a simple request may carry (lower-case names).
pub open spec fn safelisted_header(k: Seq<char>) -> bool {
    k == "accept"@ || k == "accept-language"@ || k == "content-language"@ || k == "content-type"@
}

/// Content types a simple request may declare (by prefix, lower-cased).
pub open spec fn simple_content_type(v: Seq<char>) -> bool {
    is_prefix("application/x-www-form-urlencoded"@, v) || is_prefix("multipart/form-data"@, v) || is_prefix(
        "text/plain"@,
        v,
    )
}

/// Whether one header keeps a request simple. `User-Agent` is always added by
/// the engine and never counts.
pub open spec fn header_keeps_simple(k: Seq<char>, v: Seq<char>) -> bool {
    let kl = unicode_lowercase(k);
    kl == "user-agent"@ || (safelisted_header(kl) && (kl == "content-type"@ ==> simple_content_type(
        unicode_lowercase(v),
    )))
}

/// A CORS "simple request": a simple method and only simple headers.
pub open spec fn simple_request(m: Seq<char>, hs: Seq<(Seq<char>, Seq<char>)>) -> bool {
    simple_method(m) && forall|i: int| 0 <= i < hs.len() ==> #[trigger] header_keeps_simple(hs[i].0, hs[i].1)
}

fn is_simple_method(m: &str) -> (r: bool)
    ensures
        r == simple_method(m@),
{
    str_eq(m, "GET") || str_eq(m, "HEAD") || str_eq(m, "POST")
}

fn header_simple(k: &str, v: &str) -> (r: bool)
    ensures
        r == header_keeps_simple(k@, v@),
{
    let kl = to_lowercase(k);
    if str_eq(kl.as_str(), "user-agent") {
        return true;
    }
    let safe = str_eq(kl.as_str(), "accept") || str_eq(kl.as_str(), "accept-language") || str_eq(
        kl.as_str(),
        "content-language",
    ) || str_eq(kl.as_str(), "content-type");
    if !safe {
        return false;
    }
    if str_eq(kl.as_str(), "content-type") {
        let vl = to_lowercase(v);
        starts_with(vl.as_str(), "application/x-www-form-urlencoded") || starts_with(vl.as_str(), "multipart/form-data")
            || starts_with(vl.as_str(), "text/plain")
    } else {
        true
    }
}

/// Whether a request needs no CORS preflight.
pub fn is_cors_simple_request(method: &str, headers: &HeaderMap) -> (r: bool)
    ensures
        r == simple_request(method@, headers.pairs()),
{
    if !is_simple_method(method) {
        return false;
    }
    let n = headers.len();
    let mut i: usize = 0;
    while i < n
        invariant
            n == headers.pairs().len(),
            i <= n,
            forall|j: int| 0 <= j < i ==> #[trigger] header_keeps_simple(headers.pairs()[j].0, headers.pairs()[j].1),
        decreases n - i,
    {
        let (k, v) = headers.entry(i);
        if !header_simple(k, v) {
            proof {
                assert(!header_keeps_simple(headers.pairs()[i as int].0, headers.pairs()[i as int].1));
            }
            return false;
        }
        i = i + 1;
    }
    true
}

/// The five names a preflight does not announce (lower-case).
pub open spec fn preflight_safelisted(k: Seq<char>) -> bool {
    safelisted_header(k) || k == "user-agent"@
}

/// The headers a preflight announces in `Access-Control-Request-Headers`:
/// those whose lower-cased name is not safelisted, in the map's order.
pub open spec fn custom_header_names(hs: Seq<(Seq<char>, Seq<char>)>) -> Seq<Seq<char>>
    decreases hs.len(),
{
    if hs.len() == 0 {
        Seq::empty()
    } else {
        let prev = custom_header_names(hs.drop_last());
        if preflight_safelisted(unicode_lowercase(hs.last().0)) {
            prev
        } else {
            prev.push(hs.last().0)
        }
    }
}

/// The custom headers of a request.
pub fn custom_request_headers(headers: &HeaderMap) -> (r: Vec<String>)
    ensures
        r@.map_values(|x: String| x@) == custom_header_names(headers.pairs()),
{
    let n = headers.len();
    let mut out: Vec<String> = Vec::new();
    let mut i: usize = 0;
    while i < n
        invariant
            n == headers.pairs().len(),
            i <= n,
            out@.map_values(|x: String| x@) == custom_header_names(headers.pairs().take(i as int)),
        decreases n - i,
    {
        let (k, _v) = headers.entry(i);
        let kl = to_lowercase(k);
        let safe = str_eq(kl.as_str(), "accept") || str_eq(kl.as_str(), "accept-language") || str_eq(
            kl.as_str(),
            "content-language",
        ) || str_eq(kl.as_str(), "content-type") || str_eq(kl.as_str(), "user-agent");
        let ghost before = out@.map_values(|x: String| x@);
        proof {
            assert(headers.pairs().take(i + 1).drop_last() =~= headers.pairs().take(i as int));
            assert(headers.pairs().take(i + 1).last() == headers.pairs()[i as int]);
        }
        if !safe {
            out.push(k.to_owned());
            proof {
                assert(out@.map_values(|x: String| x@) =~= before.push(k@));
            }
        }
        i = i + 1;
    }
    proof {
        assert(headers.pairs().take(n as int) =~= headers.pairs());
    }
    out
}

/// Pieces joined with `", "`.
pub open spec fn join_comma(parts: Seq<Seq<char>>) -> Seq<char>
    decreases parts.len(),
{
    if parts.len() == 0 {
        Seq::empty()
    } else if parts.len() == 1 {
        parts[0]
    } else {
        join_comma(parts.drop_last()) + ", "@ + parts.last()
    }
}

/// The `Access-Control-Request-Headers` value for the custom headers.
pub fn request_headers_value(custom: &Vec<String>) -> (r: String)
    ensures
        r@ == join_comma(custom@.map_values(|x: String| x@)),
{
    let ghost cs = custom@.map_values(|x: String| x@);
    let mut out = String::new();
    let mut i: usize = 0;
    while i < custom.len()
        invariant
            0 <= i <= custom@.len(),
            cs == custom@.map_values(|x: String| x@),
            out@ == join_comma(cs.take(i as int)),
        decreases custom@.len() - i,
    {
        proof {
            assert(cs.take(i + 1).drop_last() =~= cs.take(i as int));
            assert(cs.take(i + 1).last() == custom@[i as int]@);
        }
        if i > 0 {
            out.append(", ");
        }
        out.append(custom[i].as_str());
        proof {
            if i == 0 {
                assert(out@ =~= cs.take(1)[0]);
            }
        }
        i = i + 1;
    }
    proof {
        assert(cs.take(custom@.len() as int) =~= cs);
    }
    out
}

/// Whether some piece of a comma-separated list, trimmed, matches `m` ignoring
/// ASCII case.
pub open spec fn list_has_method(list: Seq<char>, m: Seq<char>) -> bool {
    exists|i: int| 0 <= i < split_on(list, ',').len() && ascii_lower_seq(trim_spec(#[trigger] split_on(list, ',')[i]))
        == ascii_lower_seq(m)
}

proof fn lemma_list_has_method(list: Seq<char>, m: Seq<char>, i: int)
    requires
        0 <= i < split_on(list, ',').len(),
        ascii_lower_seq(trim_spec(split_on(list, ',')[i])) == ascii_lower_seq(m),
    ensures
        list_has_method(list, m),
{
}

/// Whether a preflight's `Access-Control-Allow-Methods` lets `method`
/// through: `*`, a listed method (ASCII case-insensitive), or a simple method.
pub open spec fn method_allowed_spec(method: Seq<char>, allow: Seq<char>) -> bool {
    let up = unicode_uppercase(method);
    allow == "*"@ || list_has_method(allow, up) || simple_method(up)
}

/// Decide the method check of a preflight response.
pub fn preflight_method_allowed(method: &str, allow_methods: &str) -> (r: bool)
    ensures
        r == method_allowed_spec(method@, allow_methods@),
{
    let up = to_uppercase(method);
    if str_eq(allow_methods, "*") {
        return true;
    }
    let parts = split_char(allow_methods, ',');
    let ghost ps = parts@.map_values(|x: String| x@);
    let mut i: usize = 0;
    while i < parts.len()
        invariant
            0 <= i <= parts@.len(),
            ps == parts@.map_values(|x: String| x@),
            ps == split_on(allow_methods@, ','),
            up@ == unicode_uppercase(method@),
            allow_methods@ != "*"@,
            forall|j: int| 0 <= j < i ==> ascii_lower_seq(trim_spec(#[trigger] ps[j])) != ascii_lower_seq(up@),
        decreases parts@.len() - i,
    {
        let t = trim(parts[i].as_str());
        if eq_ignore_ascii_case(t.as_str(), up.as_str()) {
            proof {
                assert(ps[i as int] == parts@[i as int]@);
                assert(ps.len() == parts@.len());
                assert(i < split_on(allow_methods@, ',').len());
                assert(ascii_lower_seq(trim_spec(split_on(allow_methods@, ',')[i as int])) == ascii_lower_seq(up@));
                lemma_list_has_method(allow_methods@, up@, i as int);
            }
            return true;
        }
        proof {
            assert(ps[i as int] == parts@[i as int]@);
        }
        i = i + 1;
    }
    is_simple_method(up.as_str())
}

/// The lower-cased, trimmed pieces of an `Access-Control-Allow-Headers` value.
pub open spec fn allowed_header_set(allow: Seq<char>) -> Seq<Seq<char>> {
    split_on(allow, ',').map_values(|p: Seq<char>| unicode_lowercase(trim_spec(p)))
}

/// Whether a preflight's `Access-Control-Allow-Headers` covers the custom
/// headers: trivially when there are none, `*`, or every custom header (lower-
/// cased) listed.
pub open spec fn headers_allowed_spec(custom: Seq<Seq<char>>, allow: Seq<char>) -> bool {
    custom.len() == 0 || allow == "*"@ || forall|i: int|
        0 <= i < custom.len() ==> allowed_header_set(allow).contains(unicode_lowercase(#[trigger] custom[i]))
}

/// Decide the header check of a preflight response.
pub fn preflight_headers_allowed(custom: &Vec<String>, allow_headers: &str) -> (r: bool)
    ensures
        r == headers_allowed_spec(custom@.map_values(|x: String| x@), allow_headers@),
{
    let ghost cs = custom@.map_values(|x: String| x@);
    if custom.len() == 0 {
        return true;
    }
    if str_eq(allow_headers, "*") {
        return true;
    }
    let parts = split_char(allow_headers, ',');
    let ghost ps = parts@.map_values(|x: String| x@);
    let mut allowed: Vec<String> = Vec::new();
    let mut i: usize = 0;
    while i < parts.len()
        invariant
            0 <= i <= parts@.len(),
            ps == parts@.map_values(|x: String| x@),
            ps == split_on(allow_headers@, ','),
            allowed@.map_values(|x: String| x@) == ps.take(i as int).map_values(
                |p: Seq<char>| unicode_lowercase(trim_spec(p)),
            ),
        decreases parts@.len() - i,
    {
        let t = trim(parts[i].as_str());
        let l = to_lowercase(t.as_str());
        let ghost before = allowed@.map_values(|x: String| x@);
        allowed.push(l);
        proof {
            assert(ps[i as int] == parts@[i as int]@);
            assert(ps.take(i + 1) =~= ps.take(i as int).push(ps[i as int]));
            assert(allowed@.map_values(|x: String| x@) =~= before.push(unicode_lowercase(trim_spec(ps[i as int]))));
            assert(allowed@.map_values(|x: String| x@) =~= ps.take(i + 1).map_values(
                |p: Seq<char>| unicode_lowercase(trim_spec(p)),
            ));
        }
        i = i + 1;
    }
    proof {
        assert(ps.take(parts@.len() as int) =~= ps);
    }
    let ghost set = allowed@.map_values(|x: String| x@);
    assert(set == allowed_header_set(allow_headers@));
    let mut k: usize = 0;
    while k < custom.len()
        invariant
            0 <= k <= custom@.len(),
            cs == custom@.map_values(|x: String| x@),
            set == allowed@.map_values(|x: String| x@),
            set == allowed_header_set(allow_headers@),
            allow_headers@ != "*"@,
            cs.len() > 0,
            forall|j: int| 0 <= j < k ==> set.contains(unicode_lowercase(#[trigger] cs[j])),
        decreases custom@.len() - k,
    {
        let h = to_lowercase(custom[k].as_str());
        let mut found = false;
        let mut m: usize = 0;
        while m < allowed.len()
            invariant_except_break
                !found,
            invariant
                0 <= m <= allowed@.len(),
                set == allowed@.map_values(|x: String| x@),
                forall|j: int| 0 <= j < m ==> set[j] != h@,
            ensures
                found ==> set.contains(h@),
                !found ==> forall|j: int| 0 <= j < set.len() ==> set[j] != h@,
            decreases allowed@.len() - m,
        {
            if str_eq(allowed[m].as_str(), h.as_str()) {
                proof {
                    assert(set[m as int] == h@);
                }
                found = true;
                break;
            }
            m = m + 1;
        }
        proof {
            assert(cs[k as int] == custom@[k as int]@);
        }
        if !found {
            proof {
                assert(h@ == unicode_lowercase(cs[k as int]));
                assert(!set.contains(h@));
                assert(!set.contains(unicode_lowercase(cs[k as int])));
                assert(cs.len() > 0);
                assert(allow_headers@ != "*"@);
                assert(!headers_allowed_spec(cs, allow_headers@));
            }
            return false;
        }
        k = k + 1;
    }
    true
}

/// Why a strict CORS check refused a preflight.
#[derive(Debug, Clone, Copy, PartialEq, Eq, Structural)]
pub enum CorsError {
    /// The preflight answered outside 2xx.
    Status(u16),
    /// The method is not allowed.
    MethodNotAllowed,
    /// Some custom header is not allowed.
    HeadersNotAllowed,
}

/// The verdict on a preflight response. A missing allow header counts as
/// empty; failures are only errors when CORS is enforced (`strict`).
pub open spec fn preflight_verdict(
    status: u16,
    method: Seq<char>,
    allow_methods: Seq<char>,
    allow_headers: Seq<char>,
    custom: Seq<Seq<char>>,
    strict: bool,
) -> Result<(), CorsError> {
    if !strict {
        Ok(())
    } else if status < 200 || status >= 300 {
        Err(CorsError::Status(status))
    } else if !method_allowed_spec(method, allow_methods) {
        Err(CorsError::MethodNotAllowed)
    } else if !headers_allowed_spec(custom, allow_headers) {
        Err(CorsError::HeadersNotAllowed)
    } else {
        Ok(())
    }
}

/// The view of an optional header value, empty when absent.
pub open spec fn or_empty(v: Option<&str>) -> Seq<char> {
    match v {
        Some(s) => s@,
        None => Seq::empty(),
    }
}

/// Check a preflight response.
pub fn check_preflight(
    status: u16,
    method: &str,
    allow_methods: Option<&str>,
    allow_headers: Option<&str>,
    custom: &Vec<String>,
    strict: bool,
) -> (r: Result<(), CorsError>)
    ensures
        r == preflight_verdict(
            status,
            method@,
            or_empty(allow_methods),
            or_empty(allow_headers),
            custom@.map_values(|x: String| x@),
            strict,
        ),
{
    if !strict {
        return Ok(());
    }
    if status < 200 || status >= 300 {
        return Err(CorsError::Status(status));
    }
    let am = match allow_methods {
        Some(s) => s,
        None => "",
    };
    let ah = match allow_headers {
        Some(s) => s,
        None => "",
    };
    proof {
        reveal_strlit("");
        assert(am@ == or_empty(allow_methods));
        assert(ah@ == or_empty(allow_headers));
    }
    if !preflight_method_allowed(method, am) {
        return Err(CorsError::MethodNotAllowed);
    }
    if !preflight_headers_allowed(custom, ah) {
        return Err(CorsError::HeadersNotAllowed);
    }
    Ok(())
}

/// Whether a preflight is needed: a `cors` request that is not simple and
/// has no fresh cached preflight.
pub fn needs_preflight(mode: &str, method: &str, headers: &HeaderMap, cached: bool) -> (r: bool)
    ensures
        r == (mode@ == "cors"@ && !simple_request(method@, headers.pairs()) && !cached),
{
    str_eq(mode, "cors") && !is_cors_simple_request(method, headers) && !cached
}

/// Whether CORS is enforced, from the `THALORA_STRICT_CORS` setting: unset
/// (or unreadable) enforces; otherwise `1` or `true` in any ASCII case.
pub fn strict_cors_setting(var: Option<&str>) -> (r: bool)
    ensures
        r == match var {
            None => true,
            Some(v) => v@ == "1"@ || ascii_lower_seq(v@) == ascii_lower_seq("true"@),
        },
{
    match var {
        None => true,
        Some(v) => str_eq(v, "1") || eq_ignore_ascii_case(v, "true"),
    }
}


/// `Access-Control-Allow-Headers: *` allows every list of custom headers, and
/// `Access-Control-Allow-Methods: *` every method: a preflight answered with
/// both and a success status passes, whatever the request.
pub proof fn law_wildcards_allow_everything(
    status: u16,
    method: Seq<char>,
    allow_methods: Seq<char>,
    custom: Seq<Seq<char>>,
    strict: bool,
)
    ensures
        headers_allowed_spec(custom, "*"@),
        method_allowed_spec(method, "*"@),
        preflight_verdict(status, method, allow_methods, "*"@, custom, strict) != Err::<(), CorsError>(
            CorsError::HeadersNotAllowed,
        ),
        200 <= status < 300 ==> preflight_verdict(status, method, "*"@, "*"@, custom, strict) == Ok::<(), CorsError>(
            (),
        ),
{
}

} // verus!
