//! External API connections and plugins: the checks on a connection's
//! profile, on each request made through it, and on a plugin's manifest.
//! Secrets never reach the database; they live in the system keyring.
use vstd::prelude::*;
use vstd::string::StringSliceAdditionalSpecFns;
use crate::json::{fields_view, json_object, opt_chars, parse_json_object, JsonField, JsonFieldView};
use crate::text::{
    blank, chars_of, is_blank, same_text, split_ranges, split_seq,
    trim_bounds_in, trim_seq, contains_seq, contains_in, has_char_in,
};

verus! {

broadcast use vstd::string::group_string_axioms;

/// The keyring entry that holds a connection's secret.
pub open spec fn secret_key_of(profile_id: Seq<char>) -> Seq<char> {
    "api-profile:"@ + profile_id
}

/// The keyring entry name of a connection's secret.
pub fn api_secret_key(profile_id: &str) -> (r: String)
    ensures
        r@ == secret_key_of(profile_id@),
{
    String::from_str("api-profile:").concat(profile_id)
}

/// What the logic reads of a parsed URL: its serialisation, its scheme and
/// its host.
#[derive(Debug)]
pub struct UrlParts {
    pub text: String,
    pub scheme: String,
    pub host: Option<String>,
}

/// The serialisation, scheme and host of `input` parsed as an absolute URL
/// by the WHATWG rules, or `None` where it does not parse.
pub uninterp spec fn url_parse(input: Seq<char>) -> Option<(Seq<char>, Seq<char>, Option<Seq<char>>)>;

/// The same for `path` resolved against the URL `base`.
pub uninterp spec fn url_join(base: Seq<char>, path: Seq<char>) -> Option<(Seq<char>, Seq<char>, Option<Seq<char>>)>;

/// The parts of a URL, as a triple of texts.
pub open spec fn parts_view(u: UrlParts) -> (Seq<char>, Seq<char>, Option<Seq<char>>) {
    (
        u.text@,
        u.scheme@,
        match u.host {
            Some(h) => Some(h@),
            None => None,
        },
    )
}

/// Parses an absolute URL with `url::Url::parse` (re-exported by reqwest)
/// and keeps its serialisation, scheme and host. The contract claims only
/// that the outcome depends on the input alone.
#[verifier::external_body]
fn parse_url(input: &str) -> (r: Option<UrlParts>)
    ensures
        match url_parse(input@) {
            None => r is None,
            Some(t) => r matches Some(u) && parts_view(u) == t,
        },
{
    match reqwest::Url::parse(input) {
        Ok(u) => Some(UrlParts {
            text: u.as_str().to_string(),
            scheme: u.scheme().to_string(),
            host: u.host_str().map(str::to_string),
        }),
        Err(_) => None,
    }
}

/// Parses `base` with `url::Url::parse`, resolves `path` against it with
/// `url::Url::join`, and keeps the serialisation, scheme and host of the
/// result. The contract claims only that the outcome depends on the two
/// inputs alone.
#[verifier::external_body]
fn join_url(base: &str, path: &str) -> (r: Option<UrlParts>)
    ensures
        match url_join(base@, path@) {
            None => r is None,
            Some(t) => r matches Some(u) && parts_view(u) == t,
        },
{
    let joined = match reqwest::Url::parse(base) {
        Ok(b) => b.join(path),
        Err(e) => Err(e),
    };
    match joined {
        Ok(u) => Some(UrlParts {
            text: u.as_str().to_string(),
            scheme: u.scheme().to_string(),
            host: u.host_str().map(str::to_string),
        }),
        Err(_) => None,
    }
}

/// Why a connection or a request was refused.
#[derive(Debug, Clone, Copy, PartialEq, Eq, Structural)]
pub enum ApiError {
    /// API-001
    MissingName,
    /// API-002
    BadAuthType,
    /// API-003
    BadBaseUrl,
    /// API-004
    NotHttps,
    /// API-005
    NoHost,
    /// API-006
    HostNotAllowed,
    /// API-007
    BadTimeout,
    /// API-013
    Disabled,
    /// API-014
    StoredBaseUrlInvalid,
    /// API-015
    BadPath,
    /// API-016
    NoTargetHost,
    /// API-017
    TargetNotAllowed,
    /// API-018
    BadMethod,
    /// API-020
    BadHeadersJson,
    /// API-021: the header at this index is one a request may not set.
    SensitiveHeader(usize),
    /// API-025
    BadBasicSecret,
}

/// `host` is one of the comma separated, trimmed entries of `domains`.
pub open spec fn domain_listed(domains: Seq<char>, host: Seq<char>) -> bool {
    exists|k: int| 0 <= k < split_seq(domains, ',').len() && trim_seq(#[trigger] split_seq(domains, ',')[k]) == host
}

fn domain_in_list(domains: &str, host: &str) -> (r: bool)
    ensures
        r == domain_listed(domains@, host@),
{
    let v = chars_of(domains);
    let n = v.len();
    proof {
        assert(v@.subrange(0, n as int) =~= v@);
    }
    let parts = split_ranges(&v, 0, n, ',');
    let ghost sp = split_seq(domains@, ',');
    let h = chars_of(host);
    let mut k: usize = 0;
    while k < parts.len()
        invariant
            0 <= k <= parts@.len(),
            v@ == domains@,
            h@ == host@,
            sp == split_seq(domains@, ','),
            parts@.len() == sp.len(),
            forall|j: int| 0 <= j < parts@.len() ==> {
                let (a, b) = #[trigger] parts@[j];
                0 <= a <= b <= n && v@.subrange(a as int, b as int) == sp[j]
            },
            n == v@.len(),
            forall|j: int| 0 <= j < k ==> trim_seq(#[trigger] sp[j]) != host@,
        decreases parts@.len() - k,
    {
        let (a, b) = parts[k];
        let (ta, tb) = trim_bounds_in(&v, a, b);
        if crate::text::range_equals(&v, ta, tb, host) {
            proof {
                assert(trim_seq(sp[k as int]) == host@);
            }
            return true;
        }
        k = k + 1;
    }
    false
}

/// The authentication kinds a connection may use.
pub open spec fn is_auth_type(t: Seq<char>) -> bool {
    t == "none"@ || t == "api_key"@ || t == "bearer"@ || t == "basic"@
}

/// The domains a connection allows: those given, else the base URL's host.
pub open spec fn effective_domains(allowed: Seq<char>, host: Seq<char>) -> Seq<char> {
    if is_blank(allowed) {
        host
    } else {
        allowed
    }
}

/// The outcome of checking a new connection: a name, a known kind of
/// authentication, an HTTPS base URL with a host that the allowed domains
/// list, and a timeout between one and 120 seconds. Gives the domains to
/// store.
pub open spec fn profile_check(name: Seq<char>, base_url: Seq<char>, auth_type: Seq<char>, timeout_ms: i64, allowed: Seq<char>) -> Result<Seq<char>, ApiError> {
    if is_blank(name) {
        Err(ApiError::MissingName)
    } else if !is_auth_type(auth_type) {
        Err(ApiError::BadAuthType)
    } else {
        match url_parse(base_url) {
            None => Err(ApiError::BadBaseUrl),
            Some(u) => if u.1 != "https"@ {
                Err(ApiError::NotHttps)
            } else {
                match u.2 {
                    None => Err(ApiError::NoHost),
                    Some(host) => if !domain_listed(effective_domains(allowed, host), host) {
                        Err(ApiError::HostNotAllowed)
                    } else if !(1000 <= timeout_ms <= 120_000) {
                        Err(ApiError::BadTimeout)
                    } else {
                        Ok(effective_domains(allowed, host))
                    },
                }
            },
        }
    }
}

/// Checks a new connection and gives the domains to store with it.
pub fn check_api_profile(name: &str, base_url: &str, auth_type: &str, timeout_ms: i64, allowed_domains: &str) -> (r: Result<String, ApiError>)
    ensures
        match profile_check(name@, base_url@, auth_type@, timeout_ms, allowed_domains@) {
            Ok(d) => r matches Ok(s) && s@ == d,
            Err(e) => r == Err::<String, ApiError>(e),
        },
{
    if blank(name) {
        return Err(ApiError::MissingName);
    }
    if !(same_text(auth_type, "none") || same_text(auth_type, "api_key") || same_text(auth_type, "bearer")
        || same_text(auth_type, "basic")) {
        return Err(ApiError::BadAuthType);
    }
    let base = match parse_url(base_url) {
        Some(u) => u,
        None => {
            return Err(ApiError::BadBaseUrl);
        },
    };
    if !same_text(base.scheme.as_str(), "https") {
        return Err(ApiError::NotHttps);
    }
    let host = match &base.host {
        Some(h) => h,
        None => {
            return Err(ApiError::NoHost);
        },
    };
    let domains: String = if blank(allowed_domains) {
        host.clone()
    } else {
        String::from_str(allowed_domains)
    };
    if !domain_in_list(domains.as_str(), host.as_str()) {
        return Err(ApiError::HostNotAllowed);
    }
    if !(timeout_ms >= 1000 && timeout_ms <= 120_000) {
        return Err(ApiError::BadTimeout);
    }
    Ok(domains)
}

/// The HTTP methods a request may use.
#[derive(Debug, Clone, Copy, PartialEq, Eq, Structural)]
pub enum HttpMethod {
    Get,
    Post,
    Put,
    Patch,
    Delete,
}

/// `p` without its leading slashes, as `str::trim_start_matches('/')` gives.
pub open spec fn strip_slashes(p: Seq<char>) -> Seq<char>
    decreases p.len(),
{
    if p.len() > 0 && p[0] == '/' {
        strip_slashes(p.drop_first())
    } else {
        p
    }
}

fn strip_leading_slashes(p: &str) -> (r: &str)
    ensures
        r@ == strip_slashes(p@),
{
    let v = chars_of(p);
    let mut i: usize = 0;
    proof {
        assert(v@.skip(0) =~= v@);
    }
    while i < v.len() && v[i] == '/'
        invariant
            0 <= i <= v@.len(),
            v@ == p@,
            strip_slashes(p@) == strip_slashes(v@.skip(i as int)),
        decreases v@.len() - i,
    {
        proof {
            assert(v@.skip(i as int).drop_first() =~= v@.skip(i + 1));
        }
        i = i + 1;
    }
    proof {
        assert(v@.skip(i as int) =~= v@.subrange(i as int, v@.len() as int));
    }
    p.substring_char(i, v.len())
}

/// The text `s` upper-cased by Unicode's rules.
pub uninterp spec fn unicode_upper(s: Seq<char>) -> Seq<char>;

/// Upper-cases a text with `str::to_uppercase`. The contract claims only
/// that the result depends on the text alone.
#[verifier::external_body]
fn to_upper(s: &str) -> (r: String)
    ensures
        r@ == unicode_upper(s@),
{
    s.to_uppercase()
}

/// The method a request names, compared after Unicode upper-casing.
pub open spec fn method_of(m: Seq<char>) -> Option<HttpMethod> {
    let u = unicode_upper(m);
    if u == "GET"@ {
        Some(HttpMethod::Get)
    } else if u == "POST"@ {
        Some(HttpMethod::Post)
    } else if u == "PUT"@ {
        Some(HttpMethod::Put)
    } else if u == "PATCH"@ {
        Some(HttpMethod::Patch)
    } else if u == "DELETE"@ {
        Some(HttpMethod::Delete)
    } else {
        None
    }
}

/// What a request through a connection will be: its full URL and method.
#[derive(Debug)]
pub struct ApiRequestPlan {
    pub url: String,
    pub method: HttpMethod,
}

/// The outcome of planning a request: the connection must be enabled, the
/// path must resolve against its base URL to a URL with a host that its
/// domains allow, and the method must be one it supports.
pub open spec fn request_plan(enabled: bool, base_url: Seq<char>, path: Seq<char>, domains: Seq<char>, method: Seq<char>) -> Result<(Seq<char>, HttpMethod), ApiError> {
    if !enabled {
        Err(ApiError::Disabled)
    } else if url_parse(base_url) is None {
        Err(ApiError::StoredBaseUrlInvalid)
    } else {
        match url_join(base_url, strip_slashes(path)) {
            None => Err(ApiError::BadPath),
            Some(u) => match u.2 {
                None => Err(ApiError::NoTargetHost),
                Some(host) => if !domain_listed(domains, host) {
                    Err(ApiError::TargetNotAllowed)
                } else {
                    match method_of(method) {
                        None => Err(ApiError::BadMethod),
                        Some(m) => Ok((u.0, m)),
                    }
                },
            },
        }
    }
}

fn method_from(m: &str) -> (r: Option<HttpMethod>)
    ensures
        r == method_of(m@),
{
    let upper = to_upper(m);
    let u = upper.as_str();
    if same_text(u, "GET") {
        Some(HttpMethod::Get)
    } else if same_text(u, "POST") {
        Some(HttpMethod::Post)
    } else if same_text(u, "PUT") {
        Some(HttpMethod::Put)
    } else if same_text(u, "PATCH") {
        Some(HttpMethod::Patch)
    } else if same_text(u, "DELETE") {
        Some(HttpMethod::Delete)
    } else {
        None
    }
}

/// Plans a request through a stored connection.
pub fn plan_api_request(enabled: bool, base_url: &str, path: &str, domains: &str, method: &str) -> (r: Result<ApiRequestPlan, ApiError>)
    ensures
        match request_plan(enabled, base_url@, path@, domains@, method@) {
            Ok(p) => r matches Ok(q) && q.url@ == p.0 && q.method == p.1,
            Err(e) => r == Err::<ApiRequestPlan, ApiError>(e),
        },
{
    if !enabled {
        return Err(ApiError::Disabled);
    }
    if parse_url(base_url).is_none() {
        return Err(ApiError::StoredBaseUrlInvalid);
    }
    let joined = match join_url(base_url, strip_leading_slashes(path)) {
        Some(u) => u,
        None => {
            return Err(ApiError::BadPath);
        },
    };
    let host = match &joined.host {
        Some(h) => h,
        None => {
            return Err(ApiError::NoTargetHost);
        },
    };
    if !domain_in_list(domains, host.as_str()) {
        return Err(ApiError::TargetNotAllowed);
    }
    match method_from(method) {
        None => Err(ApiError::BadMethod),
        Some(m) => Ok(ApiRequestPlan { url: joined.text, method: m }),
    }
}

/// Headers a request may not set.
pub open spec fn is_sensitive_header(lowered: Seq<char>) -> bool {
    lowered == "host"@ || lowered == "authorization"@ || lowered == "cookie"@
}

/// The text `s` lower-cased by Unicode's rules.
pub uninterp spec fn unicode_lower(s: Seq<char>) -> Seq<char>;

/// Lower-cases a text with `str::to_lowercase`. The contract claims only
/// that the result depends on the text alone.
#[verifier::external_body]
fn to_lower(s: &str) -> (r: String)
    ensures
        r@ == unicode_lower(s@),
{
    s.to_lowercase()
}

/// The first header, from `i` on, whose name lower-cased is sensitive.
pub open spec fn first_sensitive(names: Seq<Seq<char>>, i: int) -> Option<int>
    decreases names.len() - i,
{
    if i < 0 || i >= names.len() {
        None
    } else if is_sensitive_header(unicode_lower(names[i])) {
        Some(i)
    } else {
        first_sensitive(names, i + 1)
    }
}

/// The headers among the first `n` whose value is text, as name and value.
pub open spec fn text_headers(h: Seq<(Seq<char>, Option<Seq<char>>)>, n: int) -> Seq<(Seq<char>, Seq<char>)>
    decreases n,
{
    if n <= 0 {
        Seq::empty()
    } else {
        let prev = text_headers(h, n - 1);
        match h[n - 1].1 {
            Some(v) => prev.push((h[n - 1].0, v)),
            None => prev,
        }
    }
}

/// The headers a request adds, from the fields of its header object in
/// order, each with its value where that value is text: refused at the
/// first whose name is `Host`, `Authorization` or `Cookie` in any case;
/// else those whose value is text.
pub open spec fn headers_outcome(h: Seq<(Seq<char>, Option<Seq<char>>)>) -> Result<Seq<(Seq<char>, Seq<char>)>, ApiError> {
    match first_sensitive(h.map_values(|p: (Seq<char>, Option<Seq<char>>)| p.0), 0) {
        Some(i) => Err(ApiError::SensitiveHeader(i as usize)),
        None => Ok(text_headers(h, h.len() as int)),
    }
}

/// Header fields by their texts.
pub open spec fn header_view(h: Seq<(String, Option<String>)>) -> Seq<(Seq<char>, Option<Seq<char>>)> {
    h.map_values(|p: (String, Option<String>)| (p.0@, opt_chars(p.1)))
}

/// Headers to set, by their texts.
pub open spec fn headers_result_view(r: Result<Vec<(String, String)>, ApiError>) -> Result<Seq<(Seq<char>, Seq<char>)>, ApiError> {
    match r {
        Ok(out) => Ok(out@.map_values(|p: (String, String)| (p.0@, p.1@))),
        Err(e) => Err(e),
    }
}

/// The headers a request adds: none may be `Host`, `Authorization` or
/// `Cookie` in any case; those whose value is text are set, the others
/// left out. `headers` holds the fields of the request's header object, in
/// order, each with its value where that value is text.
pub fn request_headers(headers: &Vec<(String, Option<String>)>) -> (r: Result<Vec<(String, String)>, ApiError>)
    ensures
        headers_result_view(r) == headers_outcome(header_view(headers@)),
{
    let ghost h = header_view(headers@);
    let ghost names = h.map_values(|p: (Seq<char>, Option<Seq<char>>)| p.0);
    let mut out: Vec<(String, String)> = Vec::new();
    let mut i: usize = 0;
    while i < headers.len()
        invariant
            0 <= i <= headers@.len(),
            h == header_view(headers@),
            names == h.map_values(|p: (Seq<char>, Option<Seq<char>>)| p.0),
            first_sensitive(names, 0) == first_sensitive(names, i as int),
            out@.map_values(|p: (String, String)| (p.0@, p.1@)) == text_headers(h, i as int),
        decreases headers@.len() - i,
    {
        let ghost before = out@;
        let (k, v) = &headers[i];
        let lowered = to_lower(k.as_str());
        proof {
            assert(names[i as int] == k@);
            assert(h[i as int] == (k@, opt_chars(*v)));
        }
        if same_text(lowered.as_str(), "host") || same_text(lowered.as_str(), "authorization") || same_text(
            lowered.as_str(),
            "cookie",
        ) {
            return Err(ApiError::SensitiveHeader(i));
        }
        match v {
            Some(val) => {
                out.push((k.clone(), val.clone()));
                proof {
                    assert(out@.map_values(|p: (String, String)| (p.0@, p.1@)) =~= before.map_values(
                        |p: (String, String)| (p.0@, p.1@),
                    ).push((k@, val@)));
                }
            },
            None => {},
        }
        i = i + 1;
    }
    Ok(out)
}

/// A header object's fields, each with its value where that is text.
pub open spec fn header_fields(fs: Seq<(Seq<char>, JsonFieldView)>) -> Seq<(Seq<char>, Option<Seq<char>>)> {
    fs.map_values(|f: (Seq<char>, JsonFieldView)| (f.0, match f.1 {
        JsonFieldView::Text(t) => Some(t),
        _ => None,
    }))
}

/// The headers a request adds from its optional header JSON: none without
/// it; refused where it is not JSON; none where it is JSON but not an
/// object; else as `headers_outcome` gives for the object's fields.
pub open spec fn headers_plan(headers_json: Option<Seq<char>>) -> Result<Seq<(Seq<char>, Seq<char>)>, ApiError> {
    match headers_json {
        None => Ok(Seq::empty()),
        Some(t) => match json_object(t) {
            None => Err(ApiError::BadHeadersJson),
            Some(None) => Ok(Seq::empty()),
            Some(Some(fs)) => headers_outcome(header_fields(fs)),
        },
    }
}

/// The fields of a header object read from JSON text, each with its value
/// where that value is text: `None` where the text is not JSON, and no
/// fields where it is JSON but not an object.
pub fn json_header_fields(text: &str) -> (r: Option<Vec<(String, Option<String>)>>)
    ensures
        match json_object(text@) {
            None => r is None,
            Some(None) => r matches Some(v) && v@.len() == 0,
            Some(Some(fs)) => r matches Some(v) && header_view(v@) == header_fields(fs),
        },
{
    let fs = match parse_json_object(text) {
        None => {
            return None;
        },
        Some(None) => {
            return Some(Vec::new());
        },
        Some(Some(fs)) => fs,
    };
    let ghost fv = fields_view(fs@);
    let mut headers: Vec<(String, Option<String>)> = Vec::new();
    let mut i: usize = 0;
    while i < fs.len()
        invariant
            0 <= i <= fs@.len(),
            fv == fields_view(fs@),
            header_view(headers@) == header_fields(fv).take(i as int),
        decreases fs@.len() - i,
    {
        let ghost before = headers@;
        let value: Option<String> = match &fs[i].1 {
            JsonField::Text(t) => Some(t.clone()),
            _ => None,
        };
        headers.push((fs[i].0.clone(), value));
        proof {
            assert(header_fields(fv).take(i + 1) =~= header_fields(fv).take(i as int).push(header_fields(fv)[i as int]));
            assert(header_view(headers@) =~= header_view(before).push((fs@[i as int].0@, opt_chars(value))));
        }
        i = i + 1;
    }
    proof {
        assert(header_fields(fv).take(fs@.len() as int) =~= header_fields(fv));
    }
    Some(headers)
}

/// The headers a request adds, read from its optional header JSON.
pub fn plan_request_headers(headers_json: &Option<String>) -> (r: Result<Vec<(String, String)>, ApiError>)
    ensures
        headers_result_view(r) == headers_plan(opt_chars(*headers_json)),
{
    let text = match headers_json {
        None => {
            let out: Vec<(String, String)> = Vec::new();
            proof {
                assert(out@.map_values(|p: (String, String)| (p.0@, p.1@)) =~= Seq::empty());
            }
            return Ok(out);
        },
        Some(t) => t,
    };
    match json_header_fields(text.as_str()) {
        None => Err(ApiError::BadHeadersJson),
        Some(fields) => {
            proof {
                if json_object(text@) == Some(None::<Seq<(Seq<char>, JsonFieldView)>>) {
                    assert(header_view(fields@) =~= Seq::empty());
                    assert(text_headers(header_view(fields@), 0) =~= Seq::empty());
                    assert(first_sensitive(header_view(fields@).map_values(|p: (Seq<char>, Option<Seq<char>>)| p.0), 0) is None);
                }
            }
            request_headers(&fields)
        },
    }
}

/// The user name and password of a `basic` secret: the text before and
/// after its first colon; a secret without a colon is refused.
pub fn basic_credentials(secret: &str) -> (r: Result<(String, String), ApiError>)
    ensures
        !secret@.contains(':') ==> r == Err::<(String, String), ApiError>(ApiError::BadBasicSecret),
        r matches Ok(p) ==> exists|k: int| 0 <= k < secret@.len() && secret@[k] == ':' && !secret@.take(k).contains(':')
            && p.0@ == secret@.take(k) && p.1@ == secret@.skip(k + 1),
        secret@.contains(':') ==> r is Ok,
{
    let v = chars_of(secret);
    let mut i: usize = 0;
    while i < v.len()
        invariant
            0 <= i <= v@.len(),
            v@ == secret@,
            forall|j: int| 0 <= j < i ==> v@[j] != ':',
        decreases v@.len() - i,
    {
        if v[i] == ':' {
            proof {
                assert(!secret@.take(i as int).contains(':'));
                assert(v@.skip(i + 1) =~= v@.subrange(i + 1, v@.len() as int));
                assert(v@.take(i as int) =~= v@.subrange(0, i as int));
            }
            let user = String::from_str(secret.substring_char(0, i));
            let pass = String::from_str(secret.substring_char(i + 1, v.len()));
            return Ok((user, pass));
        }
        i = i + 1;
    }
    Err(ApiError::BadBasicSecret)
}

/// Why a plugin could not be registered.
#[derive(Debug, Clone, Copy, PartialEq, Eq, Structural)]
pub enum PluginError {
    /// PLUGIN-005
    BadManifest,
    /// PLUGIN-004
    BadId,
    /// PLUGIN-006
    MissingId,
    /// PLUGIN-007
    MissingName,
    /// PLUGIN-008
    MissingVersion,
    /// PLUGIN-009
    BadEntrypoint,
    /// PLUGIN-010: the permission at this index is not text.
    PermissionNotText(usize),
    /// PLUGIN-011: the permission at this index is not supported.
    UnsupportedPermission(usize),
}

/// A character a plugin id may hold.
pub open spec fn plugin_id_char(c: char) -> bool {
    ('a' <= c <= 'z') || ('A' <= c <= 'Z') || ('0' <= c <= '9') || c == '-' || c == '_' || c == '.'
}

/// A plugin id: one to 80 bytes of ASCII letters, digits, `-`, `_` and `.`.
pub open spec fn plugin_id_ok(id: Seq<char>) -> bool {
    &&& id.len() > 0
    &&& vstd::utf8::encode_utf8(id).len() <= 80
    &&& forall|i: int| 0 <= i < id.len() ==> plugin_id_char(#[trigger] id[i])
}

/// Checks a plugin id, which names a folder on disk.
pub fn validate_plugin_id(id: &str) -> (r: Result<(), PluginError>)
    ensures
        r is Ok <==> plugin_id_ok(id@),
        r is Err ==> r == Err::<(), PluginError>(PluginError::BadId),
{
    let v = chars_of(id);
    if v.len() == 0 || id.as_bytes().len() > 80 {
        return Err(PluginError::BadId);
    }
    let mut i: usize = 0;
    while i < v.len()
        invariant
            0 <= i <= v@.len(),
            v@ == id@,
            forall|j: int| 0 <= j < i ==> plugin_id_char(#[trigger] v@[j]),
        decreases v@.len() - i,
    {
        let c = v[i];
        if !((c >= 'a' && c <= 'z') || (c >= 'A' && c <= 'Z') || (c >= '0' && c <= '9') || c == '-' || c == '_'
            || c == '.') {
            return Err(PluginError::BadId);
        }
        i = i + 1;
    }
    Ok(())
}

} // verus!
