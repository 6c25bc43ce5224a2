//! The decisions behind `yal.http`: the limits and their defaults, how a
//! request's options are read, which headers go out, how large a body may
//! grow, and which response headers a plugin sees.
//!
//! Sending the request and reading its body are the caller's part.

use vstd::prelude::*;

use crate::kv::{inserted_all, KvStore};
use crate::text::{int_text, int_to_string, owned};

verus! {

/// Limits on what plugins may do over HTTP.
#[derive(Debug, Clone, Copy, PartialEq, Eq, Structural)]
pub struct HttpLimits {
    pub max_concurrent: usize,
    pub default_timeout_ms: u64,
    pub default_max_body_bytes: usize,
    pub default_max_redirects: usize,
}

impl Default for HttpLimits {
    /// At most 16 requests at once; a 10 s timeout, a 4 MiB body and 5
    /// redirects unless a request says otherwise.
    fn default() -> (r: HttpLimits)
        ensures
            r.max_concurrent == 16,
            r.default_timeout_ms == 10_000,
            r.default_max_body_bytes == 4 * 1024 * 1024,
            r.default_max_redirects == 5,
    {
        HttpLimits {
            max_concurrent: 16,
            default_timeout_ms: 10_000,
            default_max_body_bytes: 4 * 1024 * 1024,
            default_max_redirects: 5,
        }
    }
}

/// Why a request was refused or failed.
#[derive(Debug, PartialEq, Eq, Structural)]
pub enum HttpError {
    /// The options named a method that is not an HTTP token.
    InvalidMethod,
    /// A header or query key was neither a string nor a number.
    KeyNotScalar,
    /// A header or query value was not a string, number or boolean.
    ValueNotScalar,
    /// The body grew past the request's limit.
    BodyTooLarge,
}

impl HttpError {
    /// The message that the plugin sees.
    pub fn message(&self) -> (r: String)
        ensures
            r@ == match self {
                HttpError::InvalidMethod => "invalid HTTP method"@,
                HttpError::KeyNotScalar => "header/query keys must be string/number"@,
                HttpError::ValueNotScalar => "header/query values must be scalar"@,
                HttpError::BodyTooLarge => "body exceeds max_body_bytes"@,
            },
    {
        match self {
            HttpError::InvalidMethod => owned("invalid HTTP method"),
            HttpError::KeyNotScalar => owned("header/query keys must be string/number"),
            HttpError::ValueNotScalar => owned("header/query values must be scalar"),
            HttpError::BodyTooLarge => owned("body exceeds max_body_bytes"),
        }
    }
}

/* ------------------------------ scalar tables ------------------------------ */

/// A key or value of a Lua table of headers or query parameters. Numbers
/// that are not integers come as the text the caller wrote them as.
pub enum LuaScalar {
    Text(String),
    Integer(i64),
    Boolean(bool),
    Other,
}

/// The text of a key: a string as it is, an integer in decimal; booleans
/// and anything else are refused.
pub open spec fn scalar_key_text(k: LuaScalar) -> Option<Seq<char>> {
    match k {
        LuaScalar::Text(s) => Some(s@),
        LuaScalar::Integer(i) => Some(int_text(i as int)),
        _ => None,
    }
}

/// The text of a value: a string as it is, an integer in decimal, a boolean
/// as `true` or `false`; anything else is refused.
pub open spec fn scalar_value_text(v: LuaScalar) -> Option<Seq<char>> {
    match v {
        LuaScalar::Text(s) => Some(s@),
        LuaScalar::Integer(i) => Some(int_text(i as int)),
        LuaScalar::Boolean(b) => Some(if b { "true"@ } else { "false"@ }),
        LuaScalar::Other => None,
    }
}

fn key_text(k: LuaScalar) -> (r: Option<String>)
    ensures
        match scalar_key_text(k) {
            Some(t) => r matches Some(s) && s@ == t,
            None => r is None,
        },
{
    match k {
        LuaScalar::Text(s) => Some(s),
        LuaScalar::Integer(i) => Some(int_to_string(i)),
        _ => None,
    }
}

fn value_text(v: LuaScalar) -> (r: Option<String>)
    ensures
        match scalar_value_text(v) {
            Some(t) => r matches Some(s) && s@ == t,
            None => r is None,
        },
{
    match v {
        LuaScalar::Text(s) => Some(s),
        LuaScalar::Integer(i) => Some(int_to_string(i)),
        LuaScalar::Boolean(b) => Some(owned(if b { "true" } else { "false" })),
        LuaScalar::Other => None,
    }
}

/// What reading a table of scalars comes to: the first pair with a bad key
/// or value decides the error (the key is checked first); otherwise the
/// pairs as text, in order.
pub open spec fn scalar_pairs(ps: Seq<(LuaScalar, LuaScalar)>) -> Result<Seq<(Seq<char>, Seq<char>)>, HttpError>
    decreases ps.len(),
{
    if ps.len() == 0 {
        Ok(Seq::empty())
    } else if scalar_key_text(ps[0].0) is None {
        Err(HttpError::KeyNotScalar)
    } else if scalar_value_text(ps[0].1) is None {
        Err(HttpError::ValueNotScalar)
    } else {
        match scalar_pairs(ps.drop_first()) {
            Ok(rest) => Ok(seq![(scalar_key_text(ps[0].0).unwrap(), scalar_value_text(ps[0].1).unwrap())] + rest),
            Err(e) => Err(e),
        }
    }
}

/// The views of a list of string pairs.
pub open spec fn pair_views(ps: Seq<(String, String)>) -> Seq<(Seq<char>, Seq<char>)> {
    ps.map_values(|p: (String, String)| (p.0@, p.1@))
}

/// Reads a table of headers or query parameters, pair by pair.
pub fn scalar_table(pairs: Vec<(LuaScalar, LuaScalar)>) -> (r: Result<Vec<(String, String)>, HttpError>)
    ensures
        match r {
            Ok(v) => scalar_pairs(pairs@) == Ok::<Seq<(Seq<char>, Seq<char>)>, HttpError>(pair_views(v@)),
            Err(e) => scalar_pairs(pairs@) == Err::<Seq<(Seq<char>, Seq<char>)>, HttpError>(e),
        },
{
    let ghost all = pairs@;
    let mut rest = pairs;
    let mut out: Vec<(String, String)> = Vec::new();
    let ghost mut done: int = 0;
    assert(all.subrange(0, all.len() as int) =~= all);
    while rest.len() > 0
        invariant
            all == pairs@,
            0 <= done <= all.len(),
            rest@ == all.subrange(done, all.len() as int),
            scalar_pairs(all) == (match scalar_pairs(rest@) {
                Ok(tail) => Ok(pair_views(out@) + tail),
                Err(e) => Err::<Seq<(Seq<char>, Seq<char>)>, HttpError>(e),
            }),
        decreases rest@.len(),
    {
        let ghost was = rest@;
        let (k, v) = rest.remove(0);
        assert(was.drop_first() =~= rest@);
        let ghost kg = k;
        let ghost vg = v;
        let kt = match key_text(k) {
            Some(t) => t,
            None => return Err(HttpError::KeyNotScalar),
        };
        let vt = match value_text(v) {
            Some(t) => t,
            None => return Err(HttpError::ValueNotScalar),
        };
        let ghost before = out@;
        out.push((kt, vt));
        proof {
            done = done + 1;
            assert(pair_views(out@) =~= pair_views(before).push((scalar_key_text(kg).unwrap(), scalar_value_text(vg).unwrap())));
            match scalar_pairs(rest@) {
                Ok(tail) => {
                    assert(pair_views(before) + (seq![(scalar_key_text(kg).unwrap(), scalar_value_text(vg).unwrap())] + tail)
                        =~= pair_views(out@) + tail);
                },
                Err(_) => {},
            }
        }
    }
    assert(pair_views(out@) + Seq::<(Seq<char>, Seq<char>)>::empty() =~= pair_views(out@));
    Ok(out)
}

/* ------------------------------ request options ------------------------------ */

/// Whether a character may appear in an HTTP method (an RFC 9110 token).
pub open spec fn is_token_char(c: char) -> bool {
    ('0' <= c && c <= '9') || ('a' <= c && c <= 'z') || ('A' <= c && c <= 'Z') || c == '!' || c == '#'
        || c == '$' || c == '%' || c == '&' || c == '\'' || c == '*' || c == '+' || c == '-' || c == '.'
        || c == '^' || c == '_' || c == '`' || c == '|' || c == '~'
}

/// Whether a text is a valid HTTP method: a non-empty token.
pub open spec fn is_method(s: Seq<char>) -> bool {
    s.len() > 0 && forall|i: int| 0 <= i < s.len() ==> is_token_char(#[trigger] s[i])
}

fn token_char(c: char) -> (r: bool)
    ensures
        r == is_token_char(c),
{
    ('0' <= c && c <= '9') || ('a' <= c && c <= 'z') || ('A' <= c && c <= 'Z') || c == '!' || c == '#'
        || c == '$' || c == '%' || c == '&' || c == '\'' || c == '*' || c == '+' || c == '-' || c == '.'
        || c == '^' || c == '_' || c == '`' || c == '|' || c == '~'
}

/// Whether a text is a valid HTTP method.
pub fn valid_method(s: &str) -> (r: bool)
    ensures
        r == is_method(s@),
{
    let n = s.unicode_len();
    if n == 0 {
        return false;
    }
    let mut i: usize = 0;
    while i < n
        invariant
            n == s@.len(),
            i <= n,
            forall|j: int| 0 <= j < i ==> is_token_char(#[trigger] s@[j]),
        decreases n - i,
    {
        if !token_char(s.get_char(i)) {
            return false;
        }
        i = i + 1;
    }
    true
}

/// The body a request sends.
pub enum RequestBody {
    Json(serde_json::Value),
    Text(String),
    Bytes(Vec<u8>),
    Empty,
}

/// What a plugin's options table holds, each entry `None` where absent.
/// Header and query tables come already read (see `scalar_table`).
pub struct RequestFields {
    pub method: Option<String>,
    pub url: String,
    pub headers: Vec<(String, String)>,
    pub query: Vec<(String, String)>,
    pub timeout_ms: Option<u64>,
    pub max_body_bytes: Option<usize>,
    pub max_redirects: Option<usize>,
    pub body: Option<String>,
    pub body_bytes: Option<Vec<u8>>,
    pub json: Option<serde_json::Value>,
    pub save_to: Option<String>,
}

/// A request ready to send.
pub struct RequestPlan {
    pub method: String,
    pub url: String,
    pub headers: KvStore<String>,
    pub query: KvStore<String>,
    pub timeout_ms: u64,
    pub max_body_bytes: usize,
    pub max_redirects: usize,
    pub body: RequestBody,
    pub save_to: Option<String>,
}

/// The map a list of text pairs stands for, a later pair winning.
pub open spec fn pairs_map(ps: Seq<(String, String)>) -> Map<Seq<char>, String> {
    inserted_all(Map::<Seq<char>, String>::empty(), ps)
}

/// The body that a request's options give: JSON first, then text, then
/// raw bytes, else none.
pub open spec fn chosen_body(f: RequestFields, b: RequestBody) -> bool {
    match (f.json, f.body, f.body_bytes) {
        (Some(j), _, _) => b == RequestBody::Json(j),
        (None, Some(t), _) => b matches RequestBody::Text(u) && u@ == t@,
        (None, None, Some(v)) => b matches RequestBody::Bytes(w) && w@ == v@,
        (None, None, None) => b is Empty,
    }
}

/// Reads a request's options: the method defaults to `GET` and must be an
/// HTTP token; the timeout, body limit and redirect limit default to the
/// limits' defaults; headers and query parameters are maps, a later pair
/// winning.
pub fn plan_request(fields: RequestFields, limits: &HttpLimits) -> (r: Result<RequestPlan, HttpError>)
    ensures
        match fields.method {
            Some(m) => !is_method(m@) <==> r == Err::<RequestPlan, HttpError>(HttpError::InvalidMethod),
            None => r is Ok,
        },
        r is Err ==> r == Err::<RequestPlan, HttpError>(HttpError::InvalidMethod),
        r matches Ok(p) ==> {
            &&& p.method@ == match fields.method {
                Some(m) => m@,
                None => "GET"@,
            }
            &&& p.url@ == fields.url@
            &&& p.headers@ == pairs_map(fields.headers@)
            &&& p.query@ == pairs_map(fields.query@)
            &&& p.timeout_ms == match fields.timeout_ms {
                Some(t) => t,
                None => limits.default_timeout_ms,
            }
            &&& p.max_body_bytes == match fields.max_body_bytes {
                Some(b) => b,
                None => limits.default_max_body_bytes,
            }
            &&& p.max_redirects == match fields.max_redirects {
                Some(n) => n,
                None => limits.default_max_redirects,
            }
            &&& chosen_body(fields, p.body)
            &&& opt_same(p.save_to, fields.save_to)
        },
{
    let ghost f = fields;
    let RequestFields {
        method,
        url,
        headers,
        query,
        timeout_ms,
        max_body_bytes,
        max_redirects,
        body,
        body_bytes,
        json,
        save_to,
    } = fields;
    let method = match method {
        Some(m) => m,
        None => owned("GET"),
    };
    if !valid_method(method.as_str()) {
        proof {
            reveal_strlit("GET");
        }
        return Err(HttpError::InvalidMethod);
    }
    let timeout_ms = match timeout_ms {
        Some(t) => t,
        None => limits.default_timeout_ms,
    };
    let max_body_bytes = match max_body_bytes {
        Some(b) => b,
        None => limits.default_max_body_bytes,
    };
    let max_redirects = match max_redirects {
        Some(n) => n,
        None => limits.default_max_redirects,
    };
    let body = match json {
        Some(j) => RequestBody::Json(j),
        None => match body {
            Some(t) => RequestBody::Text(t),
            None => match body_bytes {
                Some(v) => RequestBody::Bytes(v),
                None => RequestBody::Empty,
            },
        },
    };
    proof {
        reveal_strlit("GET");
        assert(is_method("GET"@));
    }
    Ok(
        RequestPlan {
            method,
            url,
            headers: KvStore::from_pairs(headers),
            query: KvStore::from_pairs(query),
            timeout_ms,
            max_body_bytes,
            max_redirects,
            body,
            save_to,
        },
    )
}

/// Two optional texts hold the same text, or are both absent.
pub open spec fn opt_same(a: Option<String>, b: Option<String>) -> bool {
    match (a, b) {
        (Some(x), Some(y)) => x@ == y@,
        (None, None) => true,
        _ => false,
    }
}

impl RequestPlan {
    /// Whether the request can use the shared client: only when it follows
    /// as many redirects as the shared client does.
    pub fn uses_shared_client(&self, limits: &HttpLimits) -> (r: bool)
        ensures
            r == (self.max_redirects == limits.default_max_redirects),
    {
        self.max_redirects == limits.default_max_redirects
    }

    /// The headers sent: the environment's default headers first, then the
    /// request's own (a name in both is sent twice).
    pub fn outgoing_headers(&self, defaults: &KvStore<String>) -> (r: Vec<(String, String)>)
        ensures
            r@ == defaults.entry_list() + self.headers.entry_list(),
    {
        let mut out: Vec<(String, String)> = Vec::new();
        append_pairs(&mut out, defaults.entries());
        append_pairs(&mut out, self.headers.entries());
        out
    }
}

fn append_pairs(out: &mut Vec<(String, String)>, more: &Vec<(String, String)>)
    ensures
        final(out)@ == old(out)@ + more@,
{
    let ghost start = out@;
    let mut i: usize = 0;
    while i < more.len()
        invariant
            i <= more@.len(),
            out@ == start + more@.subrange(0, i as int),
        decreases more@.len() - i,
    {
        let p = &more[i];
        out.push((p.0.clone(), p.1.clone()));
        assert(more@.subrange(0, i + 1) =~= more@.subrange(0, i as int).push(more@[i as int]));
        i = i + 1;
    }
    assert(more@.subrange(0, more@.len() as int) =~= more@);
}

/// The response headers as a plugin sees them: each name with its value's
/// text, the empty string where the value is not visible ASCII text (`None`
/// here). Collected into a map, a later header of the same name wins.
pub fn response_header_pairs(raw: Vec<(String, Option<String>)>) -> (r: Vec<(String, String)>)
    ensures
        r@.len() == raw@.len(),
        forall|i: int|
            0 <= i < r@.len() ==> (#[trigger] r@[i]).0 == raw@[i].0 && r@[i].1@ == match raw@[i].1 {
                Some(v) => v@,
                None => Seq::<char>::empty(),
            },
{
    let ghost all = raw@;
    let mut rest = raw;
    let mut out: Vec<(String, String)> = Vec::new();
    while rest.len() > 0
        invariant
            out@.len() + rest@.len() == all.len(),
            rest@ == all.subrange(out@.len() as int, all.len() as int),
            forall|i: int|
                0 <= i < out@.len() ==> (#[trigger] out@[i]).0 == all[i].0 && out@[i].1@ == match all[i].1 {
                    Some(v) => v@,
                    None => Seq::<char>::empty(),
                },
        decreases rest@.len(),
    {
        let (name, value) = rest.remove(0);
        let text = match value {
            Some(v) => v,
            None => String::new(),
        };
        out.push((name, text));
    }
    out
}

/* ------------------------- get, post_json, responses ------------------------ */

/// The options table that a plugin passes to `get` or `post_json`, each
/// entry `None` where the table does not set it. Its entries are laid over
/// the ones these functions set themselves.
pub struct RequestOptions {
    pub method: Option<String>,
    pub url: Option<String>,
    pub headers: Option<Vec<(String, String)>>,
    pub query: Option<Vec<(String, String)>>,
    pub timeout_ms: Option<u64>,
    pub max_body_bytes: Option<usize>,
    pub max_redirects: Option<usize>,
    pub body: Option<String>,
    pub body_bytes: Option<Vec<u8>>,
    pub json: Option<serde_json::Value>,
    pub save_to: Option<String>,
}

/// The options of a call that passed none.
pub open spec fn no_options() -> RequestOptions {
    RequestOptions {
        method: None,
        url: None,
        headers: None,
        query: None,
        timeout_ms: None,
        max_body_bytes: None,
        max_redirects: None,
        body: None,
        body_bytes: None,
        json: None,
        save_to: None,
    }
}

/// The options a call passed, or none.
pub open spec fn given(o: Option<RequestOptions>) -> RequestOptions {
    match o {
        Some(x) => x,
        None => no_options(),
    }
}

/// `r` is the request built from a method, a URL and a JSON body with the
/// caller's options laid over them: each entry the options set wins, the
/// others keep what was set, and what nobody set is absent.
pub open spec fn overlaid(
    r: RequestFields,
    method: Seq<char>,
    url: String,
    json: Option<serde_json::Value>,
    o: RequestOptions,
) -> bool {
    &&& r.method matches Some(m) && m@ == match o.method {
        Some(x) => x@,
        None => method,
    }
    &&& r.url == match o.url {
        Some(u) => u,
        None => url,
    }
    &&& r.headers@ == match o.headers {
        Some(h) => h@,
        None => Seq::<(String, String)>::empty(),
    }
    &&& r.query@ == match o.query {
        Some(q) => q@,
        None => Seq::<(String, String)>::empty(),
    }
    &&& r.json == match o.json {
        Some(j) => Some(j),
        None => json,
    }
    &&& r.timeout_ms == o.timeout_ms
    &&& r.max_body_bytes == o.max_body_bytes
    &&& r.max_redirects == o.max_redirects
    &&& r.body == o.body
    &&& r.body_bytes == o.body_bytes
    &&& r.save_to == o.save_to
}

fn overlay(method: String, url: String, json: Option<serde_json::Value>, opts: Option<RequestOptions>) -> (r:
    RequestFields)
    ensures
        overlaid(r, method@, url, json, given(opts)),
{
    let o = match opts {
        Some(o) => o,
        None => RequestOptions {
            method: None,
            url: None,
            headers: None,
            query: None,
            timeout_ms: None,
            max_body_bytes: None,
            max_redirects: None,
            body: None,
            body_bytes: None,
            json: None,
            save_to: None,
        },
    };
    let RequestOptions {
        method: o_method,
        url: o_url,
        headers: o_headers,
        query: o_query,
        timeout_ms,
        max_body_bytes,
        max_redirects,
        body,
        body_bytes,
        json: o_json,
        save_to,
    } = o;
    RequestFields {
        method: Some(
            match o_method {
                Some(m) => m,
                None => method,
            },
        ),
        url: match o_url {
            Some(u) => u,
            None => url,
        },
        headers: match o_headers {
            Some(h) => h,
            None => Vec::new(),
        },
        query: match o_query {
            Some(q) => q,
            None => Vec::new(),
        },
        timeout_ms,
        max_body_bytes,
        max_redirects,
        body,
        body_bytes,
        json: match o_json {
            Some(j) => Some(j),
            None => json,
        },
        save_to,
    }
}

/// The request that `get(url, opts)` makes: method `GET` and the URL, with
/// the caller's options laid over them.
pub fn get_fields(url: String, opts: Option<RequestOptions>) -> (r: RequestFields)
    ensures
        overlaid(r, "GET"@, url, None, given(opts)),
{
    overlay(owned("GET"), url, None, opts)
}

/// The request that `post_json(url, value, opts)` makes: method `POST`, the
/// URL and the value as its JSON body, with the caller's options laid over
/// them.
pub fn post_json_fields(url: String, json: serde_json::Value, opts: Option<RequestOptions>) -> (r: RequestFields)
    ensures
        overlaid(r, "POST"@, url, Some(json), given(opts)),
{
    overlay(owned("POST"), url, Some(json), opts)
}

/// The table a request hands back to the plugin.
pub struct ResponseTable {
    pub status: u16,
    pub headers: KvStore<String>,
    /// The body, absent when it is empty.
    pub body: Option<Vec<u8>>,
}

/// Builds the table handed back for a response: its status, its headers
/// (a later header of the same name wins), and its body unless that is
/// empty.
pub fn response_table(status: u16, headers: Vec<(String, String)>, body: Vec<u8>) -> (r: ResponseTable)
    ensures
        r.status == status,
        r.headers@ == pairs_map(headers@),
        body@.len() == 0 ==> r.body is None,
        body@.len() > 0 ==> (r.body matches Some(b) && b@ == body@),
{
    let table = KvStore::from_pairs(headers);
    let kept = if body.len() == 0 {
        None
    } else {
        Some(body)
    };
    ResponseTable { status, headers: table, body: kept }
}

/* --------------------------------- bodies --------------------------------- */

/// A response body as it arrives in chunks: the bytes are counted, and kept
/// unless the body goes to a file; a chunk that takes the count past the
/// limit is refused.
pub struct BodyCollector {
    max: usize,
    size: usize,
    keep: bool,
    body: Vec<u8>,
}

impl BodyCollector {
    #[verifier::type_invariant]
    closed spec fn within_limit(&self) -> bool {
        &&& self.size <= self.max
        &&& self.keep ==> self.body@.len() == self.size
        &&& !self.keep ==> self.body@.len() == 0
    }

    /// The limit.
    pub closed spec fn limit(&self) -> usize {
        self.max
    }

    /// The bytes counted so far.
    pub closed spec fn counted(&self) -> nat {
        self.size as nat
    }

    /// Whether the bytes are kept.
    pub closed spec fn keeps(&self) -> bool {
        self.keep
    }

    /// The bytes kept so far.
    pub closed spec fn kept(&self) -> Seq<u8> {
        self.body@
    }

    /// A collector with nothing counted, for a body of at most `max` bytes;
    /// `keep` tells whether the bytes are kept.
    pub fn new(max: usize, keep: bool) -> (r: BodyCollector)
        ensures
            r.limit() == max,
            r.counted() == 0,
            r.keeps() == keep,
            r.kept() == Seq::<u8>::empty(),
    {
        BodyCollector { max, size: 0, keep, body: Vec::new() }
    }

    /// Takes the next chunk: refused, with nothing changed, when it would
    /// take the count past the limit; otherwise counted, and kept when
    /// bytes are kept.
    pub fn push_chunk(&mut self, chunk: &[u8]) -> (r: Result<(), HttpError>)
        ensures
            old(self).counted() + chunk@.len() > old(self).limit() ==> r == Err::<(), HttpError>(HttpError::BodyTooLarge)
                && *final(self) == *old(self),
            old(self).counted() + chunk@.len() <= old(self).limit() ==> {
                &&& r is Ok
                &&& final(self).limit() == old(self).limit()
                &&& final(self).keeps() == old(self).keeps()
                &&& final(self).counted() == old(self).counted() + chunk@.len()
                &&& final(self).kept() == if old(self).keeps() {
                    old(self).kept() + chunk@
                } else {
                    old(self).kept()
                }
            },
    {
        proof {
            use_type_invariant(&*self);
        }
        if chunk.len() > self.max - self.size {
            return Err(HttpError::BodyTooLarge);
        }
        let mut taken = BodyCollector::new(0, false);
        std::mem::swap(&mut taken, self);
        let BodyCollector { max, size, keep, body } = taken;
        let mut body = body;
        if keep {
            let ghost before = body@;
            let mut i: usize = 0;
            while i < chunk.len()
                invariant
                    i <= chunk@.len(),
                    body@ == before + chunk@.subrange(0, i as int),
                decreases chunk@.len() - i,
            {
                body.push(chunk[i]);
                assert(chunk@.subrange(0, i + 1) =~= chunk@.subrange(0, i as int).push(chunk@[i as int]));
                i = i + 1;
            }
            assert(chunk@.subrange(0, chunk@.len() as int) =~= chunk@);
        }
        *self = BodyCollector { max, size: size + chunk.len(), keep, body };
        Ok(())
    }

    /// The bytes counted so far; never more than the limit.
    pub fn size(&self) -> (r: usize)
        ensures
            r == self.counted(),
            r <= self.limit(),
    {
        proof {
            use_type_invariant(self);
        }
        self.size
    }

    /// The bytes kept.
    pub fn into_body(self) -> (r: Vec<u8>)
        ensures
            r@ == self.kept(),
            r@.len() <= self.limit(),
    {
        proof {
            use_type_invariant(&self);
        }
        self.body
    }
}

} // verus!
