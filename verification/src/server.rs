//! The HTTP boundary: static assets, one frame endpoint, one input endpoint.
//!
//! The browser is a terminal: it asks for a frame, and it posts input events
//! back. There is no API surface beyond "render" and "act".

use crate::app::{Screen, State, Web};
use crate::input;
use crate::input::Event;
use crate::json;
use crate::palette::Appearance;
use crate::paths;
use crate::render;
use crate::render::{Frame, Page, Picture};
use crate::single;
use crate::single::Single;
use crate::text;
use crate::tree;
use vstd::prelude::*;

verus! {

/// The largest input batch accepted: keystrokes and pointer moves only.
pub const MAX_BODY: u64 = 65_536;

/// At most this many requests are in flight at once; beyond it a connection
/// is dropped unread. A browser needs a handful at a time.
pub const MAX_INFLIGHT: usize = 128;

/// Bodies up to this many bytes are sent as they are.
pub const GZIP_FROM: usize = 1024;

/// How hard a body is compressed, 0 to 9.
pub const GZIP_LEVEL: u32 = 6;

/// A request's method.
#[derive(Clone, Copy, Debug, PartialEq, Eq, Structural)]
pub enum Method {
    Get,
    Post,
    Other,
}

/// One header of a request or a reply.
#[derive(Debug)]
pub struct HeaderField {
    pub name: String,
    pub value: String,
}

/// A request without its body.
#[derive(Debug)]
pub struct Head {
    pub method: Method,
    pub url: String,
    pub headers: Vec<HeaderField>,
}

/// The page's constant files.
#[derive(Debug)]
pub struct Assets {
    pub index: Vec<u8>,
    pub script: Vec<u8>,
    pub style: Vec<u8>,
}

/// A reply.
#[derive(Debug)]
pub struct Reply {
    pub status: u16,
    pub headers: Vec<HeaderField>,
    pub body: Vec<u8>,
}

/// A reply, as contracts speak of it.
pub struct Message {
    pub status: u16,
    pub headers: Seq<(Seq<char>, Seq<char>)>,
    pub body: Seq<u8>,
}

/// The views of headers.
pub open spec fn headers_of(headers: Seq<HeaderField>) -> Seq<(Seq<char>, Seq<char>)> {
    headers.map_values(|header: HeaderField| (header.name@, header.value@))
}

impl View for Reply {
    type V = Message;

    open spec fn view(&self) -> Message {
        Message { status: self.status, headers: headers_of(self.headers@), body: self.body@ }
    }
}

/// A frame query's size, as it was written, and its appearance when present.
#[derive(Debug)]
pub struct Params {
    pub w: Option<String>,
    pub h: Option<String>,
    pub dark: Option<bool>,
}

/// A frame query, as contracts speak of it.
pub struct Asked {
    pub w: Option<Seq<char>>,
    pub h: Option<Seq<char>>,
    pub dark: Option<bool>,
}

impl View for Params {
    type V = Asked;

    open spec fn view(&self) -> Asked {
        Asked { w: text::opt_text(self.w), h: text::opt_text(self.h), dark: self.dark }
    }
}

/// What to do about a request.
#[derive(Debug)]
pub enum Step {
    /// Send this.
    Reply(Reply),
    /// Render a frame.
    Frame(Params),
    /// Send the marked list as a file.
    ExportList,
    /// Send the cleanup brief.
    ExportPrompt,
    /// Read the body, apply it, and render the answer.
    ReadInput,
}

/// What to do about a request, as contracts speak of it.
pub enum Route {
    Reply(Message),
    Frame(Asked),
    ExportList,
    ExportPrompt,
    ReadInput,
}

impl View for Step {
    type V = Route;

    open spec fn view(&self) -> Route {
        match self {
            Step::Reply(reply) => Route::Reply(reply@),
            Step::Frame(params) => Route::Frame(params@),
            Step::ExportList => Route::ExportList,
            Step::ExportPrompt => Route::ExportPrompt,
            Step::ReadInput => Route::ReadInput,
        }
    }
}

/// The secret, with its Bearer form precomputed once.
pub struct Token {
    raw: String,
    bearer: String,
}

impl View for Token {
    type V = Seq<char>;

    closed spec fn view(&self) -> Seq<char> {
        self.raw@
    }
}

impl Token {
    /// Both forms are of the same secret.
    #[verifier::type_invariant]
    spec fn forms_agree(self) -> bool {
        self.bearer@ == "Bearer "@ + self.raw@
    }

    /// The secret `raw`.
    pub fn new(raw: &str) -> (r: Token)
        ensures
            r@ == raw@,
    {
        Token { raw: raw.to_owned(), bearer: "Bearer ".to_owned().concat(raw) }
    }
}

/// Compare in time independent of where they differ: a shared secret must
/// not be readable byte by byte off the response latency.
pub fn token_eq(given: &str, expected: &str) -> (r: bool)
    ensures
        r == (given@ == expected@),
{
    let a = given.as_bytes();
    let b = expected.as_bytes();
    let shared: usize = if a.len() < b.len() {
        a.len()
    } else {
        b.len()
    };
    let mut diff: u8 = if a.len() == b.len() {
        0
    } else {
        1
    };
    let mut at: usize = 0;
    while at < shared
        invariant
            at <= shared,
            shared <= a@.len(),
            shared <= b@.len(),
            (diff == 0) == (a@.len() == b@.len() && forall|i: int|
                0 <= i < at ==> a@[i] == b@[i]),
        decreases shared - at,
    {
        let x: u8 = a[at];
        let y: u8 = b[at];
        let ghost before = diff;
        diff = diff | (x ^ y);
        proof {
            assert((before | (x ^ y) == 0) == (before == 0 && x == y)) by (bit_vector);
        }
        at = at + 1;
    }
    proof {
        vstd::utf8::encode_utf8_decode_utf8(given@);
        vstd::utf8::encode_utf8_decode_utf8(expected@);
        if diff == 0 {
            assert(a@ =~= b@);
        }
    }
    diff == 0
}

/// A URL's path.
pub open spec fn url_path(url: Seq<char>) -> Seq<char> {
    match text::found(url, '?', 0) {
        Some(at) => url.take(at),
        None => url,
    }
}

/// A URL's query, when it has one.
pub open spec fn url_query(url: Seq<char>) -> Option<Seq<char>> {
    match text::found(url, '?', 0) {
        Some(at) => Some(url.skip(at + 1)),
        None => None,
    }
}

fn split_url(url: &str) -> (r: (String, Option<String>))
    ensures
        r.0@ == url_path(url@),
        text::opt_text(r.1) == url_query(url@),
{
    let chars = text::chars_of(url);
    let end: usize = chars.len();
    match text::find(&chars, '?') {
        Some(at) => {
            let path = text::text_between(&chars, 0, at);
            let query = text::text_between(&chars, at + 1, end);
            assert(path@ =~= url@.take(at as int));
            assert(query@ =~= url@.skip(at + 1));
            (path, Some(query))
        },
        None => (url.to_owned(), None),
    }
}

/// The secret is in a query.
pub open spec fn query_has_token(query: Seq<char>, secret: Seq<char>) -> bool {
    exists|i: int|
        0 <= i < text::pieces(query, '&').len() && #[trigger] text::pieces(query, '&')[i]
            == "token="@ + secret
}

/// The secret is in a header.
pub open spec fn headers_have_token(headers: Seq<HeaderField>, secret: Seq<char>) -> bool {
    exists|i: int|
        0 <= i < headers.len() && text::alike(
            (#[trigger] headers[i]).name@,
            "authorization"@,
        ) && headers[i].value@ == "Bearer "@ + secret
}

/// A request carries the secret: `token=` in the URL's query, or an
/// `Authorization: Bearer` header.
pub open spec fn carries_token(head: Head, secret: Seq<char>) -> bool {
    ||| url_query(head.url@) matches Some(query) && query_has_token(query, secret)
    ||| headers_have_token(head.headers@, secret)
}

fn is_token_pair(pair: &str, token: &Token) -> (r: bool)
    ensures
        r == (pair@ == "token="@ + token@),
{
    match text::after(pair, "token=") {
        Some(value) => {
            assert(pair@ =~= "token="@ + value@);
            assert(pair@.skip("token="@.len() as int) =~= value@);
            proof {
                if pair@ == "token="@ + token@ {
                    assert(pair@.skip("token="@.len() as int) =~= token@);
                }
            }
            token_eq(value.as_str(), token.raw.as_str())
        },
        None => {
            proof {
                if pair@ == "token="@ + token@ {
                    assert(pair@.take("token="@.len() as int) =~= "token="@);
                }
            }
            false
        },
    }
}

/// The shared secret, checked when one is configured: `token=` in the URL's
/// query, or an `Authorization: Bearer` header.
pub fn authorized(head: &Head, token: &Token) -> (r: bool)
    ensures
        r == carries_token(*head, token@),
{
    proof {
        use_type_invariant(token);
    }
    let (_, query) = split_url(head.url.as_str());
    if let Some(query) = query {
        let pairs = text::split(query.as_str(), '&');
        let ghost all = text::pieces(query@, '&');
        let mut at: usize = 0;
        while at < pairs.len()
            invariant
                at <= pairs@.len(),
                all == text::texts(pairs@),
                all == text::pieces(query@, '&'),
                url_query(head.url@) == Some(query@),
                forall|i: int| 0 <= i < at ==> #[trigger] all[i] != "token="@ + token@,
            decreases pairs@.len() - at,
        {
            assert(all[at as int] == pairs@[at as int]@);
            if is_token_pair(pairs[at].as_str(), token) {
                return true;
            }
            at = at + 1;
        }
    }
    let mut at: usize = 0;
    while at < head.headers.len()
        invariant
            at <= head.headers@.len(),
            token.bearer@ == "Bearer "@ + token@,
            !(url_query(head.url@) matches Some(query) && query_has_token(query, token@)),
            forall|i: int|
                0 <= i < at ==> !(text::alike(
                    (#[trigger] head.headers@[i]).name@,
                    "authorization"@,
                ) && head.headers@[i].value@ == "Bearer "@ + token@),
        decreases head.headers@.len() - at,
    {
        let header = &head.headers[at];
        if text::same_folded(header.name.as_str(), "authorization") && token_eq(
            header.value.as_str(),
            token.bearer.as_str(),
        ) {
            return true;
        }
        at = at + 1;
    }
    false
}

/// What a frame query says, piece by piece; the last word counts.
pub open spec fn asked(pairs: Seq<Seq<char>>) -> Asked
    decreases pairs.len(),
{
    if pairs.len() == 0 {
        Asked { w: None, h: None, dark: None }
    } else {
        let before = asked(pairs.drop_last());
        let pair = pairs.last();
        if text::begins(pair, "w="@) {
            Asked { w: Some(pair.skip("w="@.len() as int)), ..before }
        } else if text::begins(pair, "h="@) {
            Asked { h: Some(pair.skip("h="@.len() as int)), ..before }
        } else if text::begins(pair, "dark="@) {
            Asked { dark: Some(pair.skip("dark="@.len() as int) == "1"@), ..before }
        } else {
            before
        }
    }
}

/// The frame query's `w`/`h` as they are written, and its `dark` when
/// present.
pub fn params_from(query: &str) -> (r: Params)
    ensures
        r@ == asked(text::pieces(query@, '&')),
{
    let pairs = text::split(query, '&');
    let ghost all = text::pieces(query@, '&');
    let mut w: Option<String> = None;
    let mut h: Option<String> = None;
    let mut dark: Option<bool> = None;
    let mut at: usize = 0;
    assert(all.take(0) =~= Seq::empty());
    while at < pairs.len()
        invariant
            at <= pairs@.len(),
            all == text::texts(pairs@),
            (Asked { w: text::opt_text(w), h: text::opt_text(h), dark }) == asked(
                all.take(at as int),
            ),
        decreases pairs@.len() - at,
    {
        proof {
            assert(all.take(at + 1).drop_last() =~= all.take(at as int));
            assert(all.take(at + 1).last() == pairs@[at as int]@);
        }
        let pair = pairs[at].as_str();
        if let Some(value) = text::after(pair, "w=") {
            w = Some(value);
        } else if let Some(value) = text::after(pair, "h=") {
            h = Some(value);
        } else if let Some(value) = text::after(pair, "dark=") {
            dark = Some(text::same(value.as_str(), "1"));
        }
        at = at + 1;
    }
    assert(all.take(at as int) =~= all);
    Params { w, h, dark }
}

/// Nothing from elsewhere may load, nothing here may be framed or sniffed
/// into another type, and no referrer leaves the page.
pub open spec fn base(cache: Seq<char>) -> Seq<(Seq<char>, Seq<char>)> {
    seq![
        ("X-Content-Type-Options"@, "nosniff"@),
        (
            "Content-Security-Policy"@,
            "default-src 'self'; style-src 'self' 'unsafe-inline'; script-src 'self'; img-src 'self' data:; frame-ancestors 'none'"@,
        ),
        ("Referrer-Policy"@, "no-referrer"@),
        ("Cache-Control"@, cache),
    ]
}

/// A reply with the headers every reply has.
pub open spec fn plain(
    status: u16,
    body: Seq<u8>,
    content_type: Seq<char>,
    cache: Seq<char>,
) -> Message {
    Message { status, headers: base(cache).push(("Content-Type"@, content_type)), body }
}

/// A reply with one more header.
pub open spec fn with_header(message: Message, name: Seq<char>, value: Seq<char>) -> Message {
    Message { headers: message.headers.push((name, value)), ..message }
}

/// A reply with a body that may have been compressed.
pub open spec fn packed(
    body: Seq<u8>,
    compressed: Option<Seq<u8>>,
    content_type: Seq<char>,
    status: u16,
    cache: Seq<char>,
) -> Message {
    match compressed {
        Some(small) => with_header(
            with_header(
                plain(status, small, content_type, cache),
                "Content-Encoding"@,
                "gzip"@,
            ),
            "Vary"@,
            "Accept-Encoding"@,
        ),
        None => plain(status, body, content_type, cache),
    }
}

/// A client takes gzip.
pub open spec fn accepts_gzip(headers: Seq<HeaderField>) -> bool {
    exists|i: int|
        0 <= i < headers.len() && text::alike(
            (#[trigger] headers[i]).name@,
            "accept-encoding"@,
        ) && text::has(headers[i].value@, "gzip"@)
}

/// The gzip stream of a body at a level; nothing when it cannot be made.
pub uninterp spec fn gzip_bytes(body: Seq<u8>, level: u32) -> Option<Seq<u8>>;

/// The compressed body a client is sent, when it is sent one.
pub open spec fn compressed(head: Head, body: Seq<u8>) -> Option<Seq<u8>> {
    if accepts_gzip(head.headers@) && body.len() > GZIP_FROM {
        gzip_bytes(body, GZIP_LEVEL)
    } else {
        None
    }
}

/// The reply to `head` with a body.
pub open spec fn bodied(
    head: Head,
    body: Seq<u8>,
    content_type: Seq<char>,
    status: u16,
    cache: Seq<char>,
) -> Message {
    packed(body, compressed(head, body), content_type, status, cache)
}

/// The view of optional bytes.
pub open spec fn opt_bytes(bytes: Option<Vec<u8>>) -> Option<Seq<u8>> {
    match bytes {
        Some(bytes) => Some(bytes@),
        None => None,
    }
}

/// `flate2::write::GzEncoder` fed the whole body and finished: the stream
/// depends on the body and the level alone, since the header holds no time
/// and no operating system, and begins with the gzip magic and method.
#[verifier::external_body]
fn gzip(body: &[u8], level: u32) -> (r: Option<Vec<u8>>)
    requires
        level <= 9,
    ensures
        opt_bytes(r) == gzip_bytes(body@, level),
        r matches Some(stream) ==> stream@.len() >= 3 && stream@[0] == 0x1f && stream@[1] == 0x8b
            && stream@[2] == 8,
{
    let mut encoder = flate2::write::GzEncoder::new(Vec::new(), flate2::Compression::new(level));
    match std::io::Write::write_all(&mut encoder, body) {
        Ok(()) => encoder.finish().ok(),
        Err(_) => None,
    }
}

fn header(name: &str, value: &str) -> (r: HeaderField)
    ensures
        (r.name@, r.value@) == (name@, value@),
{
    HeaderField { name: name.to_owned(), value: value.to_owned() }
}

/// The headers every reply has. The UI is one page of self-contained assets;
/// `img-src data:` is the inline SVG favicon, and nothing else loads images
/// at all.
pub fn base_headers(cache: &str) -> (r: Vec<HeaderField>)
    ensures
        headers_of(r@) == base(cache@),
{
    let mut headers: Vec<HeaderField> = Vec::new();
    headers.push(header("X-Content-Type-Options", "nosniff"));
    headers.push(
        header(
            "Content-Security-Policy",
            "default-src 'self'; style-src 'self' 'unsafe-inline'; script-src 'self'; img-src 'self' data:; frame-ancestors 'none'",
        ),
    );
    headers.push(header("Referrer-Policy", "no-referrer"));
    headers.push(header("Cache-Control", cache));
    assert(headers_of(headers@) =~= base(cache@));
    headers
}

/// A reply with the headers every reply has, and its content type.
pub fn with_headers(status: u16, body: Vec<u8>, content_type: &str, cache: &str) -> (r: Reply)
    ensures
        r@ == plain(status, body@, content_type@, cache@),
{
    let mut headers = base_headers(cache);
    let ghost before = headers@;
    headers.push(header("Content-Type", content_type));
    assert(headers_of(headers@) =~= headers_of(before).push(("Content-Type"@, content_type@)));
    Reply { status, headers, body }
}

fn add_header(reply: Reply, name: &str, value: &str) -> (r: Reply)
    ensures
        r@ == with_header(reply@, name@, value@),
{
    let ghost before = reply.headers@;
    let mut headers = reply.headers;
    headers.push(header(name, value));
    assert(headers_of(headers@) =~= headers_of(before).push((name@, value@)));
    Reply { status: reply.status, headers, body: reply.body }
}

/// A reply with a body, or with what it was compressed to.
pub fn pack(
    body: Vec<u8>,
    compressed: Option<Vec<u8>>,
    content_type: &str,
    status: u16,
    cache: &str,
) -> (r: Reply)
    ensures
        r@ == packed(body@, opt_bytes(compressed), content_type@, status, cache@),
{
    match compressed {
        Some(small) => add_header(
            add_header(
                with_headers(status, small, content_type, cache),
                "Content-Encoding",
                "gzip",
            ),
            "Vary",
            "Accept-Encoding",
        ),
        None => with_headers(status, body, content_type, cache),
    }
}

fn takes_gzip(headers: &Vec<HeaderField>) -> (r: bool)
    ensures
        r == accepts_gzip(headers@),
{
    let mut at: usize = 0;
    while at < headers.len()
        invariant
            at <= headers@.len(),
            forall|i: int|
                0 <= i < at ==> !(text::alike(
                    (#[trigger] headers@[i]).name@,
                    "accept-encoding"@,
                ) && text::has(headers@[i].value@, "gzip"@)),
        decreases headers@.len() - at,
    {
        if text::same_folded(headers[at].name.as_str(), "accept-encoding") && text::contains(
            headers[at].value.as_str(),
            "gzip",
        ) {
            return true;
        }
        at = at + 1;
    }
    false
}

/// The frames are the same few hundred elements over and over, which gzip
/// squeezes well: the difference between a gesture the wire notices and one
/// it doesn't. Skipped for tiny bodies and identity-only clients.
pub fn body_response(
    head: &Head,
    body: Vec<u8>,
    content_type: &str,
    status: u16,
    cache: &str,
) -> (r: Reply)
    ensures
        r@ == bodied(*head, body@, content_type@, status, cache@),
{
    let compressed = if takes_gzip(&head.headers) && body.len() > GZIP_FROM {
        gzip(body.as_slice(), GZIP_LEVEL)
    } else {
        None
    };
    pack(body, compressed, content_type, status, cache)
}

/// A text's bytes.
pub open spec fn bytes_of(text: Seq<char>) -> Seq<u8> {
    vstd::utf8::encode_utf8(text)
}

fn text_bytes(text: &str) -> (r: Vec<u8>)
    ensures
        r@ == bytes_of(text@),
{
    let bytes = text.as_bytes();
    let all = paths::bytes_between(bytes, 0, bytes.len());
    assert(all@ =~= bytes@);
    all
}

/// A request without the secret.
pub open spec fn refusal() -> Message {
    plain(
        401,
        bytes_of(
            "disktree-web: this server was started with --token; open it with ?token=… on the URL"@,
        ),
        "text/plain"@,
        "no-store"@,
    )
}

/// The answer to a request without the secret.
pub fn unauthorized() -> (r: Reply)
    ensures
        r@ == refusal(),
{
    with_headers(
        401,
        text_bytes(
            "disktree-web: this server was started with --token; open it with ?token=… on the URL",
        ),
        "text/plain",
        "no-store",
    )
}

/// Input that cannot be read.
pub open spec fn unreadable() -> Message {
    plain(400, bytes_of("disktree-web: unreadable input"@), "text/plain"@, "no-store"@)
}

/// The answer to input that cannot be read.
pub fn bad_request() -> (r: Reply)
    ensures
        r@ == unreadable(),
{
    with_headers(400, text_bytes("disktree-web: unreadable input"), "text/plain", "no-store")
}

/// What becomes of input that was posted: refused where its body could not be
/// read, or was read and makes no batch.
pub fn refused_input(read: bool, parsed: bool) -> (r: Option<Reply>)
    ensures
        match r {
            Some(reply) => !(read && parsed) && reply@ == unreadable(),
            None => read && parsed,
        },
{
    if read && parsed {
        None
    } else {
        Some(bad_request())
    }
}

/// The answer where a request could not be handled: never a dropped
/// connection.
pub fn internal_error() -> (r: Reply)
    ensures
        r@ == plain(
            500,
            bytes_of("disktree-web: internal error"@),
            "text/plain"@,
            "no-store"@,
        ),
{
    with_headers(500, text_bytes("disktree-web: internal error"), "text/plain", "no-store")
}

/// No such route.
pub open spec fn nowhere() -> Message {
    plain(404, bytes_of("disktree-web: not found"@), "text/plain"@, "no-store"@)
}

/// The answer where there is no such route.
pub fn not_found() -> (r: Reply)
    ensures
        r@ == nowhere(),
{
    with_headers(404, text_bytes("disktree-web: not found"), "text/plain", "no-store")
}

/// A constant file a `<script>` or `<link>` tag asks for, which cannot send
/// the secret. The match is exact.
pub open spec fn is_asset(path: Seq<char>) -> bool {
    path == "/static/app.js"@ || path == "/static/style.css"@
}

/// A request is turned away.
pub open spec fn gated(head: Head, secret: Option<Seq<char>>) -> bool {
    secret matches Some(secret) && !is_asset(url_path(head.url@)) && !carries_token(head, secret)
}

/// The route of a request that is let in.
pub open spec fn route(head: Head, assets: Assets) -> Route {
    let path = url_path(head.url@);
    if head.method == Method::Get && path == "/"@ {
        Route::Reply(
            bodied(head, assets.index@, "text/html; charset=utf-8"@, 200, "no-cache"@),
        )
    } else if head.method == Method::Get && path == "/static/app.js"@ {
        Route::Reply(bodied(head, assets.script@, "application/javascript"@, 200, "no-cache"@))
    } else if head.method == Method::Get && path == "/static/style.css"@ {
        Route::Reply(bodied(head, assets.style@, "text/css"@, 200, "no-cache"@))
    } else if head.method == Method::Get && path == "/api/frame"@ {
        Route::Frame(
            asked(
                text::pieces(
                    match url_query(head.url@) {
                        Some(query) => query,
                        None => ""@,
                    },
                    '&',
                ),
            ),
        )
    } else if head.method == Method::Get && path == "/api/export/list"@ {
        Route::ExportList
    } else if head.method == Method::Get && path == "/api/export/prompt"@ {
        Route::ExportPrompt
    } else if head.method == Method::Post && path == "/api/input"@ {
        Route::ReadInput
    } else {
        Route::Reply(nowhere())
    }
}

/// What to do about a request.
pub open spec fn handled(head: Head, assets: Assets, secret: Option<Seq<char>>) -> Route {
    if gated(head, secret) {
        Route::Reply(refusal())
    } else {
        route(head, assets)
    }
}

/// The view of an optional token.
pub open spec fn opt_token(token: Option<&Token>) -> Option<Seq<char>> {
    match token {
        Some(token) => Some(token@),
        None => None,
    }
}

fn copied(bytes: &Vec<u8>) -> (r: Vec<u8>)
    ensures
        r@ == bytes@,
{
    let all = paths::bytes_between(bytes.as_slice(), 0, bytes.len());
    assert(all@ =~= bytes@);
    all
}

fn route_get(head: &Head, assets: &Assets, path: &str, query: Option<String>) -> (r: Step)
    requires
        head.method == Method::Get,
        path@ == url_path(head.url@),
        text::opt_text(query) == url_query(head.url@),
    ensures
        r@ == route(*head, *assets),
{
    if text::same(path, "/") {
        // The shell is constant; revalidate so a redeploy shows.
        Step::Reply(
            body_response(
                head,
                copied(&assets.index),
                "text/html; charset=utf-8",
                200,
                "no-cache",
            ),
        )
    } else if text::same(path, "/static/app.js") {
        Step::Reply(
            body_response(
                head,
                copied(&assets.script),
                "application/javascript",
                200,
                "no-cache",
            ),
        )
    } else if text::same(path, "/static/style.css") {
        Step::Reply(body_response(head, copied(&assets.style), "text/css", 200, "no-cache"))
    } else if text::same(path, "/api/frame") {
        Step::Frame(
            match query {
                Some(query) => params_from(query.as_str()),
                None => params_from(""),
            },
        )
    } else if text::same(path, "/api/export/list") {
        Step::ExportList
    } else if text::same(path, "/api/export/prompt") {
        Step::ExportPrompt
    } else {
        Step::Reply(not_found())
    }
}

/// What to do about one request.
///
/// Static assets are exempt from the secret: they are constant and carry no
/// filesystem data, and a `<script>` or `<link>` tag cannot send it. The
/// match is exact, never a prefix, so no path construction can widen it.
/// Everything that can read or change the disk stays gated.
pub fn handle(head: &Head, assets: &Assets, token: Option<&Token>) -> (r: Step)
    ensures
        r@ == handled(*head, *assets, opt_token(token)),
{
    let (path, query) = split_url(head.url.as_str());
    let asset = text::same(path.as_str(), "/static/app.js") || text::same(
        path.as_str(),
        "/static/style.css",
    );
    if let Some(token) = token {
        if !asset && !authorized(head, token) {
            return Step::Reply(unauthorized());
        }
    }
    match head.method {
        Method::Get => route_get(head, assets, path.as_str(), query),
        Method::Post => if text::same(path.as_str(), "/api/input") {
            Step::ReadInput
        } else {
            Step::Reply(not_found())
        },
        Method::Other => Step::Reply(not_found()),
    }
}

/// Whether another request may be taken up.
pub fn admits(inflight: usize) -> (r: bool)
    ensures
        r == (inflight < MAX_INFLIGHT),
{
    inflight < MAX_INFLIGHT
}

/// The reply with the marked list, one path per line, for a script or a later
/// look. The extra header makes the browser save it.
pub fn export_list(head: &Head, list: String) -> (r: Reply)
    ensures
        r@ == with_header(
            bodied(*head, bytes_of(list@), "text/plain; charset=utf-8"@, 200, "no-store"@),
            "Content-Disposition"@,
            "attachment; filename=disktree-delete-list.txt"@,
        ),
{
    add_header(
        body_response(
            head,
            text_bytes(list.as_str()),
            "text/plain; charset=utf-8",
            200,
            "no-store",
        ),
        "Content-Disposition",
        "attachment; filename=disktree-delete-list.txt",
    )
}

/// The reply with the cleanup brief for a coding agent, as text to copy.
pub fn export_prompt(head: &Head, prompt: String) -> (r: Reply)
    ensures
        r@ == bodied(*head, bytes_of(prompt@), "text/plain; charset=utf-8"@, 200, "no-store"@),
{
    body_response(head, text_bytes(prompt.as_str()), "text/plain; charset=utf-8", 200, "no-store")
}

/// What a request answers with, once its input is applied.
///
/// Pointer traffic dominates and changes nothing that is painted, so it earns
/// a bare acknowledgement. View gestures repaint only the mosaic. Everything
/// else gets the full page.
#[derive(Debug)]
pub enum Answer {
    Ack,
    Mosaic {
        mosaic: String,
        /// The zoom readout's new text ("1.4×", empty at 1×).
        zoom: String,
    },
    Frame(Frame),
}

/// An answer, as contracts speak of it.
pub enum Answered {
    Ack,
    Mosaic { mosaic: Seq<char>, zoom: Seq<char> },
    Frame(Picture),
}

impl View for Answer {
    type V = Answered;

    open spec fn view(&self) -> Answered {
        match self {
            Answer::Ack => Answered::Ack,
            Answer::Mosaic { mosaic, zoom } => Answered::Mosaic { mosaic: mosaic@, zoom: zoom@ },
            Answer::Frame(frame) => Answered::Frame(frame@),
        }
    }
}

/// What kind of batch a request carries.
#[derive(Clone, Copy, Debug, PartialEq, Eq, Structural)]
pub enum Traffic {
    /// The pointer moved, and nothing else.
    Pointer,
    /// The view moved, and nothing else.
    View,
    Other,
}

/// An event of the pointer alone.
pub open spec fn of_pointer(event: Event) -> bool {
    event is Move || event is Leave
}

/// An event of the view alone.
pub open spec fn of_view(event: Event) -> bool {
    event is Wheel || event is Zoom || event is Pan || event is Size
}

/// What kind of batch events are.
pub open spec fn traffic(events: Seq<Event>) -> Traffic {
    if events.len() > 0 && forall|i: int|
        0 <= i < events.len() ==> of_pointer(#[trigger] events[i]) {
        Traffic::Pointer
    } else if events.len() > 0 && forall|i: int|
        0 <= i < events.len() ==> of_view(#[trigger] events[i]) {
        Traffic::View
    } else {
        Traffic::Other
    }
}

/// What kind of batch events are.
pub fn traffic_of(events: &Vec<Event>) -> (r: Traffic)
    ensures
        r == traffic(events@),
{
    if events.len() == 0 {
        return Traffic::Other;
    }
    let mut pointer = true;
    let mut view = true;
    let mut at: usize = 0;
    while at < events.len()
        invariant
            at <= events@.len(),
            pointer == forall|i: int| 0 <= i < at ==> of_pointer(#[trigger] events@[i]),
            view == forall|i: int| 0 <= i < at ==> of_view(#[trigger] events@[i]),
        decreases events@.len() - at,
    {
        let event = &events[at];
        let on_pointer = match event {
            Event::Move { .. } | Event::Leave => true,
            _ => false,
        };
        let on_view = match event {
            Event::Wheel { .. } | Event::Zoom { .. } | Event::Pan { .. } | Event::Size { .. } =>
                true,
            _ => false,
        };
        proof {
            assert(on_pointer == of_pointer(events@[at as int]));
            assert(on_view == of_view(events@[at as int]));
        }
        pointer = pointer && on_pointer;
        view = view && on_view;
        at = at + 1;
    }
    if pointer {
        Traffic::Pointer
    } else if view {
        Traffic::View
    } else {
        Traffic::Other
    }
}

/// Which answer a batch earns.
#[derive(Clone, Copy, Debug, PartialEq, Eq, Structural)]
pub enum Earned {
    Ack,
    Mosaic,
    Frame,
}

impl State {
    /// A batch begins: the browser's appearance and the mosaic's size.
    pub open spec fn begin_batch(self, w: Single, h: Single, dark: Option<bool>) -> State {
        State {
            appearance: match dark {
                Some(dark) => if dark {
                    Appearance::Dark
                } else {
                    Appearance::Light
                },
                None => self.appearance,
            },
            mosaic_size: if input::usable_size(w, h) {
                (w, h)
            } else if self.mosaic_size.0.below(Single { bits: single::ONE }) {
                (Single { bits: single::TWELVE_EIGHTY }, Single { bits: single::EIGHT_HUNDRED })
            } else {
                self.mosaic_size
            },
            ..self
        }
    }

    /// The answer a batch earns: a gesture that entered or left a directory
    /// changes the whole page; one that only moved the camera repaints the
    /// mosaic alone.
    pub open spec fn earned(self, traffic: Traffic, crumbs: Seq<usize>, screen: Screen) -> Earned {
        match traffic {
            Traffic::Pointer => Earned::Ack,
            Traffic::View => if self.crumbs == crumbs && self.screen == screen {
                Earned::Mosaic
            } else {
                Earned::Frame
            },
            Traffic::Other => Earned::Frame,
        }
    }

    /// The answer itself.
    pub open spec fn answer(self, earned: Earned, page: Page) -> Answered {
        match earned {
            Earned::Ack => Answered::Ack,
            Earned::Mosaic => Answered::Mosaic {
                mosaic: if self.tree is Some {
                    self.mosaic(page.canvas, page.words, page.palette)
                } else {
                    ""@
                },
                zoom: match page.words.zoom {
                    Some(zoom) => zoom@,
                    None => ""@,
                },
            },
            Earned::Frame => Answered::Frame(self.frame(page)),
        }
    }
}

impl Web {
    /// Take up a batch's appearance and size. The shim's first call happens
    /// before the mosaic container exists, so it reports nothing; the first
    /// paint gets a real size rather than an empty viewport.
    pub fn begin_batch(&mut self, w: Single, h: Single, dark: Option<bool>)
        ensures
            final(self)@ == old(self)@.begin_batch(w, h, dark),
    {
        let one = Single::from_bits(single::ONE);
        let size = if one.le(w) && one.le(h) && w.is_finite() && h.is_finite() {
            (w, h)
        } else if self.mosaic_size.0.lt(one) {
            (Single::from_bits(single::TWELVE_EIGHTY), Single::from_bits(single::EIGHT_HUNDRED))
        } else {
            self.mosaic_size
        };
        let appearance = match dark {
            Some(true) => Appearance::Dark,
            Some(false) => Appearance::Light,
            None => self.appearance,
        };
        self.appearance = appearance;
        self.mosaic_size = size;
    }

    /// Which answer a batch earns that began in the directory `crumbs` on
    /// `screen`.
    pub fn earned(&self, traffic: Traffic, crumbs: &[usize], screen: Screen) -> (r: Earned)
        ensures
            r == self@.earned(traffic, crumbs@, screen),
    {
        match traffic {
            Traffic::Pointer => Earned::Ack,
            Traffic::View => if tree::same_crumbs(self.crumbs.as_slice(), crumbs) && self.screen
                == screen {
                Earned::Mosaic
            } else {
                Earned::Frame
            },
            Traffic::Other => Earned::Frame,
        }
    }

    /// The answer a batch earned.
    pub fn answer(&self, earned: Earned, page: &Page) -> (r: Answer)
        requires
            earned == Earned::Mosaic && self@.tree is Some ==> self@.paintable(*page),
            earned == Earned::Frame ==> self@.drawable(*page),
        ensures
            r@ == self@.answer(earned, *page),
    {
        match earned {
            Earned::Ack => Answer::Ack,
            Earned::Mosaic => Answer::Mosaic {
                mosaic: if self.tree.is_some() {
                    self.mosaic(&page.canvas, &page.words, &page.palette)
                } else {
                    "".to_owned()
                },
                zoom: match &page.words.zoom {
                    Some(zoom) => zoom.as_str().to_owned(),
                    None => "".to_owned(),
                },
            },
            Earned::Frame => Answer::Frame(render::frame(self, page)),
        }
    }
}

/// A frame that could not be written out.
pub open spec fn blank_frame() -> Seq<char> {
    "{\"html\":\"\",\"title\":\"disktree\",\"busy\":false,\"find_open\":false,\"find\":\"\"}"@
}

/// The reply an answer goes out as. `written` is its frame as JSON, when it
/// is one and could be written.
pub open spec fn answered(head: Head, answer: Answered, written: Option<Seq<char>>) -> Message {
    match answer {
        Answered::Ack => plain(204, bytes_of(""@), "text/plain"@, "no-store"@),
        Answered::Mosaic { mosaic, zoom } => bodied(
            head,
            bytes_of(json::mosaic_answer(mosaic, zoom)),
            "application/json"@,
            200,
            "no-store"@,
        ),
        Answered::Frame(_) => bodied(
            head,
            bytes_of(
                match written {
                    Some(text) => text,
                    None => blank_frame(),
                },
            ),
            "application/json"@,
            200,
            "no-store"@,
        ),
    }
}

/// The reply an answer goes out as. `written` is its frame as JSON, when it
/// is one and could be written.
pub fn respond(head: &Head, answer: &Answer, written: Option<String>) -> (r: Reply)
    ensures
        r@ == answered(*head, answer@, text::opt_text(written)),
{
    let body = match answer {
        Answer::Ack => {
            return with_headers(204, text_bytes(""), "text/plain", "no-store");
        },
        Answer::Mosaic { mosaic, zoom } => json::mosaic_json(mosaic.as_str(), zoom.as_str()),
        Answer::Frame(_) => match written {
            Some(text) => text,
            None =>
                "{\"html\":\"\",\"title\":\"disktree\",\"busy\":false,\"find_open\":false,\"find\":\"\"}".to_owned(),
        },
    };
    body_response(head, text_bytes(body.as_str()), "application/json", 200, "no-store")
}

/// Without the secret, where there is one, a request that is not for an asset
/// is answered 401, and nothing else ever is.
pub proof fn the_gate_answers_401(head: Head, assets: Assets, secret: Option<Seq<char>>)
    ensures
        gated(head, secret) <==> (handled(head, assets, secret) matches Route::Reply(reply)
            && reply.status == 401),
{
}

/// Whatever reads or changes the disk is behind the secret: only a request
/// that carries it, or a server without one, gets past the constant files.
pub proof fn the_disk_is_behind_the_gate(head: Head, assets: Assets, secret: Option<Seq<char>>)
    ensures
        !(handled(head, assets, secret) is Reply) ==> match secret {
            Some(secret) => carries_token(head, secret),
            None => true,
        },
{
    reveal_strlit("/static/app.js");
    reveal_strlit("/static/style.css");
    reveal_strlit("/api/frame");
    reveal_strlit("/api/export/list");
    reveal_strlit("/api/export/prompt");
    reveal_strlit("/api/input");
    let path = url_path(head.url@);
    if is_asset(path) {
        assert(path[1] == 's');
        assert("/api/frame"@[1] == 'a');
        assert("/api/export/list"@[1] == 'a');
        assert("/api/export/prompt"@[1] == 'a');
        assert("/api/input"@[1] == 'a');
    }
}

/// The constant files are served to everyone.
pub proof fn assets_need_no_token(head: Head, assets: Assets, secret: Option<Seq<char>>)
    requires
        is_asset(url_path(head.url@)),
    ensures
        handled(head, assets, secret) == route(head, assets),
{
}

/// Every reply forbids framing, sniffing and referrers, whatever it carries.
pub proof fn every_reply_is_fenced(
    body: Seq<u8>,
    compressed: Option<Seq<u8>>,
    content_type: Seq<char>,
    status: u16,
    cache: Seq<char>,
)
    ensures
        forall|i: int|
            0 <= i < base(cache).len() ==> #[trigger] packed(
                body,
                compressed,
                content_type,
                status,
                cache,
            ).headers[i] == base(cache)[i],
{
}

} // verus!
