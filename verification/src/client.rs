//! Where the server is, what is asked of it, and how its replies are read.

use vstd::prelude::*;
use crate::config::{Config, ConfigView};
use crate::config;
use crate::failure::Failure;
use crate::json::{Json, JsonView};
use crate::json;
use crate::number;
use crate::text;
use crate::wire;

verus! {

/// A server: the root of its API and the token that opens it.
pub struct Client {
    pub base: String,
    pub token: String,
}

/// The mathematical model of a [`Client`].
pub struct ClientView {
    pub base: Seq<char>,
    pub token: Seq<char>,
}

impl View for Client {
    type V = ClientView;

    open spec fn view(&self) -> ClientView {
        ClientView { base: self.base@, token: self.token@ }
    }
}

/// What a request carries.
pub enum Body {
    Empty,
    Value(Json),
    Bytes(Vec<u8>),
}

/// The mathematical model of a [`Body`].
pub enum BodyView {
    Empty,
    Value(JsonView),
    Bytes(Seq<u8>),
}

impl View for Body {
    type V = BodyView;

    open spec fn view(&self) -> BodyView {
        match self {
            Body::Empty => BodyView::Empty,
            Body::Value(v) => BodyView::Value(v@),
            Body::Bytes(b) => BodyView::Bytes(b@),
        }
    }
}

/// A request to a server, and the seconds in which it has to be answered where there
/// is a limit.
pub struct Request {
    pub method: String,
    pub url: String,
    pub headers: Vec<(String, String)>,
    pub query: Vec<(String, String)>,
    pub body: Body,
    pub timeout: Option<u64>,
}

/// The mathematical model of a [`Request`].
#[verifier::ext_equal]
pub struct RequestView {
    pub method: Seq<char>,
    pub url: Seq<char>,
    pub headers: Seq<(Seq<char>, Seq<char>)>,
    pub query: Seq<(Seq<char>, Seq<char>)>,
    pub body: BodyView,
    pub timeout: Option<u64>,
}

impl View for Request {
    type V = RequestView;

    open spec fn view(&self) -> RequestView {
        RequestView {
            method: self.method@,
            url: self.url@,
            headers: text::pairs(self.headers@),
            query: text::pairs(self.query@),
            body: self.body@,
            timeout: self.timeout,
        }
    }
}

/// How a request came back: with an answer, with a refusal and its HTTP status, or
/// not at all.
pub enum Reply {
    Answer(String),
    Refusal(u16, String),
    Broken(String),
}

/// How a download came back.
pub enum Download {
    Answer(Vec<u8>),
    Refusal(u16, String),
    Broken(String),
}

// ---- meaning ----

/// The root of the API at `url`: without slashes at its end, and ending in `/api`.
pub open spec fn base_url(url: Seq<char>) -> Seq<char> {
    let u = text::without_end(url, text::just('/'));
    if "/api"@.is_suffix_of(u) {
        u
    } else {
        u + "/api"@
    }
}

/// The root of the server whose API is at `base`.
pub open spec fn host_of(base: Seq<char>) -> Seq<char> {
    if "/api"@.is_suffix_of(base) {
        base.take(base.len() - 4)
    } else {
        base
    }
}

/// How long the scheme at the start of `base` is, `://` included.
pub open spec fn scheme_length(base: Seq<char>) -> int {
    let n = text::seek("://"@, base) as int;
    if n < base.len() {
        n + 3
    } else {
        0
    }
}

/// `base` up to the first slash behind its scheme.
pub open spec fn origin_of(base: Seq<char>) -> Seq<char> {
    let from = scheme_length(base);
    base.take(from + text::run(base.skip(from), text::just('/')))
}

/// The server to use: the one in the environment where that names one fully and no
/// other is asked for, else the one selected in the configuration.
pub open spec fn resolved(
    server: Option<Seq<char>>,
    env_url: Option<Seq<char>>,
    env_token: Option<Seq<char>>,
    stored: Result<ConfigView, Seq<char>>,
) -> Result<ClientView, Seq<char>> {
    match (server, env_url, env_token) {
        (None, Some(u), Some(t)) => Ok(ClientView { base: base_url(u), token: t }),
        _ => match stored {
            Err(e) => Err(e),
            Ok(c) => match config::selected(c, server) {
                None => Err(
                    "no server selected: set a default with `yt default NAME`, pass --server, or set YOUTRACK_URL"@,
                ),
                Some(n) => if c.servers.contains_key(n) {
                    Ok(ClientView { base: base_url(c.servers[n].0), token: c.servers[n].1 })
                } else {
                    Err("no server named '"@ + n + "': run `yt auth URL TOKEN "@ + n + "`"@)
                },
            },
        },
    }
}

/// The header that opens a server.
pub open spec fn authorization(c: ClientView) -> (Seq<char>, Seq<char>) {
    ("Authorization"@, "Bearer "@ + c.token)
}

/// A request for `path` below the root of the API, with nothing in it yet.
pub open spec fn request(c: ClientView, method: Seq<char>, path: Seq<char>) -> RequestView {
    RequestView {
        method,
        url: c.base + "/"@ + path,
        headers: seq![authorization(c), ("Accept"@, "application/json"@)],
        query: Seq::empty(),
        body: BodyView::Empty,
        timeout: None,
    }
}

impl RequestView {
    /// The request with one more query parameter.
    pub open spec fn ask(self, name: Seq<char>, value: Seq<char>) -> RequestView {
        RequestView { query: self.query.push((name, value)), ..self }
    }

    /// The request with a JSON body.
    pub open spec fn carry(self, v: JsonView) -> RequestView {
        RequestView { body: BodyView::Value(v), ..self }
    }
}

/// The request for the file that the server names by `rel_url`.
pub open spec fn file_request(c: ClientView, rel_url: Seq<char>) -> RequestView {
    RequestView {
        method: "GET"@,
        url: origin_of(c.base) + rel_url,
        headers: seq![authorization(c)],
        query: Seq::empty(),
        body: BodyView::Empty,
        timeout: None,
    }
}

/// What the server says of a refused request: the description of the error, else
/// the error, else all that it sent.
pub open spec fn refusal_text(body: Seq<char>, value: Option<JsonView>) -> Seq<char> {
    match value {
        Some(v) => match v.member("error_description"@).text() {
            Some(d) => d,
            None => text::or_text(v.member("error"@).text(), body),
        },
        None => body,
    }
}

/// The message about a request that was refused with an HTTP status.
pub open spec fn status_message(code: int, words: Seq<char>) -> Seq<char> {
    "HTTP "@ + number::signed(code) + ": "@ + words
}

/// What the reading of a text gives, where it gives anything.
pub open spec fn readable(r: Result<JsonView, Seq<char>>) -> Option<JsonView> {
    match r {
        Ok(v) => Some(v),
        Err(_) => None,
    }
}

/// Whether a request was refused because the token has not the rights for it.
pub open spec fn is_forbidden(r: Reply) -> bool {
    r matches Reply::Refusal(code, _) && code == 403
}

/// What a reply says: its value, null where it is empty, or the message of the
/// failure.
pub open spec fn reply_value(r: Reply) -> Result<JsonView, Seq<char>> {
    match r {
        Reply::Answer(t) => if t@.len() == 0 {
            Ok(JsonView::Null)
        } else {
            wire::parsed(t@)
        },
        Reply::Refusal(code, body) => Err(
            status_message(code as int, refusal_text(body@, readable(wire::parsed(body@)))),
        ),
        Reply::Broken(e) => Err(e@),
    }
}

/// What a download brought, or the message of the failure.
pub open spec fn download_value(d: Download) -> Result<Seq<u8>, Seq<char>> {
    match d {
        Download::Answer(b) => Ok(b@),
        Download::Refusal(code, body) => Err(status_message(code as int, body@)),
        Download::Broken(e) => Err(e@),
    }
}

/// The content type of a file, by its extension: what stands behind the last dot of its
/// name.
pub open spec fn type_by_name(name: Seq<char>) -> Seq<char> {
    let ext = text::lowered(text::pieces(name, '.').last());
    if !name.contains('.') {
        "application/octet-stream"@
    } else if ext == "png"@ {
        "image/png"@
    } else if ext == "jpg"@ || ext == "jpeg"@ {
        "image/jpeg"@
    } else if ext == "gif"@ {
        "image/gif"@
    } else if ext == "webp"@ {
        "image/webp"@
    } else if ext == "svg"@ {
        "image/svg+xml"@
    } else {
        "application/octet-stream"@
    }
}

/// The text between the parts of an upload of `len` bytes.
pub open spec fn boundary_for(len: usize) -> Seq<char> {
    "----ytboundary"@ + number::hexadecimal(len.wrapping_mul(2_654_435_761) as nat)
}

/// What stands before the bytes of an uploaded file.
pub open spec fn upload_head(boundary: Seq<char>, name: Seq<char>) -> Seq<char> {
    "--"@ + boundary + "\r\nContent-Disposition: form-data; name=\"file\"; filename=\""@ + name
        + "\"\r\nContent-Type: "@ + type_by_name(name) + "\r\n\r\n"@
}

/// What stands behind the bytes of an uploaded file.
pub open spec fn upload_tail(boundary: Seq<char>) -> Seq<char> {
    "\r\n--"@ + boundary + "--\r\n"@
}

/// The form that uploads the file `name` with the bytes `data`.
pub open spec fn upload_body(name: Seq<char>, data: Seq<u8>) -> Seq<u8> {
    let boundary = boundary_for(data.len() as usize);
    vstd::utf8::encode_utf8(upload_head(boundary, name)) + data + vstd::utf8::encode_utf8(
        upload_tail(boundary),
    )
}

/// The request that uploads the file `name` with the bytes `data` to `path`.
pub open spec fn upload_request(
    c: ClientView,
    path: Seq<char>,
    name: Seq<char>,
    data: Seq<u8>,
) -> RequestView {
    let r = request(c, "POST"@, path);
    RequestView {
        headers: r.headers.push(
            (
                "Content-Type"@,
                "multipart/form-data; boundary="@ + boundary_for(data.len() as usize),
            ),
        ),
        body: BodyView::Bytes(upload_body(name, data)),
        ..r
    }
}

// ---- laws ----

/// Where no server is asked for, one that the environment names fully comes first; a
/// server that is asked for comes before that; the default comes last.
pub proof fn law_resolution_order(
    name: Seq<char>,
    url: Seq<char>,
    token: Seq<char>,
    env_url: Option<Seq<char>>,
    env_token: Option<Seq<char>>,
    stored: Result<ConfigView, Seq<char>>,
    c: ConfigView,
)
    requires
        c.servers.contains_key(name),
        c.default == Some(name),
    ensures
        resolved(None, Some(url), Some(token), stored) == Ok::<ClientView, Seq<char>>(
            ClientView { base: base_url(url), token },
        ),
        resolved(Some(name), env_url, env_token, Ok(c)) == Ok::<ClientView, Seq<char>>(
            ClientView { base: base_url(c.servers[name].0), token: c.servers[name].1 },
        ),
        env_url is None || env_token is None ==> resolved(None, env_url, env_token, Ok(c))
            == resolved(Some(name), env_url, env_token, Ok(c)),
{
}

/// A text that ends in `/api` does not end in a slash.
proof fn lemma_api_ends_in_i(u: Seq<char>)
    requires
        "/api"@.is_suffix_of(u),
    ensures
        u.len() >= 4,
        u.last() == 'i',
        text::without_end(u, text::just('/')) == u,
{
    reveal_strlit("/api");
    assert("/api"@[3] == 'i');
    assert(u.skip(u.len() - 4)[3] == 'i');
}

/// The root of an API ends in `/api`, and is its own root.
pub proof fn law_base_is_its_own_base(url: Seq<char>)
    ensures
        "/api"@.is_suffix_of(base_url(url)),
        base_url(base_url(url)) == base_url(url),
        host_of(base_url(url)) + "/api"@ == base_url(url),
{
    reveal_strlit("/api");
    let u = text::without_end(url, text::just('/'));
    let b = base_url(url);
    if !"/api"@.is_suffix_of(u) {
        assert(b.skip(b.len() - 4) =~= "/api"@);
        assert("/api"@.is_suffix_of(b));
    }
    lemma_api_ends_in_i(b);
    assert(b.take(b.len() - 4) + b.skip(b.len() - 4) =~= b);
}

/// Slashes at the end of a URL do not matter.
pub proof fn law_trailing_slash_is_ignored(url: Seq<char>)
    ensures
        base_url(url.push('/')) == base_url(url),
{
    assert(url.push('/').drop_last() =~= url);
}

// ---- operations ----

/// The root of the API at `url`.
pub fn normalize_base(url: &str) -> (r: String)
    ensures
        r@ == base_url(url@),
{
    let u = text::trim_end_of(url, '/');
    if text::ends_with(u.as_str(), "/api") {
        u
    } else {
        text::cat(u.as_str(), "/api")
    }
}

impl Request {
    /// The request with one more query parameter.
    pub fn ask(self, name: &str, value: &str) -> (r: Request)
        ensures
            r@ == self@.ask(name@, value@),
    {
        let mut query = self.query;
        query.push((name.to_owned(), value.to_owned()));
        let r = Request {
            method: self.method,
            url: self.url,
            headers: self.headers,
            query,
            body: self.body,
            timeout: self.timeout,
        };
        assert(r@ =~= self@.ask(name@, value@));
        r
    }

    /// The request with a JSON body.
    pub fn carry(self, v: Json) -> (r: Request)
        ensures
            r@ == self@.carry(v@),
    {
        Request {
            method: self.method,
            url: self.url,
            headers: self.headers,
            query: self.query,
            body: Body::Value(v),
            timeout: self.timeout,
        }
    }
}

impl Client {
    /// The server that the environment names fully, where no other is asked for. Then
    /// the configuration does not count.
    pub fn from_environment(
        server: Option<&str>,
        env_url: Option<&str>,
        env_token: Option<&str>,
    ) -> (r: Option<Client>)
        ensures
            match r {
                Some(c) => forall|stored: Result<ConfigView, Seq<char>>| #[trigger]
                    resolved(
                        text::opt_str(server),
                        text::opt_str(env_url),
                        text::opt_str(env_token),
                        stored,
                    ) == Ok::<ClientView, Seq<char>>(c@),
                None => server is Some || env_url is None || env_token is None,
            },
    {
        match (server, env_url, env_token) {
            (None, Some(u), Some(t)) => Some(
                Client { base: normalize_base(u), token: t.to_owned() },
            ),
            _ => None,
        }
    }

    /// The server to use: the one in the environment where that names one fully
    /// and no other is asked for, else the one selected in the configuration.
    pub fn resolve(
        server: Option<&str>,
        env_url: Option<String>,
        env_token: Option<String>,
        stored: Result<Config, Failure>,
    ) -> (r: Result<Client, Failure>)
        ensures
            resolved(
                text::opt_str(server),
                text::opt_text(env_url),
                text::opt_text(env_token),
                match stored {
                    Ok(c) => Ok(c@),
                    Err(e) => Err(e@),
                },
            ) == match r {
                Ok(c) => Ok(c@),
                Err(e) => Err(e@),
            },
    {
        if let (None, Some(u), Some(t)) = (server, env_url, env_token) {
            return Ok(Client { base: normalize_base(u.as_str()), token: t });
        }
        let c = match stored {
            Ok(c) => c,
            Err(e) => {
                return Err(e);
            },
        };
        let name = match c.select_server(server) {
            Ok(n) => n,
            Err(e) => {
                return Err(e);
            },
        };
        match c.servers.get(name.as_str()) {
            Some(s) => Ok(Client { base: normalize_base(s.0.as_str()), token: s.1.clone() }),
            None => {
                let mut m = text::cat3(
                    "no server named '",
                    name.as_str(),
                    "': run `yt auth URL TOKEN ",
                );
                m.append(name.as_str());
                m.append("`");
                Err(Failure { message: m })
            },
        }
    }

    /// A request for `path` below the root of the API, with nothing in it yet.
    pub fn req(&self, method: &str, path: &str) -> (r: Request)
        ensures
            r@ == request(self@, method@, path@),
    {
        let mut headers: Vec<(String, String)> = Vec::new();
        headers.push(("Authorization".to_owned(), text::cat("Bearer ", self.token.as_str())));
        headers.push(("Accept".to_owned(), "application/json".to_owned()));
        let r = Request {
            method: method.to_owned(),
            url: text::cat3(self.base.as_str(), "/", path),
            headers,
            query: Vec::new(),
            body: Body::Empty,
            timeout: None,
        };
        assert(r@ =~= request(self@, method@, path@));
        r
    }

    /// A request to read `path`.
    pub fn get(&self, path: &str) -> (r: Request)
        ensures
            r@ == request(self@, "GET"@, path@),
    {
        self.req("GET", path)
    }

    /// A request to send `body` to `path`.
    pub fn post(&self, path: &str, body: Json) -> (r: Request)
        ensures
            r@ == request(self@, "POST"@, path@).carry(body@),
    {
        self.req("POST", path).carry(body)
    }

    /// A request to remove `path`.
    pub fn delete(&self, path: &str) -> (r: Request)
        ensures
            r@ == request(self@, "DELETE"@, path@),
    {
        self.req("DELETE", path)
    }

    /// The root of the server: the root of its API without the `/api` at the end.
    pub fn host(&self) -> (r: &str)
        ensures
            r@ == host_of(self@.base),
    {
        let base = self.base.as_str();
        if text::ends_with(base, "/api") {
            proof {
                reveal_strlit("/api");
            }
            let n = base.unicode_len();
            base.substring_char(0, n - 4)
        } else {
            base
        }
    }

    /// The scheme and host of the server, without a path.
    pub fn origin(&self) -> (r: &str)
        ensures
            r@ == origin_of(self@.base),
    {
        let base = self.base.as_str();
        let n = base.unicode_len();
        let at = text::find(base, "://");
        proof {
            reveal_strlit("://");
        }
        let from: usize = if at < n {
            at + 3
        } else {
            0
        };
        let rest = text::skip(base, from);
        let slash = text::index_of(rest.as_str(), '/');
        base.substring_char(0, from + slash)
    }

    /// The address of an issue for a browser.
    pub fn web_url(&self, id: &str) -> (r: String)
        ensures
            r@ == host_of(self@.base) + "/issue/"@ + id@,
    {
        text::cat3(self.host(), "/issue/", id)
    }

    /// The request for the file that the server names by `rel_url`.
    pub fn get_bytes(&self, rel_url: &str) -> (r: Request)
        ensures
            r@ == file_request(self@, rel_url@),
    {
        let mut headers: Vec<(String, String)> = Vec::new();
        headers.push(("Authorization".to_owned(), text::cat("Bearer ", self.token.as_str())));
        let r = Request {
            method: "GET".to_owned(),
            url: text::cat(self.origin(), rel_url),
            headers,
            query: Vec::new(),
            body: Body::Empty,
            timeout: None,
        };
        assert(r@ =~= file_request(self@, rel_url@));
        r
    }

    /// The request that uploads the file `name` with the bytes `data` to `path`.
    pub fn post_file(&self, path: &str, name: &str, data: &Vec<u8>) -> (r: Request)
        ensures
            r@ == upload_request(self@, path@, name@, data@),
    {
        let boundary = boundary(data.len());
        let q = self.req("POST", path);
        let mut headers = q.headers;
        headers.push(
            (
                "Content-Type".to_owned(),
                text::cat("multipart/form-data; boundary=", boundary.as_str()),
            ),
        );
        let mut head = text::cat3(
            "--",
            boundary.as_str(),
            "\r\nContent-Disposition: form-data; name=\"file\"; filename=\"",
        );
        head.append(name);
        head.append("\"\r\nContent-Type: ");
        head.append(content_type(name));
        head.append("\r\n\r\n");
        let tail = text::cat3("\r\n--", boundary.as_str(), "--\r\n");
        let mut body: Vec<u8> = Vec::new();
        extend(&mut body, head.as_str().as_bytes());
        extend(&mut body, data.as_slice());
        extend(&mut body, tail.as_str().as_bytes());
        let r = Request {
            method: q.method,
            url: q.url,
            headers,
            query: q.query,
            body: Body::Bytes(body),
            timeout: q.timeout,
        };
        assert(body@ =~= upload_body(name@, data@));
        assert(r@ =~= upload_request(self@, path@, name@, data@));
        r
    }
}

/// Puts the bytes `more` behind those of `v`.
fn extend(v: &mut Vec<u8>, more: &[u8])
    ensures
        final(v)@ == old(v)@ + more@,
{
    let mut i: usize = 0;
    assert(v@ =~= v@ + more@.take(0));
    while i < more.len()
        invariant
            i <= more@.len(),
            v@ == old(v)@ + more@.take(i as int),
        decreases more@.len() - i,
    {
        v.push(more[i]);
        i += 1;
        assert(more@.take(i as int) =~= more@.take(i - 1).push(more@[i - 1]));
    }
    assert(more@.take(more@.len() as int) =~= more@);
}

/// The text between the parts of an upload of `len` bytes.
pub fn boundary(len: usize) -> (r: String)
    ensures
        r@ == boundary_for(len),
{
    let h = number::hex_text(len.wrapping_mul(2_654_435_761));
    text::cat("----ytboundary", h.as_str())
}

/// The content type of a file, by its extension.
pub fn content_type(name: &str) -> (r: &'static str)
    ensures
        r@ == type_by_name(name@),
{
    let dot = text::index_of(name, '.');
    proof {
        text::lemma_run(name@, text::just('.'));
    }
    if dot == name.unicode_len() {
        return "application/octet-stream";
    }
    assert(name@[dot as int] == '.');
    let parts = text::split(name, '.');
    let last = &parts[parts.len() - 1];
    assert(text::texts(parts@).last() == last@);
    let ext = text::lower(last.as_str());
    let e = ext.as_str();
    if text::same(e, "png") {
        "image/png"
    } else if text::same(e, "jpg") || text::same(e, "jpeg") {
        "image/jpeg"
    } else if text::same(e, "gif") {
        "image/gif"
    } else if text::same(e, "webp") {
        "image/webp"
    } else if text::same(e, "svg") {
        "image/svg+xml"
    } else {
        "application/octet-stream"
    }
}

/// The failure of a request that was refused with an HTTP status and the text
/// `body`, which reads as `value` where it is JSON.
pub fn refusal(code: u16, body: &str, value: Option<&Json>) -> (r: Failure)
    ensures
        r@ == status_message(
            code as int,
            refusal_text(body@, json::opt_ref(value)),
        ),
{
    let said = match value {
        Some(v) => match v.member("error_description").as_str() {
            Some(d) => Some(d),
            None => v.member("error").as_str(),
        },
        None => None,
    };
    let n = number::signed_text(code as i128);
    let mut m = text::cat3("HTTP ", n.as_str(), ": ");
    m.append(
        match said {
            Some(d) => d,
            None => body,
        },
    );
    Failure { message: m }
}

/// Whether a request was refused because the token has not the rights for it.
pub fn forbidden(reply: &Reply) -> (r: bool)
    ensures
        r == is_forbidden(*reply),
{
    match reply {
        Reply::Refusal(code, _) => *code == 403,
        _ => false,
    }
}

/// What a reply says.
pub fn read(reply: Reply) -> (r: Result<Json, Failure>)
    ensures
        reply_value(reply) == match r {
            Ok(v) => Ok(v@),
            Err(e) => Err(e@),
        },
{
    match reply {
        Reply::Answer(t) => if t.as_str().is_empty() {
            Ok(Json::Null)
        } else {
            match wire::parse(t.as_str()) {
                Ok(v) => Ok(v),
                Err(e) => Err(Failure { message: e }),
            }
        },
        Reply::Refusal(code, body) => match wire::parse(body.as_str()) {
            Ok(v) => Err(refusal(code, body.as_str(), Some(&v))),
            Err(_) => Err(refusal(code, body.as_str(), None)),
        },
        Reply::Broken(e) => Err(Failure { message: e }),
    }
}

/// What a download brought.
pub fn read_bytes(download: Download) -> (r: Result<Vec<u8>, Failure>)
    ensures
        download_value(download) == match r {
            Ok(b) => Ok(b@),
            Err(e) => Err(e@),
        },
{
    match download {
        Download::Answer(b) => Ok(b),
        Download::Refusal(code, body) => Err(refusal(code, body.as_str(), None)),
        Download::Broken(e) => Err(Failure { message: e }),
    }
}

} // verus!
