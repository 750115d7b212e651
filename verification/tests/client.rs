use yt::client::{
    boundary, content_type, forbidden, normalize_base, read, read_bytes, refusal, Body, Client, Download, Reply,
};
use yt::config::Config;
use yt::failure::Failure;
use yt::json::Json;
use yt::wire;

fn client(base: &str) -> Client {
    Client { base: base.to_string(), token: "tok".to_string() }
}

fn stored(names: &[&str], default: Option<&str>) -> Config {
    let mut c = Config::new();
    for n in names {
        c.servers.insert(n.to_string(), (format!("https://{n}.example.com/"), format!("{n}tok")));
    }
    c.default = default.map(String::from);
    c
}

// ---- the root of the API ----

#[test]
fn normalize_base_appends_api() {
    assert_eq!(normalize_base("https://yt.example.com"), "https://yt.example.com/api");
}

#[test]
fn normalize_base_strips_trailing_slash() {
    assert_eq!(normalize_base("https://yt.example.com/"), "https://yt.example.com/api");
}

#[test]
fn normalize_base_strips_multiple_trailing_slashes() {
    assert_eq!(normalize_base("https://yt.example.com///"), "https://yt.example.com/api");
}

#[test]
fn normalize_base_keeps_existing_api_suffix() {
    assert_eq!(normalize_base("https://yt.example.com/api"), "https://yt.example.com/api");
}

#[test]
fn normalize_base_api_suffix_with_trailing_slash() {
    assert_eq!(normalize_base("https://yt.example.com/api/"), "https://yt.example.com/api");
}

#[test]
fn normalize_base_subpath_gets_api() {
    assert_eq!(normalize_base("https://host/youtrack"), "https://host/youtrack/api");
}

#[test]
fn normalizing_twice_changes_nothing() {
    for url in ["https://a", "https://a/api//", "", "/", "https://b/youtrack/"] {
        let once = normalize_base(url);
        assert_eq!(normalize_base(&once), once);
        assert_eq!(normalize_base(&format!("{url}/")), once);
    }
}

#[test]
fn host_and_origin_and_web_url() {
    let c = client("https://host/youtrack/api");
    assert_eq!(c.host(), "https://host/youtrack");
    assert_eq!(c.origin(), "https://host");
    assert_eq!(c.web_url("DEMO-1"), "https://host/youtrack/issue/DEMO-1");
    let bare = client("nowhere");
    assert_eq!(bare.host(), "nowhere");
    assert_eq!(bare.origin(), "nowhere");
    assert_eq!(client("a/b").origin(), "a");
}

// ---- which server ----

#[test]
fn resolve_prefers_env_over_config() {
    let c = Client::resolve(
        None,
        Some("https://env.example.com/".to_string()),
        Some("envtok".to_string()),
        Err(Failure::new("not looked at")),
    )
    .unwrap();
    assert_eq!(c.base, "https://env.example.com/api");
    assert_eq!(c.token, "envtok");
}

#[test]
fn the_environment_decides_without_the_configuration() {
    let c = Client::from_environment(None, Some("https://env.example.com/"), Some("envtok")).unwrap();
    assert_eq!(c.base, "https://env.example.com/api");
    assert_eq!(c.token, "envtok");
    assert!(Client::from_environment(Some("a"), Some("u"), Some("t")).is_none());
    assert!(Client::from_environment(None, None, Some("t")).is_none());
    assert!(Client::from_environment(None, Some("u"), None).is_none());
}

#[test]
fn resolve_named_server_comes_before_the_environment() {
    let c = Client::resolve(
        Some("home"),
        Some("https://env.example.com".to_string()),
        Some("envtok".to_string()),
        Ok(stored(&["work", "home"], Some("work"))),
    )
    .unwrap();
    assert_eq!(c.base, "https://home.example.com/api");
    assert_eq!(c.token, "hometok");
}

#[test]
fn resolve_takes_the_default_without_a_full_environment() {
    let c = Client::resolve(
        None,
        Some("https://env.example.com".to_string()),
        None,
        Ok(stored(&["work", "home"], Some("work"))),
    )
    .unwrap();
    assert_eq!(c.base, "https://work.example.com/api");
}

#[test]
fn resolve_failures_name_the_reason() {
    let e = Client::resolve(Some("gone"), None, None, Ok(stored(&[], None))).err().unwrap();
    assert_eq!(e.message, "no server named 'gone': run `yt auth URL TOKEN gone`");
    let e = Client::resolve(None, None, None, Ok(stored(&["a", "b"], None))).err().unwrap();
    assert_eq!(
        e.message,
        "no server selected: set a default with `yt default NAME`, pass --server, or set YOUTRACK_URL"
    );
    let e = Client::resolve(None, None, None, Err(Failure::new("broken"))).err().unwrap();
    assert_eq!(e.message, "broken");
}

// ---- requests ----

#[test]
fn requests_carry_the_token_and_their_query() {
    let q = client("https://h/api").get("issues").ask("query", "a b").ask("$top", "5");
    assert_eq!(q.method, "GET");
    assert_eq!(q.url, "https://h/api/issues");
    assert_eq!(
        q.headers,
        vec![
            ("Authorization".to_string(), "Bearer tok".to_string()),
            ("Accept".to_string(), "application/json".to_string()),
        ]
    );
    assert_eq!(
        q.query,
        vec![
            ("query".to_string(), "a b".to_string()),
            ("$top".to_string(), "5".to_string()),
        ]
    );
    assert!(matches!(q.body, Body::Empty));
    assert_eq!(q.timeout, None);
}

#[test]
fn posts_carry_their_value_and_deletes_none() {
    let q = client("https://h/api").post("commands", Json::text("x"));
    assert_eq!(q.method, "POST");
    assert!(matches!(q.body, Body::Value(Json::Text(t)) if t == "x"));
    let q = client("https://h/api").delete("issues/1/tags/2");
    assert_eq!(q.method, "DELETE");
    assert_eq!(q.url, "https://h/api/issues/1/tags/2");
    assert!(matches!(q.body, Body::Empty));
}

#[test]
fn files_are_fetched_from_the_origin() {
    let q = client("https://h/youtrack/api").get_bytes("/youtrack/api/files/1?sign=x");
    assert_eq!(q.url, "https://h/youtrack/api/files/1?sign=x");
    assert_eq!(q.headers, vec![("Authorization".to_string(), "Bearer tok".to_string())]);
}

#[test]
fn uploads_are_forms_with_one_file() {
    let data = b"ab".to_vec();
    let q = client("https://h/api").post_file("issues/1/attachments", "shot.png", &data);
    let b = boundary(2);
    assert_eq!(b, format!("----ytboundary{:x}", 2usize.wrapping_mul(2_654_435_761)));
    assert_eq!(q.method, "POST");
    assert_eq!(
        q.headers[2],
        ("Content-Type".to_string(), format!("multipart/form-data; boundary={b}"))
    );
    let want = format!(
        "--{b}\r\nContent-Disposition: form-data; name=\"file\"; filename=\"shot.png\"\r\nContent-Type: image/png\r\n\r\nab\r\n--{b}--\r\n"
    );
    match q.body {
        Body::Bytes(got) => assert_eq!(String::from_utf8(got).unwrap(), want),
        _ => panic!("no bytes"),
    }
}

#[test]
fn content_type_maps_extensions() {
    assert_eq!(content_type("a.png"), "image/png");
    assert_eq!(content_type("a.JPG"), "image/jpeg");
    assert_eq!(content_type("a.jpeg"), "image/jpeg");
    assert_eq!(content_type("a.svg"), "image/svg+xml");
    assert_eq!(content_type("a.bin"), "application/octet-stream");
    assert_eq!(content_type("noext"), "application/octet-stream");
}

#[test]
fn content_type_knows_gif_and_webp() {
    assert_eq!(content_type("a.b.gif"), "image/gif");
    assert_eq!(content_type("a.webp"), "image/webp");
    assert_eq!(content_type("png"), "application/octet-stream");
    assert_eq!(content_type("a.png."), "application/octet-stream");
    assert_eq!(content_type("a.b/c.png"), "image/png");
}

// ---- replies ----

#[test]
fn an_answer_is_read_as_json() {
    let v = read(Reply::Answer("{\"b\":[1,-2.5],\"a\":null}".to_string())).unwrap();
    assert_eq!(wire::to_text(&v), "{\"a\":null,\"b\":[1,-2.5]}");
    assert_eq!(read(Reply::Answer(String::new())).unwrap(), Json::Null);
    assert!(read(Reply::Answer("{".to_string())).is_err());
}

#[test]
fn a_refusal_tells_what_the_server_says() {
    let say = |body: &str| read(Reply::Refusal(403, body.to_string())).err().unwrap().message;
    assert_eq!(say("{\"error\":\"e\",\"error_description\":\"no rights\"}"), "HTTP 403: no rights");
    assert_eq!(say("{\"error\":\"Forbidden\"}"), "HTTP 403: Forbidden");
    assert_eq!(say("{\"other\":1}"), "HTTP 403: {\"other\":1}");
    assert_eq!(say("<html>"), "HTTP 403: <html>");
    assert_eq!(say(""), "HTTP 403: ");
    let e = read(Reply::Broken("no route".to_string())).err().unwrap();
    assert_eq!(e.message, "no route");
}

#[test]
fn want_of_rights_is_told_apart() {
    assert!(forbidden(&Reply::Refusal(403, String::new())));
    assert!(!forbidden(&Reply::Refusal(404, String::new())));
    assert!(!forbidden(&Reply::Broken(String::new())));
    assert!(!forbidden(&Reply::Answer(String::new())));
}

#[test]
fn a_refusal_prefers_the_description() {
    let v = Json::object().with("error", Json::text("e")).with("error_description", Json::text("d"));
    assert_eq!(refusal(500, "b", Some(&v)).message, "HTTP 500: d");
    assert_eq!(refusal(500, "b", None).message, "HTTP 500: b");
}

#[test]
fn a_download_brings_bytes_or_a_failure() {
    assert_eq!(read_bytes(Download::Answer(vec![1, 2])).unwrap(), vec![1, 2]);
    let e = read_bytes(Download::Refusal(404, "{\"error\":\"x\"}".to_string())).err().unwrap();
    assert_eq!(e.message, "HTTP 404: {\"error\":\"x\"}");
    let e = read_bytes(Download::Broken("cut".to_string())).err().unwrap();
    assert_eq!(e.message, "cut");
}
