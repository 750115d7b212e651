use yt::config::Config;
use yt::json::Json;
use yt::wire;

fn server(url: &str, token: &str) -> Json {
    Json::object().with("url", Json::text(url)).with("token", Json::text(token))
}

// ---- reading ----

#[test]
fn config_parses_multi_server() {
    let cfg = Config::from_value(
        &Json::object().with("default", Json::text("work")).with(
            "servers",
            Json::object()
                .with("work", server("https://work.example.com", "wtok"))
                .with("home", server("https://home.example.com", "htok")),
        ),
    );
    assert_eq!(cfg.default.as_deref(), Some("work"));
    assert_eq!(cfg.servers.len(), 2);
    assert_eq!(
        cfg.servers.get("work"),
        Some(&("https://work.example.com".into(), "wtok".into()))
    );
    assert_eq!(
        cfg.servers.get("home"),
        Some(&("https://home.example.com".into(), "htok".into()))
    );
}

#[test]
fn config_skips_incomplete_server_entries() {
    let cfg = Config::from_value(
        &Json::object().with(
            "servers",
            Json::object()
                .with("ok", server("https://ok.example.com", "t"))
                .with("notoken", Json::object().with("url", Json::text("https://x.example.com")))
                .with("nourl", Json::object().with("token", Json::text("t"))),
        ),
    );
    assert_eq!(cfg.servers.len(), 1);
    assert!(cfg.servers.contains_key("ok"));
}

#[test]
fn config_empty_value_is_empty() {
    let cfg = Config::from_value(&Json::object());
    assert!(cfg.default.is_none());
    assert!(cfg.servers.is_empty());
}

#[test]
fn config_migrates_legacy_flat_shape() {
    let cfg = Config::from_value(&server("https://legacy.example.com", "legacytok"));
    assert_eq!(cfg.servers.len(), 1);
    assert_eq!(
        cfg.servers.get("default"),
        Some(&("https://legacy.example.com".into(), "legacytok".into()))
    );
    assert!(cfg.default.is_none());
    assert_eq!(cfg.select_server(None).unwrap(), "default");
}

#[test]
fn config_prefers_servers_over_legacy_keys() {
    let cfg = Config::from_value(
        &server("https://legacy.example.com", "legacytok").with(
            "servers",
            Json::object().with("main", server("https://main.example.com", "mtok")),
        ),
    );
    assert!(cfg.servers.contains_key("main"));
    assert!(!cfg.servers.contains_key("default"));
}

#[test]
fn a_missing_file_is_the_empty_configuration() {
    let cfg = Config::load(None, "/c").unwrap();
    assert!(cfg.servers.is_empty());
    assert!(cfg.default.is_none());
}

#[test]
fn a_broken_file_is_named() {
    let e = Config::load(Some("{"), "/x/config.json").err().unwrap();
    let why = wire::parse("{").err().unwrap();
    assert_eq!(e.message, format!("invalid JSON in /x/config.json: {why}"));
}

// ---- selection ----

fn cfg_with(default: Option<&str>, names: &[&str]) -> Config {
    let mut cfg = Config::new();
    for n in names {
        cfg.servers.insert((*n).to_string(), (format!("https://{n}"), format!("{n}tok")));
    }
    cfg.default = default.map(String::from);
    cfg
}

#[test]
fn select_server_explicit_wins() {
    let cfg = cfg_with(Some("work"), &["work", "home"]);
    assert_eq!(cfg.select_server(Some("home")).unwrap(), "home");
}

#[test]
fn select_server_falls_back_to_default() {
    let cfg = cfg_with(Some("work"), &["work", "home"]);
    assert_eq!(cfg.select_server(None).unwrap(), "work");
}

#[test]
fn select_server_single_server_is_unambiguous() {
    let cfg = cfg_with(None, &["only"]);
    assert_eq!(cfg.select_server(None).unwrap(), "only");
}

#[test]
fn select_server_ambiguous_without_default_errors() {
    let cfg = cfg_with(None, &["a", "b"]);
    assert!(cfg.select_server(None).is_err());
}

#[test]
fn select_server_no_servers_errors() {
    let cfg = cfg_with(None, &[]);
    assert!(cfg.select_server(None).is_err());
}

#[test]
fn select_server_says_what_to_do() {
    assert_eq!(
        cfg_with(None, &[]).select_server(None).err().unwrap().message,
        "no server selected: set a default with `yt default NAME`, pass --server, or set YOUTRACK_URL"
    );
}

// ---- writing ----

#[test]
fn the_first_server_becomes_the_default() {
    let mut cfg = Config::new();
    let (warning, line) = cfg.auth("https://a", "t", Some("a"), "/p");
    assert_eq!(warning, None);
    assert_eq!(line, "saved server 'a' to /p");
    assert_eq!(cfg.default.as_deref(), Some("a"));
    let (warning, _) = cfg.auth("https://b", "u", None, "/p");
    assert_eq!(warning, None);
    assert_eq!(cfg.default.as_deref(), Some("a"));
    assert_eq!(cfg.servers.get("default"), Some(&("https://b".into(), "u".into())));
    let (warning, line) = cfg.auth("https://c", "v", None, "/p");
    assert_eq!(
        warning.as_deref(),
        Some("warning: overwriting existing 'default' server (pass a name to keep both)")
    );
    assert_eq!(line, "saved server 'default' to /p");
    assert_eq!(cfg.servers.get("default"), Some(&("https://c".into(), "v".into())));
    assert_eq!(cfg.servers.get("a"), Some(&("https://a".into(), "t".into())));
}

#[test]
fn the_only_server_stays_the_one_in_use() {
    let mut cfg = Config::from_value(&server("https://old", "o"));
    cfg.auth("https://acme", "a", Some("acme"), "/p");
    assert_eq!(cfg.default.as_deref(), Some("default"));
    assert_eq!(cfg.servers.len(), 2);
    assert_eq!(cfg.servers.get("default"), Some(&("https://old".into(), "o".into())));
    assert_eq!(cfg.servers.get("acme"), Some(&("https://acme".into(), "a".into())));
    let mut cfg = cfg_with(None, &["a", "b"]);
    cfg.auth("https://c", "c", Some("c"), "/p");
    assert_eq!(cfg.default, None);
}

#[test]
fn a_saved_configuration_is_loaded_again() {
    let mut cfg = cfg_with(Some("work"), &["work", "home \"x\"\n\u{e9}"]);
    cfg.auth("https://z/\\", "tok\t", Some("z"), "/p");
    let file = cfg.save().unwrap();
    assert!(file.starts_with("{\n  \"default\": \"work\",\n  \"servers\": {\n"));
    let back = Config::load(Some(&file), "/p").unwrap();
    assert_eq!(back.default.as_deref(), Some("work"));
    assert_eq!(back.servers.len(), 3);
    for n in ["work", "home \"x\"\n\u{e9}", "z"] {
        assert_eq!(back.servers.get(n), cfg.servers.get(n));
    }
}

#[test]
fn an_unset_default_is_stored_as_null() {
    let file = cfg_with(None, &["a"]).save().unwrap();
    assert_eq!(
        file,
        "{\n  \"default\": null,\n  \"servers\": {\n    \"a\": {\n      \"token\": \"atok\",\n      \"url\": \"https://a\"\n    }\n  }\n}"
    );
}

#[test]
fn the_default_must_be_a_known_server() {
    let mut cfg = cfg_with(Some("a"), &["a", "b"]);
    assert_eq!(cfg.set_default("b").unwrap(), "default server is now 'b'");
    assert_eq!(cfg.default.as_deref(), Some("b"));
    assert_eq!(
        cfg.set_default("c").err().unwrap().message,
        "no server named 'c': run `yt read server ls` to list"
    );
    assert_eq!(cfg.default.as_deref(), Some("b"));
}

#[test]
fn servers_are_listed_by_name_with_a_star_at_the_default() {
    assert_eq!(
        cfg_with(Some("b"), &["c", "b", "a"]).listing(),
        vec!["  a  https://a", "* b  https://b", "  c  https://c"]
    );
    assert_eq!(
        cfg_with(None, &[]).listing(),
        vec!["no servers configured; run `yt write server auth URL TOKEN [name]`"]
    );
}
