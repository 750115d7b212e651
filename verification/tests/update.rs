use yt::client::{Body, Reply};
use yt::json::Json;
use yt::line::Line;
use yt::update::{
    ask_release, asset_name, fetch_latest_release, find_checksum, is_newer, maybe_notice,
    notice_after, notice_after_reply, notice_of, on_binary, on_digest, on_installed, on_release,
    on_sums, parse_version, self_update, Binary, Fetched, Installed, Notice, Release, UpdateNext,
    Wanted, UPDATE_CHECK_INTERVAL_SECS,
};
use yt::wire;

const DAY: u64 = UPDATE_CHECK_INTERVAL_SECS;

// ---- versions ----

#[test]
fn parse_version_handles_prefix_and_suffix() {
    assert_eq!(parse_version("v0.6.1"), Some((0, 6, 1)));
    assert_eq!(parse_version("0.6.1"), Some((0, 6, 1)));
    assert_eq!(parse_version("1.2.3-rc1"), Some((1, 2, 3)));
    assert_eq!(parse_version("2.0"), Some((2, 0, 0)));
    assert_eq!(parse_version("nope"), None);
}

#[test]
fn parse_version_edges() {
    assert_eq!(parse_version(" vv1.2.3.4+build-5 \n"), Some((1, 2, 3)));
    assert_eq!(parse_version("7"), Some((7, 0, 0)));
    assert_eq!(parse_version(""), None);
    assert_eq!(parse_version("1..3"), None);
    assert_eq!(parse_version("1.x"), None);
    assert_eq!(parse_version("+1.2"), None);
    assert_eq!(parse_version("v 1.2"), None);
    assert_eq!(parse_version("18446744073709551615"), Some((u64::MAX, 0, 0)));
    assert_eq!(parse_version("18446744073709551616"), None);
}

#[test]
fn is_newer_compares_semver() {
    assert!(is_newer("0.7.0", "0.6.1"));
    assert!(is_newer("0.6.2", "0.6.1"));
    assert!(is_newer("1.0.0", "0.9.9"));
    assert!(!is_newer("0.6.1", "0.6.1"));
    assert!(!is_newer("0.6.0", "0.6.1"));
    assert!(is_newer("v0.7.0", "0.6.1"));
    assert!(!is_newer("garbage", "0.6.1"));
}

#[test]
fn newer_is_an_order() {
    let all = ["0.9", "v1.0.0", "1.0.1-rc1", "1.1", "10.0", "x"];
    for a in all {
        assert!(!is_newer(a, a));
        for b in all {
            assert!(!(is_newer(a, b) && is_newer(b, a)));
        }
    }
    for i in 0..5 {
        for k in 0..i {
            assert!(is_newer(all[i], all[k]));
        }
        assert!(!is_newer(all[i], "x"));
        assert!(!is_newer("x", all[i]));
    }
}

#[test]
fn prefixes_and_suffixes_do_not_count() {
    assert_eq!(parse_version("v1.2.3"), parse_version("1.2.3"));
    assert_eq!(parse_version("1.2.3+b.7-x"), parse_version("1.2.3"));
    assert_eq!(parse_version("1.2.3-x+y"), parse_version("1.2.3"));
}

// ---- releases ----

#[test]
fn assets_by_platform() {
    assert_eq!(asset_name("linux", "x86_64"), Some("yt-linux-amd64"));
    assert_eq!(asset_name("linux", "aarch64"), Some("yt-linux-arm64"));
    assert_eq!(asset_name("macos", "aarch64"), Some("yt-darwin-arm64"));
    assert_eq!(asset_name("macos", "x86_64"), Some("yt-darwin-amd64"));
    assert_eq!(asset_name("windows", "x86_64"), None);
    assert_eq!(asset_name("linux", "riscv64"), None);
}

#[test]
fn the_latest_release_is_asked_for() {
    let q = ask_release("0.6.1");
    assert_eq!(q.method, "GET");
    assert_eq!(q.url, "https://api.github.com/repos/DorskFR/yt/releases/latest");
    assert_eq!(
        q.headers,
        vec![
            ("User-Agent".to_string(), "yt/0.6.1".to_string()),
            ("Accept".to_string(), "application/vnd.github+json".to_string()),
        ]
    );
    assert_eq!(q.timeout, Some(4));
    assert!(q.query.is_empty());
    assert!(matches!(q.body, Body::Empty));
}

#[test]
fn a_release_has_a_tag_and_a_version() {
    let told = fetch_latest_release(Reply::Answer("{\"tag_name\":\"v1.2.0\"}".to_string()));
    assert_eq!(told.unwrap(), ("v1.2.0".to_string(), "1.2.0".to_string()));
    let told = fetch_latest_release(Reply::Answer("{}".to_string()));
    assert_eq!(told.err().unwrap().message, "release has no tag_name");
    let told = fetch_latest_release(Reply::Refusal(403, "limit".to_string()));
    assert_eq!(told.err().unwrap().message, "HTTP 403: limit");
}

// ---- the notice ----

fn cached(at: u64, latest: &str) -> Json {
    Json::object().with("checked_at", Json::Integer(at as i128)).with("latest", Json::text(latest))
}

#[test]
fn a_fresh_check_is_not_repeated() {
    match notice_of(&cached(1000, "0.7.0"), 1000 + DAY - 1, "0.6.1") {
        Notice::Tell(t) => assert_eq!(t, "update available: 0.6.1 -> 0.7.0 (run: yt update)"),
        _ => panic!("no words"),
    }
    assert!(matches!(notice_of(&cached(1000, "0.6.1"), 1000, "0.6.1"), Notice::Nothing));
    assert!(matches!(notice_of(&cached(1000, ""), 1000, "0.6.1"), Notice::Nothing));
    assert!(matches!(notice_of(&cached(5000, "0.6.0"), 10, "0.6.1"), Notice::Nothing));
}

#[test]
fn a_stale_check_is_repeated() {
    match notice_of(&cached(1000, "0.7.0"), 1000 + DAY, "0.6.1") {
        Notice::Ask(q, known) => {
            assert_eq!(q.url, ask_release("0.6.1").url);
            assert_eq!(known, "0.7.0");
        }
        _ => panic!("no request"),
    }
    assert!(matches!(notice_of(&Json::Null, DAY, "0.6.1"), Notice::Ask(_, k) if k.is_empty()));
}

#[test]
fn the_notice_can_be_turned_off() {
    assert!(matches!(maybe_notice(true, true, None, DAY, "0.6.1"), Notice::Nothing));
    assert!(matches!(maybe_notice(false, false, None, DAY, "0.6.1"), Notice::Nothing));
    assert!(matches!(maybe_notice(false, true, None, DAY, "0.6.1"), Notice::Ask(_, _)));
    assert!(matches!(maybe_notice(false, true, Some("{"), DAY, "0.6.1"), Notice::Ask(_, _)));
    let file = wire::to_text(&cached(7 * DAY, "9.0"));
    assert!(matches!(maybe_notice(false, true, Some(&file), 7 * DAY, "0.6.1"), Notice::Tell(_)));
}

#[test]
fn what_was_found_is_kept_for_a_day() {
    let (kept, words) = notice_after("0.7.0", 5 * DAY, "0.6.1");
    assert_eq!(kept, format!("{{\"checked_at\":{},\"latest\":\"0.7.0\"}}", 5 * DAY));
    assert_eq!(words.as_deref(), Some("update available: 0.6.1 -> 0.7.0 (run: yt update)"));
    assert!(matches!(maybe_notice(false, true, Some(&kept), 6 * DAY - 1, "0.7.0"), Notice::Nothing));
    assert!(matches!(maybe_notice(false, true, Some(&kept), 6 * DAY, "0.7.0"), Notice::Ask(_, _)));
    let told = Reply::Answer("{\"tag_name\":\"v0.6.1\"}".to_string());
    let (kept, words) = notice_after_reply(told, "", 1, "0.6.1");
    assert_eq!(kept, "{\"checked_at\":1,\"latest\":\"0.6.1\"}");
    assert_eq!(words, None);
}

#[test]
fn a_failed_look_counts_for_a_day_too() {
    for reply in [
        Reply::Broken("t".to_string()),
        Reply::Refusal(403, "limit".to_string()),
        Reply::Answer("{}".to_string()),
    ] {
        let (kept, words) = notice_after_reply(reply, "", 5 * DAY, "0.6.1");
        assert_eq!(kept, format!("{{\"checked_at\":{},\"latest\":\"\"}}", 5 * DAY));
        assert_eq!(words, None);
        let again = |now| maybe_notice(false, true, Some(&kept), now, "0.6.1");
        assert!(matches!(again(5 * DAY + 60), Notice::Nothing));
        assert!(matches!(again(6 * DAY), Notice::Ask(_, _)));
    }
    let (kept, words) = notice_after_reply(Reply::Broken("t".to_string()), "0.7.0", DAY, "0.6.1");
    assert_eq!(kept, format!("{{\"checked_at\":{DAY},\"latest\":\"0.7.0\"}}"));
    assert_eq!(words.as_deref(), Some("update available: 0.6.1 -> 0.7.0 (run: yt update)"));
}

// ---- putting a release in place ----

fn message(n: UpdateNext) -> String {
    match n {
        UpdateNext::Fail(e) => e.message,
        _ => panic!("no failure"),
    }
}

fn wanted(force: bool) -> Wanted {
    Wanted { asset: "yt-linux-amd64".to_string(), force }
}

fn release() -> Release {
    Release {
        asset: "yt-linux-amd64".to_string(),
        tag: "v0.7.0".to_string(),
        latest: "0.7.0".to_string(),
    }
}

// The SHA-256 digest of the three bytes `abc`.
const ABC: &str = "ba7816bf8f01cfea414140de5dae2223b00361a396177a9cb410ff61f20015ad";

fn binary(want: &str) -> Binary {
    Binary {
        asset: "yt-linux-amd64".to_string(),
        want: want.to_string(),
        latest: "0.7.0".to_string(),
    }
}

#[test]
fn an_update_begins_with_the_latest_release() {
    match self_update(true, "linux", "x86_64", "0.6.1").next {
        UpdateNext::Ask(q, w) => {
            assert_eq!(q.url, ask_release("0.6.1").url);
            assert_eq!(w.asset, "yt-linux-amd64");
            assert!(w.force);
        }
        _ => panic!("no request"),
    }
    assert_eq!(
        message(self_update(false, "plan9", "mips", "0.6.1").next),
        "unsupported platform: plan9/mips (no prebuilt binary)"
    );
}

#[test]
fn nothing_newer_ends_the_update() {
    let told = || Reply::Answer("{\"tag_name\":\"v0.6.1\"}".to_string());
    let step = on_release(wanted(false), told(), "0.6.1");
    assert_eq!(step.lines, vec![Line::Plain("already up to date (0.6.1)".to_string())]);
    assert!(matches!(step.next, UpdateNext::Done));
    let step = on_release(wanted(true), told(), "0.6.1");
    assert!(step.lines.is_empty());
    assert!(matches!(step.next, UpdateNext::ReadSums(_, _)));
    assert_eq!(message(on_release(wanted(true), Reply::Broken("x".to_string()), "0.6.1").next), "x");
}

#[test]
fn a_newer_release_is_checked_against_its_checksums() {
    let step = on_release(
        wanted(false),
        Reply::Answer("{\"tag_name\":\"v0.7.0\"}".to_string()),
        "0.6.1",
    );
    match step.next {
        UpdateNext::ReadSums(q, l) => {
            assert_eq!(q.url, "https://github.com/DorskFR/yt/releases/download/v0.7.0/SHA256SUMS");
            assert_eq!(q.timeout, Some(30));
            assert_eq!(q.headers, vec![("User-Agent".to_string(), "yt/0.6.1".to_string())]);
            assert_eq!((l.tag.as_str(), l.latest.as_str()), ("v0.7.0", "0.7.0"));
        }
        _ => panic!("no checksums"),
    }
}

#[test]
fn checksums_are_found_by_file() {
    let sums = "aa  yt-linux-arm64\r\nbb\t dist/yt-linux-amd64 \ncc  yt-linux-amd64\nyt-darwin-arm64\n";
    assert_eq!(find_checksum(sums, "yt-linux-amd64").as_deref(), Some("bb"));
    assert_eq!(find_checksum(sums, "yt-linux-arm64").as_deref(), Some("aa"));
    assert_eq!(find_checksum(sums, "yt-darwin-arm64"), None);
    assert_eq!(find_checksum(sums, "yt-darwin-amd64"), None);
    assert_eq!(find_checksum("", "x"), None);
}

#[test]
fn the_binary_is_fetched_once_its_checksum_is_known() {
    let sums = format!("{ABC}  yt-linux-amd64\n");
    let step = on_sums(release(), Fetched::Got(sums), "0.6.1");
    assert_eq!(step.lines, vec![Line::Note("downloading yt-linux-amd64 0.7.0...".to_string())]);
    match step.next {
        UpdateNext::FetchBinary(q, b) => {
            assert_eq!(
                q.url,
                "https://github.com/DorskFR/yt/releases/download/v0.7.0/yt-linux-amd64"
            );
            assert_eq!(q.timeout, Some(120));
            assert_eq!(b.want, ABC);
        }
        _ => panic!("no binary"),
    }
}

#[test]
fn missing_checksums_end_the_update() {
    let fail = |f| message(on_sums(release(), f, "0.6.1").next);
    assert_eq!(
        fail(Fetched::Got("aa  other\n".to_string())),
        "no checksum for yt-linux-amd64 in SHA256SUMS"
    );
    assert_eq!(fail(Fetched::Refused("404".to_string())), "fetching SHA256SUMS: 404");
    assert_eq!(fail(Fetched::Broken("cut".to_string())), "cut");
}

#[test]
fn only_a_binary_with_the_right_digest_is_installed() {
    match on_binary(binary(&ABC.to_uppercase()), Fetched::Got(b"abc".to_vec())).next {
        UpdateNext::Install(bytes, latest) => {
            assert_eq!(bytes, b"abc".to_vec());
            assert_eq!(latest, "0.7.0");
        }
        _ => panic!("not installed"),
    }
    assert_eq!(
        message(on_binary(binary("00"), Fetched::Got(b"abc".to_vec())).next),
        format!(
            "checksum mismatch for yt-linux-amd64: expected 00, got {ABC} (aborting, binary untouched)"
        )
    );
    assert_eq!(
        message(on_binary(binary(ABC), Fetched::Refused("404".to_string())).next),
        "downloading yt-linux-amd64: 404"
    );
    assert_eq!(message(on_binary(binary(ABC), Fetched::Broken("cut".to_string())).next), "cut");
}

#[test]
fn digests_are_compared_as_hexadecimal_text() {
    let digest = vec![0x0a, 0xff];
    assert!(matches!(
        on_digest(binary("0AFF"), vec![7], &digest).next,
        UpdateNext::Install(b, _) if b == vec![7]
    ));
    assert!(matches!(on_digest(binary("aff"), vec![7], &digest).next, UpdateNext::Fail(_)));
}

#[test]
fn the_end_of_an_update_is_told() {
    let step = on_installed("0.7.0", Installed::Done, "0.6.1");
    assert_eq!(step.lines, vec![Line::Plain("updated 0.6.1 -> 0.7.0".to_string())]);
    assert!(matches!(step.next, UpdateNext::Done));
    let fail = |how| message(on_installed("0.7.0", how, "0.6.1").next);
    assert_eq!(
        fail(Installed::NoExecutable("e".to_string())),
        "cannot locate current executable: e"
    );
    assert_eq!(fail(Installed::NoDirectory), "executable has no parent dir");
    assert_eq!(
        fail(Installed::Unwritable("/bin".to_string(), "e".to_string())),
        "cannot write to /bin — is the install dir writable? (try with appropriate permissions): e"
    );
    assert_eq!(fail(Installed::Unmarked("e".to_string())), "e");
    assert_eq!(
        fail(Installed::Unreplaced("/bin/yt".to_string(), "e".to_string())),
        "replacing /bin/yt: e"
    );
}
