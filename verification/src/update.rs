//! Newer releases: which version is newer, when to look for one, and how one is
//! fetched, checked and put in place.

use vstd::prelude::*;
use crate::client::{Body, BodyView, Reply, Request, RequestView};
use crate::client;
use crate::failure::Failure;
use crate::json::{Json, JsonView};
use crate::line::{Line, LineView, Step, StepView};
use crate::line;
use crate::number;
use crate::text;
use crate::wire;

verus! {

// ---- meaning: versions ----

/// What stands in `s` before the first `c`.
pub open spec fn before_char(s: Seq<char>, c: char) -> Seq<char> {
    s.take(text::run(s, text::just(c)) as int)
}

/// The numbers in a version: what stands behind the `v` at its start and before the
/// suffix of a pre-release or a build.
pub open spec fn version_core(v: Seq<char>) -> Seq<char> {
    before_char(
        before_char(text::without_start(text::trimmed(v), text::just('v')), '-'),
        '+',
    )
}

/// The piece at position `i`; a zero where there is none.
pub open spec fn piece_or_zero(s: Seq<Seq<char>>, i: int) -> Seq<char> {
    if i < s.len() {
        s[i]
    } else {
        "0"@
    }
}

/// The three numbers of a version, of which the last two may be missing.
pub open spec fn version(v: Seq<char>) -> Option<(u64, u64, u64)> {
    let p = text::pieces(version_core(v), '.');
    match (
        number::parsed_u64(piece_or_zero(p, 0)),
        number::parsed_u64(piece_or_zero(p, 1)),
        number::parsed_u64(piece_or_zero(p, 2)),
    ) {
        (Some(a), Some(b), Some(c)) => Some((a, b, c)),
        _ => None,
    }
}

/// Whether the version `a` comes behind the version `b`.
pub open spec fn later(a: (u64, u64, u64), b: (u64, u64, u64)) -> bool {
    a.0 > b.0 || a.0 == b.0 && (a.1 > b.1 || a.1 == b.1 && a.2 > b.2)
}

/// Whether `latest` is newer than `current`.
pub open spec fn newer(latest: Seq<char>, current: Seq<char>) -> bool {
    match (version(latest), version(current)) {
        (Some(l), Some(c)) => later(l, c),
        _ => false,
    }
}

// ---- laws: versions ----

/// No version is newer than itself, of two at most one is newer than the other, and
/// what is newer than a newer one is newer.
pub proof fn law_newer_is_an_order(a: Seq<char>, b: Seq<char>, c: Seq<char>)
    ensures
        !newer(a, a),
        newer(a, b) ==> !newer(b, a),
        newer(a, b) && newer(b, c) ==> newer(a, c),
{
}

/// Of two versions that can be read, one is newer than the other or they have the
/// same numbers.
pub proof fn law_versions_compare(a: Seq<char>, b: Seq<char>)
    requires
        version(a) is Some,
        version(b) is Some,
    ensures
        newer(a, b) || newer(b, a) || version(a) == version(b),
{
}

/// A version that cannot be read is not newer than any, and none is newer than it.
pub proof fn law_unreadable_is_never_newer(a: Seq<char>, b: Seq<char>)
    requires
        version(a) is None,
    ensures
        !newer(a, b),
        !newer(b, a),
{
}

/// Trimming the end of a text leaves alone what ends in a character that stays.
proof fn lemma_end_behind(a: Seq<char>, s: Seq<char>, p: spec_fn(char) -> bool)
    requires
        a.len() > 0,
        !p(a.last()),
    ensures
        text::without_end(a + s, p) == a + text::without_end(s, p),
    decreases s.len(),
{
    let t = a + s;
    if s.len() == 0 {
        assert(t =~= a);
        assert(t =~= a + text::without_end(s, p));
    } else {
        assert(t.last() == s.last());
        assert(t.drop_last() =~= a + s.drop_last());
        if p(s.last()) {
            lemma_end_behind(a, s.drop_last(), p);
        }
    }
}

/// What is left after trimming the end is the start of the text.
proof fn lemma_end_leaves_start(s: Seq<char>, p: spec_fn(char) -> bool)
    ensures
        text::without_end(s, p).is_prefix_of(s),
    decreases s.len(),
{
    if s.len() > 0 && p(s.last()) {
        lemma_end_leaves_start(s.drop_last(), p);
        assert(text::without_end(s, p) =~= s.take(text::without_end(s, p).len() as int));
    } else {
        assert(s =~= s.take(s.len() as int));
    }
}

/// Trimming the start of a text leaves nothing to trim there.
proof fn lemma_start_trimmed(s: Seq<char>, p: spec_fn(char) -> bool)
    ensures
        ({
            let t = text::without_start(s, p);
            t.len() > 0 ==> !p(t[0])
        }),
    decreases s.len(),
{
    if s.len() > 0 && p(s[0]) {
        lemma_start_trimmed(s.drop_first(), p);
    }
}

/// Trimming the start of a text leaves alone what starts with a character that stays.
proof fn lemma_start_before(s: Seq<char>, b: Seq<char>, p: spec_fn(char) -> bool)
    requires
        b.len() > 0,
        !p(b[0]),
    ensures
        text::without_start(s + b, p) == text::without_start(s, p) + b,
    decreases s.len(),
{
    let t = s + b;
    if s.len() == 0 {
        assert(t =~= b);
        assert(b =~= text::without_start(s, p) + b);
    } else {
        assert(t[0] == s[0]);
        assert(t.drop_first() =~= s.drop_first() + b);
        if p(s[0]) {
            lemma_start_before(s.drop_first(), b, p);
        }
    }
}

/// A `v` in front of a version changes nothing.
pub proof fn law_leading_v_is_ignored(v: Seq<char>)
    requires
        v.len() == 0 || !text::is_white(v[0]),
    ensures
        version("v"@ + v) == version(v),
{
    reveal_strlit("v");
    let t = "v"@ + v;
    lemma_end_behind("v"@, v, text::white());
    lemma_end_leaves_start(v, text::white());
    let e = text::trimmed_end(v);
    assert(text::trimmed(t) == "v"@ + e);
    assert(("v"@ + e).drop_first() =~= e);
    assert(text::trimmed(v) == e);
}

/// The suffix of a pre-release or a build changes nothing.
pub proof fn law_suffix_is_ignored(core: Seq<char>, sign: char, rest: Seq<char>)
    requires
        sign == '-' || sign == '+',
        text::trimmed(core) == core,
        !core.contains('-'),
        !core.contains('+'),
    ensures
        version(core + seq![sign] + rest) == version(core),
{
    let t = core + seq![sign] + rest;
    let w = text::white();
    let vv = text::just('v');
    lemma_end_behind(core + seq![sign], rest, w);
    let tail = seq![sign] + text::without_end(rest, w);
    assert(text::trimmed_end(t) =~= core + tail);
    lemma_start_trimmed(text::trimmed_end(core), w);
    assert(core.len() > 0 ==> (core + tail)[0] == core[0]);
    assert(text::trimmed(t) == core + tail);
    lemma_start_before(core, tail, vv);
    let c = text::without_start(core, vv);
    assert(text::without_start(core + tail, vv) == c + tail);
    lemma_start_leaves_end(core, vv);
    assert forall|i: int| 0 <= i < c.len() implies c[i] != '-' && c[i] != '+' by {
        assert(core.contains(core[core.len() - c.len() + i]));
    }
    text::lemma_run_is(c, text::just('-'), c.len() as int);
    text::lemma_run_is(c, text::just('+'), c.len() as int);
    assert(c.take(c.len() as int) =~= c);
    assert((c + tail).take(c.len() as int) =~= c);
    let b = before_char(c + tail, '-');
    if sign == '-' {
        text::lemma_run_is(c + tail, text::just('-'), c.len() as int);
    } else {
        text::lemma_run(c + tail, text::just('-'));
        let n = text::run(c + tail, text::just('-')) as int;
        assert(n > c.len()) by {
            if n <= c.len() {
                assert((c + tail)[c.len() as int] == sign);
                if n < c.len() {
                    assert((c + tail)[n] == c[n]);
                }
            }
        }
        assert(b[c.len() as int] == sign);
        assert forall|i: int| 0 <= i < c.len() implies b[i] == c[i] by {}
        text::lemma_run_is(b, text::just('+'), c.len() as int);
        assert(b.take(c.len() as int) =~= c);
    }
}

/// What is left after trimming the start is the end of the text.
proof fn lemma_start_leaves_end(s: Seq<char>, p: spec_fn(char) -> bool)
    ensures
        text::without_start(s, p).len() <= s.len(),
        text::without_start(s, p) == s.skip(s.len() - text::without_start(s, p).len()),
    decreases s.len(),
{
    if s.len() > 0 && p(s[0]) {
        lemma_start_leaves_end(s.drop_first(), p);
        assert(text::without_start(s, p) =~= s.skip(
            s.len() - text::without_start(s, p).len(),
        ));
    } else {
        assert(s =~= s.skip(0));
    }
}

// ---- operations: versions ----

/// What stands in `s` before the first `c`.
fn cut(s: &str, c: char) -> (r: String)
    ensures
        r@ == before_char(s@, c),
{
    text::take(s, text::index_of(s, c))
}

/// The piece at position `i`; a zero where there is none.
fn piece(parts: &Vec<String>, i: usize) -> (r: &str)
    ensures
        r@ == piece_or_zero(text::texts(parts@), i as int),
{
    if i < parts.len() {
        parts[i].as_str()
    } else {
        "0"
    }
}

/// The three numbers of a version, of which the last two may be missing.
pub fn parse_version(v: &str) -> (r: Option<(u64, u64, u64)>)
    ensures
        r == version(v@),
{
    let t = text::trim_start_of(text::trim(v).as_str(), 'v');
    let core = cut(cut(t.as_str(), '-').as_str(), '+');
    let parts = text::split(core.as_str(), '.');
    match (
        number::parse_u64(piece(&parts, 0)),
        number::parse_u64(piece(&parts, 1)),
        number::parse_u64(piece(&parts, 2)),
    ) {
        (Some(a), Some(b), Some(c)) => Some((a, b, c)),
        _ => None,
    }
}

/// Whether `latest` is newer than `current`; not where one of them cannot be read.
pub fn is_newer(latest: &str, current: &str) -> (r: bool)
    ensures
        r == newer(latest@, current@),
{
    match (parse_version(latest), parse_version(current)) {
        (Some(l), Some(c)) => l.0 > c.0 || l.0 == c.0 && (l.1 > c.1 || l.1 == c.1 && l.2 > c.2),
        _ => false,
    }
}

// ---- meaning: releases ----

/// The repository that releases come from.
pub const REPO: &'static str = "DorskFR/yt";

/// The seconds for which a look for a newer release counts.
pub const UPDATE_CHECK_INTERVAL_SECS: u64 = 86_400;

/// The name of the binary for a platform.
pub open spec fn asset(os: Seq<char>, arch: Seq<char>) -> Option<Seq<char>> {
    if os == "linux"@ && arch == "x86_64"@ {
        Some("yt-linux-amd64"@)
    } else if os == "linux"@ && arch == "aarch64"@ {
        Some("yt-linux-arm64"@)
    } else if os == "macos"@ && arch == "aarch64"@ {
        Some("yt-darwin-arm64"@)
    } else if os == "macos"@ && arch == "x86_64"@ {
        Some("yt-darwin-amd64"@)
    } else {
        None
    }
}

/// The header that tells which version asks.
pub open spec fn user_agent(current: Seq<char>) -> (Seq<char>, Seq<char>) {
    ("User-Agent"@, "yt/"@ + current)
}

/// The request for `url`, to be answered in `seconds`, by the version `current`.
pub open spec fn plain_request(url: Seq<char>, current: Seq<char>, seconds: u64) -> RequestView {
    RequestView {
        method: "GET"@,
        url,
        headers: seq![user_agent(current)],
        query: Seq::empty(),
        body: BodyView::Empty,
        timeout: Some(seconds),
    }
}

/// The request for the latest release.
pub open spec fn release_request(current: Seq<char>) -> RequestView {
    let r = plain_request(
        "https://api.github.com/repos/"@ + REPO@ + "/releases/latest"@,
        current,
        4,
    );
    RequestView {
        headers: r.headers.push(("Accept"@, "application/vnd.github+json"@)),
        ..r
    }
}

/// The address of the file `name` of the release `tag`.
pub open spec fn release_file(tag: Seq<char>, name: Seq<char>) -> Seq<char> {
    "https://github.com/"@ + REPO@ + "/releases/download/"@ + tag + "/"@ + name
}

/// The tag and the version of the release that a value tells.
pub open spec fn release_in(v: JsonView) -> Result<(Seq<char>, Seq<char>), Seq<char>> {
    match v.member("tag_name"@).text() {
        Some(tag) => Ok((tag, text::without_start(tag, text::just('v')))),
        None => Err("release has no tag_name"@),
    }
}

/// The tag and the version of the release that a reply tells.
pub open spec fn release_told(r: Reply) -> Result<(Seq<char>, Seq<char>), Seq<char>> {
    match client::reply_value(r) {
        Ok(v) => release_in(v),
        Err(e) => Err(e),
    }
}

// ---- operations: releases ----

/// The name of the binary for a platform.
pub fn asset_name(os: &str, arch: &str) -> (r: Option<&'static str>)
    ensures
        text::opt_str(r) == asset(os@, arch@),
{
    if text::same(os, "linux") && text::same(arch, "x86_64") {
        Some("yt-linux-amd64")
    } else if text::same(os, "linux") && text::same(arch, "aarch64") {
        Some("yt-linux-arm64")
    } else if text::same(os, "macos") && text::same(arch, "aarch64") {
        Some("yt-darwin-arm64")
    } else if text::same(os, "macos") && text::same(arch, "x86_64") {
        Some("yt-darwin-amd64")
    } else {
        None
    }
}

/// The request for `url`, to be answered in `seconds`, by the version `current`.
fn ask_plainly(url: String, current: &str, seconds: u64) -> (r: Request)
    ensures
        r@ == plain_request(url@, current@, seconds),
{
    let mut headers: Vec<(String, String)> = Vec::new();
    headers.push(("User-Agent".to_owned(), text::cat("yt/", current)));
    let r = Request {
        method: "GET".to_owned(),
        url,
        headers,
        query: Vec::new(),
        body: Body::Empty,
        timeout: Some(seconds),
    };
    assert(r@ =~= plain_request(url@, current@, seconds));
    r
}

/// The request for the latest release.
pub fn ask_release(current: &str) -> (r: Request)
    ensures
        r@ == release_request(current@),
{
    let q = ask_plainly(
        text::cat3("https://api.github.com/repos/", REPO, "/releases/latest"),
        current,
        4,
    );
    let mut headers = q.headers;
    headers.push(("Accept".to_owned(), "application/vnd.github+json".to_owned()));
    let r = Request {
        method: q.method,
        url: q.url,
        headers,
        query: q.query,
        body: q.body,
        timeout: q.timeout,
    };
    assert(r@ =~= release_request(current@));
    r
}

/// The tag and the version of the release that a value tells.
pub fn read_release(v: &Json) -> (r: Result<(String, String), Failure>)
    ensures
        release_in(v@) == match r {
            Ok(p) => Ok((p.0@, p.1@)),
            Err(e) => Err(e@),
        },
{
    match v.member("tag_name").as_str() {
        Some(tag) => Ok((tag.to_owned(), text::trim_start_of(tag, 'v'))),
        None => Err(Failure::new("release has no tag_name")),
    }
}

/// The tag and the version of the release that a reply tells.
pub fn fetch_latest_release(reply: Reply) -> (r: Result<(String, String), Failure>)
    ensures
        release_told(reply) == match r {
            Ok(p) => Ok((p.0@, p.1@)),
            Err(e) => Err(e@),
        },
{
    match client::read(reply) {
        Ok(v) => read_release(&v),
        Err(e) => Err(e),
    }
}

// ---- meaning: the notice of a newer release ----

/// What comes of the notice: nothing, its words, or a request for the latest release
/// together with the one that is known so far.
pub enum Notice {
    Nothing,
    Tell(String),
    Ask(Request, String),
}

/// The mathematical model of a [`Notice`].
pub enum NoticeView {
    Nothing,
    Tell(Seq<char>),
    Ask(RequestView, Seq<char>),
}

impl View for Notice {
    type V = NoticeView;

    open spec fn view(&self) -> NoticeView {
        match self {
            Notice::Nothing => NoticeView::Nothing,
            Notice::Tell(t) => NoticeView::Tell(t@),
            Notice::Ask(r, t) => NoticeView::Ask(r@, t@),
        }
    }
}

/// The words of the notice, where `latest` is newer than `current`.
pub open spec fn notice_line(latest: Seq<char>, current: Seq<char>) -> Option<Seq<char>> {
    if latest.len() > 0 && newer(latest, current) {
        Some(
            "update available: "@ + current + " -> "@ + latest + " (run: yt update)"@,
        )
    } else {
        None
    }
}

/// The notice where no release has to be looked for.
pub open spec fn notice_known(latest: Seq<char>, current: Seq<char>) -> NoticeView {
    match notice_line(latest, current) {
        Some(t) => NoticeView::Tell(t),
        None => NoticeView::Nothing,
    }
}

/// When a release was last looked for.
pub open spec fn checked_at(cached: JsonView) -> int {
    match cached.member("checked_at"@).natural() {
        Some(n) => n as int,
        None => 0,
    }
}

/// Whether what was found is too old at the time `now`.
pub open spec fn stale(cached: JsonView, now: u64) -> bool {
    now - checked_at(cached) >= UPDATE_CHECK_INTERVAL_SECS
}

/// The notice at the time `now`, given what was found before.
pub open spec fn notice_from(cached: JsonView, now: u64, current: Seq<char>) -> NoticeView {
    let latest = cached.text_or("latest"@, ""@);
    if stale(cached, now) {
        NoticeView::Ask(release_request(current), latest)
    } else {
        notice_known(latest, current)
    }
}

/// What the file says that holds what was found before; null where it cannot be read.
pub open spec fn cache_in(file: Option<Seq<char>>) -> JsonView {
    match file {
        Some(t) => match wire::parsed(t) {
            Ok(v) => v,
            Err(_) => JsonView::Null,
        },
        None => JsonView::Null,
    }
}

/// The notice for a user, who may have opted out of it or sit at no terminal.
pub open spec fn notice_due(
    opted_out: bool,
    terminal: bool,
    file: Option<Seq<char>>,
    now: u64,
    current: Seq<char>,
) -> NoticeView {
    if opted_out || !terminal {
        NoticeView::Nothing
    } else {
        notice_from(cache_in(file), now, current)
    }
}

/// What is kept of a look at the time `now`, after which `latest` is the latest release
/// that is known.
pub open spec fn cache_value(now: u64, latest: Seq<char>) -> JsonView {
    JsonView::Object(
        Map::empty().insert("checked_at"@, JsonView::Integer(now as int)).insert(
            "latest"@,
            JsonView::Text(latest),
        ),
    )
}

/// The latest release that is known after a look that told `told`, where `known` was it
/// before.
pub open spec fn known_after(
    told: Result<(Seq<char>, Seq<char>), Seq<char>>,
    known: Seq<char>,
) -> Seq<char> {
    match told {
        Ok(p) => p.1,
        Err(_) => known,
    }
}

// ---- laws: the notice of a newer release ----

/// What is kept can be written, and read back.
proof fn lemma_cache_value(now: u64, latest: Seq<char>)
    ensures
        wire::storable(cache_value(now, latest), 100),
        checked_at(cache_value(now, latest)) == now,
        cache_value(now, latest).text_or("latest"@, ""@) == latest,
{
    reveal_strlit("checked_at");
    reveal_strlit("latest");
    assert("checked_at"@[0] == 'c' && "latest"@[0] == 'l');
    let v = cache_value(now, latest);
    assert forall|k: Seq<char>| #[trigger] v->Object_0.contains_key(k) implies wire::storable(
        v->Object_0[k],
        99,
    ) by {}
    wire::lemma_storable_object(v, 99);
}

/// For a day after a release was looked for, whatever came of it, none is looked for
/// again, and the notice is about the one that is known.
pub proof fn law_a_look_counts_for_a_day(
    told: Result<(Seq<char>, Seq<char>), Seq<char>>,
    known: Seq<char>,
    file: Seq<char>,
    looked: u64,
    now: u64,
    current: Seq<char>,
)
    requires
        wire::reads_as(file, cache_value(looked, known_after(told, known))),
        now < looked + UPDATE_CHECK_INTERVAL_SECS,
    ensures
        notice_from(cache_in(Some(file)), now, current) == notice_known(
            known_after(told, known),
            current,
        ),
{
    lemma_cache_value(looked, known_after(told, known));
}

/// Where no look is kept, a release is looked for.
pub proof fn law_without_a_look_one_is_made(now: u64, current: Seq<char>)
    requires
        now >= UPDATE_CHECK_INTERVAL_SECS,
    ensures
        notice_from(cache_in(None), now, current) is Ask,
{
}

// ---- operations: the notice of a newer release ----

/// The words of the notice, where `latest` is newer than `current`.
fn notice_words(latest: &str, current: &str) -> (r: Option<String>)
    ensures
        text::opt_text(r) == notice_line(latest@, current@),
{
    if !latest.is_empty() && is_newer(latest, current) {
        let mut t = text::cat3("update available: ", current, " -> ");
        t.append(latest);
        t.append(" (run: yt update)");
        Some(t)
    } else {
        None
    }
}

/// The notice at the time `now`, given what was found before.
pub fn notice_of(cached: &Json, now: u64, current: &str) -> (r: Notice)
    ensures
        r@ == notice_from(cached@, now, current@),
{
    let checked = match cached.member("checked_at").as_u64() {
        Some(n) => n,
        None => 0,
    };
    let latest = cached.text_or("latest", "");
    if now.saturating_sub(checked) >= UPDATE_CHECK_INTERVAL_SECS {
        Notice::Ask(ask_release(current), latest.to_owned())
    } else {
        match notice_words(latest, current) {
            Some(t) => Notice::Tell(t),
            None => Notice::Nothing,
        }
    }
}

/// The notice for a user who has not opted out of it and sits at a terminal, given the
/// file that holds what was found before.
pub fn maybe_notice(
    opted_out: bool,
    terminal: bool,
    file: Option<&str>,
    now: u64,
    current: &str,
) -> (r: Notice)
    ensures
        r@ == notice_due(opted_out, terminal, text::opt_str(file), now, current@),
{
    if opted_out || !terminal {
        return Notice::Nothing;
    }
    let cached = match file {
        Some(t) => match wire::parse(t) {
            Ok(v) => v,
            Err(_) => Json::Null,
        },
        None => Json::Null,
    };
    notice_of(&cached, now, current)
}

/// What comes of a look at the time `now`, after which `latest` is the latest release
/// that is known: what to keep in the file, and the words of the notice.
pub fn notice_after(latest: &str, now: u64, current: &str) -> (r: (String, Option<String>))
    ensures
        r.0@ == wire::compact(cache_value(now, latest@)),
        wire::reads_as(r.0@, cache_value(now, latest@)),
        text::opt_text(r.1) == notice_line(latest@, current@),
{
    proof {
        lemma_cache_value(now, latest@);
        wire::lemma_storable_is_writable(cache_value(now, latest@), 100);
    }
    let kept = Json::object().with("checked_at", Json::Integer(now as i128)).with(
        "latest",
        Json::text(latest),
    );
    (wire::to_text(&kept), notice_words(latest, current))
}

/// What comes of the reply to the request for the latest release, at the time `now`,
/// where `known` was the latest so far. The look is kept also where the reply tells no
/// release.
pub fn notice_after_reply(reply: Reply, known: &str, now: u64, current: &str) -> (r: (
    String,
    Option<String>,
))
    ensures
        ({
            let latest = known_after(release_told(reply), known@);
            &&& r.0@ == wire::compact(cache_value(now, latest))
            &&& wire::reads_as(r.0@, cache_value(now, latest))
            &&& text::opt_text(r.1) == notice_line(latest, current@)
        }),
{
    match fetch_latest_release(reply) {
        Ok(p) => notice_after(p.1.as_str(), now, current),
        Err(_) => notice_after(known, now, current),
    }
}

// ---- meaning: putting a release in place ----

/// How a file came back: with what it holds, refused in so many words, or broken off.
pub enum Fetched<T> {
    Got(T),
    Refused(String),
    Broken(String),
}

/// How the running binary was replaced, or what came in the way.
pub enum Installed {
    Done,
    NoExecutable(String),
    NoDirectory,
    Unwritable(String, String),
    Unmarked(String),
    Unreplaced(String, String),
}

/// The update that is wanted: the binary, and whether to take it though it is not
/// newer.
pub struct Wanted {
    pub asset: String,
    pub force: bool,
}

/// The release that is taken.
pub struct Release {
    pub asset: String,
    pub tag: String,
    pub latest: String,
}

/// The binary that is taken, and the checksum it has to have.
pub struct Binary {
    pub asset: String,
    pub want: String,
    pub latest: String,
}

/// What to do next for an update. The reply to `Ask` goes to [`on_release`], the file
/// that `ReadSums` asks for to [`on_sums`], the one that `FetchBinary` asks for to
/// [`on_binary`], and what came of `Install` to [`on_installed`].
pub enum UpdateNext {
    Ask(Request, Wanted),
    ReadSums(Request, Release),
    FetchBinary(Request, Binary),
    Install(Vec<u8>, String),
    Done,
    Fail(Failure),
}

/// The mathematical model of an [`UpdateNext`].
pub enum UpdateView {
    Ask { request: RequestView, asset: Seq<char>, force: bool },
    ReadSums { request: RequestView, asset: Seq<char>, tag: Seq<char>, latest: Seq<char> },
    FetchBinary { request: RequestView, asset: Seq<char>, want: Seq<char>, latest: Seq<char> },
    Install { bytes: Seq<u8>, latest: Seq<char> },
    Done,
    Fail(Seq<char>),
}

impl View for UpdateNext {
    type V = UpdateView;

    open spec fn view(&self) -> UpdateView {
        match self {
            UpdateNext::Ask(r, w) => UpdateView::Ask {
                request: r@,
                asset: w.asset@,
                force: w.force,
            },
            UpdateNext::ReadSums(r, l) => UpdateView::ReadSums {
                request: r@,
                asset: l.asset@,
                tag: l.tag@,
                latest: l.latest@,
            },
            UpdateNext::FetchBinary(r, b) => UpdateView::FetchBinary {
                request: r@,
                asset: b.asset@,
                want: b.want@,
                latest: b.latest@,
            },
            UpdateNext::Install(b, l) => UpdateView::Install { bytes: b@, latest: l@ },
            UpdateNext::Done => UpdateView::Done,
            UpdateNext::Fail(e) => UpdateView::Fail(e@),
        }
    }
}

/// The first step of an update on a platform.
pub open spec fn update_begun(
    force: bool,
    os: Seq<char>,
    arch: Seq<char>,
    current: Seq<char>,
) -> StepView<UpdateView> {
    match asset(os, arch) {
        Some(a) => line::silent(
            UpdateView::Ask { request: release_request(current), asset: a, force },
        ),
        None => line::silent(
            UpdateView::Fail(
                "unsupported platform: "@ + os + "/"@ + arch + " (no prebuilt binary)"@,
            ),
        ),
    }
}

/// What follows once the latest release is known: its checksums, unless nothing newer
/// is there to take.
pub open spec fn release_known(
    asset: Seq<char>,
    force: bool,
    told: Result<(Seq<char>, Seq<char>), Seq<char>>,
    current: Seq<char>,
) -> StepView<UpdateView> {
    match told {
        Err(e) => line::silent(UpdateView::Fail(e)),
        Ok((tag, latest)) => if !force && !newer(latest, current) {
            line::saying("already up to date ("@ + current + ")"@, UpdateView::Done)
        } else {
            line::silent(
                UpdateView::ReadSums {
                    request: plain_request(release_file(tag, "SHA256SUMS"@), current, 30),
                    asset,
                    tag,
                    latest,
                },
            )
        },
    }
}

/// The checksum in a line of checksums that is about the file `asset`.
pub open spec fn line_checksum(l: Seq<char>, asset: Seq<char>) -> Option<Seq<char>> {
    let n = text::run(l, text::white()) as int;
    if n < l.len() && asset.is_suffix_of(text::trimmed(l.skip(n + 1))) {
        Some(l.take(n))
    } else {
        None
    }
}

/// The checksum in the first of the lines `s` that is about the file `asset`.
pub open spec fn checksum(s: Seq<Seq<char>>, asset: Seq<char>) -> Option<Seq<char>>
    decreases s.len(),
{
    if s.len() == 0 {
        None
    } else {
        match line_checksum(s[0], asset) {
            Some(h) => Some(h),
            None => checksum(s.drop_first(), asset),
        }
    }
}

/// Whether one of the lines of checksums `s` is about the file `asset` and has the
/// digest `digest`.
pub open spec fn lists_digest(s: Seq<Seq<char>>, asset: Seq<char>, digest: Seq<u8>) -> bool {
    exists|i: int|
        0 <= i < s.len() && ((#[trigger] line_checksum(s[i], asset)) matches Some(h)
            && text::alike(number::hex_bytes(digest), h))
}

/// What follows once the checksums are there: the binary.
pub open spec fn sums_known(
    asset: Seq<char>,
    tag: Seq<char>,
    latest: Seq<char>,
    sums: Fetched<String>,
    current: Seq<char>,
) -> StepView<UpdateView> {
    match sums {
        Fetched::Refused(e) => line::silent(UpdateView::Fail("fetching SHA256SUMS: "@ + e@)),
        Fetched::Broken(e) => line::silent(UpdateView::Fail(e@)),
        Fetched::Got(t) => match checksum(text::lines_of(t@), asset) {
            None => line::silent(
                UpdateView::Fail("no checksum for "@ + asset + " in SHA256SUMS"@),
            ),
            Some(want) => StepView {
                lines: seq![
                    LineView::Note("downloading "@ + asset + " "@ + latest + "..."@),
                ],
                next: UpdateView::FetchBinary {
                    request: plain_request(release_file(tag, asset), current, 120),
                    asset,
                    want,
                    latest,
                },
            },
        },
    }
}

/// What the SHA-256 digest of some bytes is.
pub uninterp spec fn sha256_of(bytes: Seq<u8>) -> Seq<u8>;

/// What follows once the binary and its digest are there: it is put in place, if it is
/// the one that the checksum is about.
pub open spec fn digest_known(
    asset: Seq<char>,
    want: Seq<char>,
    latest: Seq<char>,
    bytes: Seq<u8>,
    digest: Seq<u8>,
) -> StepView<UpdateView> {
    let got = number::hex_bytes(digest);
    if text::alike(got, want) {
        line::silent(UpdateView::Install { bytes, latest })
    } else {
        line::silent(
            UpdateView::Fail(
                "checksum mismatch for "@ + asset + ": expected "@ + want + ", got "@ + got
                    + " (aborting, binary untouched)"@,
            ),
        )
    }
}

/// What follows once the binary is there.
pub open spec fn binary_known(
    asset: Seq<char>,
    want: Seq<char>,
    latest: Seq<char>,
    binary: Fetched<Vec<u8>>,
) -> StepView<UpdateView> {
    match binary {
        Fetched::Refused(e) => line::silent(
            UpdateView::Fail("downloading "@ + asset + ": "@ + e@),
        ),
        Fetched::Broken(e) => line::silent(UpdateView::Fail(e@)),
        Fetched::Got(b) => digest_known(asset, want, latest, b@, sha256_of(b@)),
    }
}

/// The end of an update.
pub open spec fn install_known(latest: Seq<char>, how: Installed, current: Seq<char>) -> StepView<
    UpdateView,
> {
    match how {
        Installed::Done => line::saying(
            "updated "@ + current + " -> "@ + latest,
            UpdateView::Done,
        ),
        Installed::NoExecutable(e) => line::silent(
            UpdateView::Fail("cannot locate current executable: "@ + e@),
        ),
        Installed::NoDirectory => line::silent(
            UpdateView::Fail("executable has no parent dir"@),
        ),
        Installed::Unwritable(dir, e) => line::silent(
            UpdateView::Fail(
                "cannot write to "@ + dir@
                    + " \u{2014} is the install dir writable? (try with appropriate permissions)"@
                    + ": "@ + e@,
            ),
        ),
        Installed::Unmarked(e) => line::silent(UpdateView::Fail(e@)),
        Installed::Unreplaced(exe, e) => line::silent(
            UpdateView::Fail("replacing "@ + exe@ + ": "@ + e@),
        ),
    }
}

// ---- laws: putting a release in place ----

/// The checksum that is found is that of a line about the file.
pub proof fn law_checksum_is_of_a_line(s: Seq<Seq<char>>, asset: Seq<char>)
    requires
        checksum(s, asset) is Some,
    ensures
        exists|i: int|
            0 <= i < s.len() && #[trigger] line_checksum(s[i], asset) == checksum(s, asset),
    decreases s.len(),
{
    if line_checksum(s[0], asset) is None {
        law_checksum_is_of_a_line(s.drop_first(), asset);
        let t = s.drop_first();
        let i = choose|i: int|
            0 <= i < t.len() && #[trigger] line_checksum(t[i], asset) == checksum(t, asset);
        assert(s[i + 1] == t[i]);
    }
}

/// What is put in place is the binary that was fetched, and the checksums of the
/// release list its digest for the file that was asked for.
pub proof fn law_only_checked_binaries_are_installed(
    asset: Seq<char>,
    tag: Seq<char>,
    latest: Seq<char>,
    sums: Fetched<String>,
    binary: Fetched<Vec<u8>>,
    current: Seq<char>,
)
    requires
        sums_known(asset, tag, latest, sums, current).next is FetchBinary,
        binary_known(
            asset,
            sums_known(asset, tag, latest, sums, current).next->want,
            latest,
            binary,
        ).next is Install,
    ensures
        sums is Got,
        binary is Got,
        binary_known(
            asset,
            sums_known(asset, tag, latest, sums, current).next->want,
            latest,
            binary,
        ).next->bytes == (binary->Got_0)@,
        lists_digest(text::lines_of((sums->Got_0)@), asset, sha256_of((binary->Got_0)@)),
{
    let lines = text::lines_of((sums->Got_0)@);
    law_checksum_is_of_a_line(lines, asset);
    let i = choose|i: int|
        0 <= i < lines.len() && #[trigger] line_checksum(lines[i], asset) == checksum(lines, asset);
    assert(line_checksum(lines[i], asset) is Some);
}

/// Nothing is fetched where the latest release is not newer, unless it is forced.
pub proof fn law_current_is_left_alone(
    asset: Seq<char>,
    tag: Seq<char>,
    latest: Seq<char>,
    current: Seq<char>,
)
    requires
        !newer(latest, current),
    ensures
        release_known(asset, false, Ok((tag, latest)), current).next is Done,
        release_known(asset, true, Ok((tag, latest)), current).next is ReadSums,
{
}

// ---- trusted: digests ----

/// `Sha256::digest` of the `sha2` crate, its result copied out. Claimed of it: the
/// bytes alone decide the digest, and it is 32 bytes long.
#[verifier::external_body]
fn sha256(bytes: &Vec<u8>) -> (r: Vec<u8>)
    ensures
        r@ == sha256_of(bytes@),
        r@.len() == 32,
{
    <sha2::Sha256 as sha2::Digest>::digest(bytes).to_vec()
}

// ---- operations: putting a release in place ----

/// The step that ends an update in a failure.
fn fail(message: String) -> (r: Step<UpdateNext>)
    ensures
        r@ == line::silent(UpdateView::Fail(message@)),
{
    line::quiet(UpdateNext::Fail(Failure { message }))
}

/// The address of the file `name` of the release `tag`.
fn file_url(tag: &str, name: &str) -> (r: String)
    ensures
        r@ == release_file(tag@, name@),
{
    let mut u = text::cat3("https://github.com/", REPO, "/releases/download/");
    u.append(tag);
    u.append("/");
    u.append(name);
    u
}

/// The first step of an update on a platform.
pub fn self_update(force: bool, os: &str, arch: &str, current: &str) -> (r: Step<UpdateNext>)
    ensures
        r@ == update_begun(force, os@, arch@, current@),
{
    match asset_name(os, arch) {
        Some(a) => line::quiet(
            UpdateNext::Ask(ask_release(current), Wanted { asset: a.to_owned(), force }),
        ),
        None => {
            let mut m = text::cat3("unsupported platform: ", os, "/");
            m.append(arch);
            m.append(" (no prebuilt binary)");
            fail(m)
        },
    }
}

/// What follows once the latest release is known.
pub fn on_release(w: Wanted, reply: Reply, current: &str) -> (r: Step<UpdateNext>)
    ensures
        r@ == release_known(w.asset@, w.force, release_told(reply), current@),
{
    match fetch_latest_release(reply) {
        Err(e) => line::quiet(UpdateNext::Fail(e)),
        Ok((tag, latest)) => if !w.force && !is_newer(latest.as_str(), current) {
            line::say(
                text::cat3("already up to date (", current, ")"),
                UpdateNext::Done,
            )
        } else {
            let q = ask_plainly(file_url(tag.as_str(), "SHA256SUMS"), current, 30);
            line::quiet(UpdateNext::ReadSums(q, Release { asset: w.asset, tag, latest }))
        },
    }
}

/// The checksum in a line of checksums that is about the file `asset`.
fn checksum_in(l: &str, asset: &str) -> (r: Option<String>)
    ensures
        text::opt_text(r) == line_checksum(l@, asset@),
{
    let n = text::index_of_white(l);
    if n < l.unicode_len() && text::ends_with(
        text::trim(text::skip(l, n + 1).as_str()).as_str(),
        asset,
    ) {
        Some(text::take(l, n))
    } else {
        None
    }
}

/// The checksum in the first line of `sums` that is about the file `asset`.
pub fn find_checksum(sums: &str, asset: &str) -> (r: Option<String>)
    ensures
        text::opt_text(r) == checksum(text::lines_of(sums@), asset@),
{
    let lines = text::lines(sums);
    let ghost all = text::texts(lines@);
    let mut i: usize = 0;
    assert(all.skip(0) =~= all);
    while i < lines.len()
        invariant
            i <= lines@.len(),
            all == text::texts(lines@),
            all == text::lines_of(sums@),
            checksum(all, asset@) == checksum(all.skip(i as int), asset@),
        decreases lines@.len() - i,
    {
        assert(all.skip(i as int)[0] == lines@[i as int]@);
        assert(all.skip(i as int).drop_first() =~= all.skip(i + 1));
        match checksum_in(lines[i].as_str(), asset) {
            Some(h) => {
                return Some(h);
            },
            None => {},
        }
        i += 1;
    }
    None
}

/// What follows once the checksums are there.
pub fn on_sums(l: Release, sums: Fetched<String>, current: &str) -> (r: Step<UpdateNext>)
    ensures
        r@ == sums_known(l.asset@, l.tag@, l.latest@, sums, current@),
{
    match sums {
        Fetched::Refused(e) => fail(text::cat("fetching SHA256SUMS: ", e.as_str())),
        Fetched::Broken(e) => fail(e),
        Fetched::Got(t) => match find_checksum(t.as_str(), l.asset.as_str()) {
            None => fail(text::cat3("no checksum for ", l.asset.as_str(), " in SHA256SUMS")),
            Some(want) => {
                let mut note = text::cat3("downloading ", l.asset.as_str(), " ");
                note.append(l.latest.as_str());
                note.append("...");
                let mut lines = line::nothing();
                line::put(&mut lines, Line::Note(note));
                let q = ask_plainly(
                    file_url(l.tag.as_str(), l.asset.as_str()),
                    current,
                    120,
                );
                let r = Step {
                    lines,
                    next: UpdateNext::FetchBinary(
                        q,
                        Binary { asset: l.asset, want, latest: l.latest },
                    ),
                };
                assert(r@ =~= sums_known(l.asset@, l.tag@, l.latest@, sums, current@));
                r
            },
        },
    }
}

/// What follows once the binary and its digest are there.
pub fn on_digest(b: Binary, bytes: Vec<u8>, digest: &Vec<u8>) -> (r: Step<UpdateNext>)
    ensures
        r@ == digest_known(b.asset@, b.want@, b.latest@, bytes@, digest@),
{
    let got = number::hex_of_bytes(digest.as_slice());
    if text::same_ignoring_case(got.as_str(), b.want.as_str()) {
        line::quiet(UpdateNext::Install(bytes, b.latest))
    } else {
        let mut m = text::cat3("checksum mismatch for ", b.asset.as_str(), ": expected ");
        m.append(b.want.as_str());
        m.append(", got ");
        m.append(got.as_str());
        m.append(" (aborting, binary untouched)");
        fail(m)
    }
}

/// What follows once the binary is there.
pub fn on_binary(b: Binary, binary: Fetched<Vec<u8>>) -> (r: Step<UpdateNext>)
    ensures
        r@ == binary_known(b.asset@, b.want@, b.latest@, binary),
{
    match binary {
        Fetched::Refused(e) => {
            let mut m = text::cat3("downloading ", b.asset.as_str(), ": ");
            m.append(e.as_str());
            fail(m)
        },
        Fetched::Broken(e) => fail(e),
        Fetched::Got(bytes) => {
            let digest = sha256(&bytes);
            on_digest(b, bytes, &digest)
        },
    }
}

/// The end of an update.
pub fn on_installed(latest: &str, how: Installed, current: &str) -> (r: Step<UpdateNext>)
    ensures
        r@ == install_known(latest@, how, current@),
{
    match how {
        Installed::Done => {
            let mut t = text::cat3("updated ", current, " -> ");
            t.append(latest);
            line::say(t, UpdateNext::Done)
        },
        Installed::NoExecutable(e) => fail(
            text::cat("cannot locate current executable: ", e.as_str()),
        ),
        Installed::NoDirectory => fail("executable has no parent dir".to_owned()),
        Installed::Unwritable(dir, e) => {
            let mut m = text::cat3(
                "cannot write to ",
                dir.as_str(),
                " \u{2014} is the install dir writable? (try with appropriate permissions)",
            );
            m.append(": ");
            m.append(e.as_str());
            fail(m)
        },
        Installed::Unmarked(e) => fail(e),
        Installed::Unreplaced(exe, e) => {
            let mut m = text::cat3("replacing ", exe.as_str(), ": ");
            m.append(e.as_str());
            fail(m)
        },
    }
}

} // verus!
