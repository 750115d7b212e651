//! Which release is newer, when one is looked for, and what an update fetches.

use vstd::prelude::*;
use crate::client::{BodyView, Reply, RequestView};
use crate::client;
use crate::json::JsonView;
use crate::laws_text;
use crate::line::LineView;
use crate::number;
use crate::text;
use crate::update::{Fetched, Installed, NoticeView, UpdateView};
use crate::update;
use crate::wire;

verus! {

// ---- versions ----

/// The characters of numbers and dots.
spec fn plain(c: char) -> bool {
    text::is_digit(c) || c == '.'
}

proof fn lemma_core(s: Seq<char>)
    requires
        s.len() > 0,
        forall|i: int| 0 <= i < s.len() ==> plain(#[trigger] s[i]),
    ensures
        update::version_core(s) == s,
{
    assert(plain(s[0]));
    assert(plain(s[s.len() - 1]));
    assert(text::trimmed_end(s) == s);
    assert(text::trimmed(s) == s);
    assert(text::without_start(s, text::just('v')) == s);
    assert forall|i: int| 0 <= i < s.len() implies s[i] != '-' && s[i] != '+' by {
        assert(plain(s[i]));
    }
    text::lemma_run_is(s, text::just('-'), s.len() as int);
    text::lemma_run_is(s, text::just('+'), s.len() as int);
    assert(s.take(s.len() as int) =~= s);
}

proof fn lemma_number(n: u64)
    ensures
        number::parsed_u64(number::decimal(n as nat)) == Some(n),
        !number::decimal(n as nat).contains('.'),
        number::decimal(n as nat).len() > 0,
        forall|i: int|
            0 <= i < number::decimal(n as nat).len() ==> plain(
                #[trigger] number::decimal(n as nat)[i],
            ),
{
    let d = number::decimal(n as nat);
    number::law_decimal_reads_back(n as nat);
    assert(text::is_digit(d[0]));
    if d.contains('.') {
        let i = choose|i: int| 0 <= i < d.len() && d[i] == '.';
        assert(text::is_digit(d[i]));
    }
}

/// A version is three numbers with dots between them, of which the last two may be
/// missing.
pub proof fn law_versions_are_read(a: u64, b: u64, c: u64)
    ensures
        ({
            let x = number::decimal(a as nat);
            let y = number::decimal(b as nat);
            let z = number::decimal(c as nat);
            &&& update::version(x + "."@ + y + "."@ + z) == Some((a, b, c))
            &&& update::version(x + "."@ + y) == Some((a, b, 0u64))
            &&& update::version(x) == Some((a, 0u64, 0u64))
            &&& update::version(x + "."@ + y + "."@ + z + "."@ + x) == Some((a, b, c))
        }),
{
    let x = number::decimal(a as nat);
    let y = number::decimal(b as nat);
    let z = number::decimal(c as nat);
    reveal_strlit(".");
    reveal_strlit("0");
    assert("."@ =~= seq!['.']);
    assert("0"@ =~= seq!['0']);
    lemma_number(a);
    lemma_number(b);
    lemma_number(c);
    lemma_number(0);
    assert(number::decimal(0) == seq!['0']) by {
        laws_text::law_no_leading_zero(0);
    }
    let s = x + "."@ + y + "."@ + z;
    let t = x + "."@ + y;
    lemma_core(s);
    lemma_core(t);
    lemma_core(x);
    laws_text::law_pieces(z, '.', z);
    laws_text::law_pieces(y, '.', z);
    laws_text::law_pieces(x, '.', y + "."@ + z);
    laws_text::law_pieces(x, '.', y);
    assert(s =~= x + seq!['.'] + (y + "."@ + z));
    assert(text::pieces(s, '.') =~= seq![x, y, z]);
    assert(text::pieces(t, '.') =~= seq![x, y]);
    let more = s + "."@ + x;
    lemma_core(more);
    laws_text::law_pieces(x, '.', x);
    laws_text::law_pieces(z, '.', x);
    laws_text::law_pieces(y, '.', z + "."@ + x);
    laws_text::law_pieces(x, '.', y + "."@ + (z + "."@ + x));
    assert(more =~= x + seq!['.'] + (y + "."@ + (z + "."@ + x)));
    assert(text::pieces(more, '.') =~= seq![x, y, z, x]);
}

/// Of two versions that is newer whose first number that differs is larger.
pub proof fn law_larger_numbers_are_newer(
    l: Seq<char>,
    c: Seq<char>,
    a: (u64, u64, u64),
    b: (u64, u64, u64),
)
    requires
        update::version(l) == Some(a),
        update::version(c) == Some(b),
    ensures
        a.0 > b.0 ==> update::newer(l, c),
        a.0 < b.0 ==> !update::newer(l, c),
        a.0 == b.0 && a.1 > b.1 ==> update::newer(l, c),
        a.0 == b.0 && a.1 < b.1 ==> !update::newer(l, c),
        a.0 == b.0 && a.1 == b.1 ==> (update::newer(l, c) <==> a.2 > b.2),
{
}

// ---- releases ----

/// There is a binary for each of four platforms.
pub proof fn law_binaries(os: Seq<char>, arch: Seq<char>)
    ensures
        update::asset("linux"@, "x86_64"@) == Some("yt-linux-amd64"@),
        update::asset("linux"@, "aarch64"@) == Some("yt-linux-arm64"@),
        update::asset("macos"@, "x86_64"@) == Some("yt-darwin-amd64"@),
        update::asset("macos"@, "aarch64"@) == Some("yt-darwin-arm64"@),
        os != "linux"@ && os != "macos"@ ==> update::asset(os, arch) is None,
        arch != "x86_64"@ && arch != "aarch64"@ ==> update::asset(os, arch) is None,
{
    reveal_strlit("linux");
    reveal_strlit("macos");
    reveal_strlit("x86_64");
    reveal_strlit("aarch64");
    assert("linux"@[0] == 'l' && "macos"@[0] == 'm');
    assert("x86_64"@[0] == 'x' && "aarch64"@[0] == 'a');
}

/// The request for a file by the version `current`, to be answered in `seconds`.
pub open spec fn fetches(url: Seq<char>, current: Seq<char>, seconds: u64) -> RequestView {
    RequestView {
        method: "GET"@,
        url,
        headers: seq![("User-Agent"@, "yt/"@ + current)],
        query: Seq::empty(),
        body: BodyView::Empty,
        timeout: Some(seconds),
    }
}

/// The request for the latest release by the version `current`.
pub open spec fn asks_release(current: Seq<char>) -> RequestView {
    RequestView {
        method: "GET"@,
        url: "https://api.github.com/repos/"@ + "DorskFR/yt"@ + "/releases/latest"@,
        headers: seq![
            ("User-Agent"@, "yt/"@ + current),
            ("Accept"@, "application/vnd.github+json"@),
        ],
        query: Seq::empty(),
        body: BodyView::Empty,
        timeout: Some(4),
    }
}

proof fn lemma_release_request(current: Seq<char>)
    ensures
        update::release_request(current) == asks_release(current),
{
    assert(update::release_request(current).headers =~= asks_release(current).headers);
}

/// Whether `v` is `tag` without the letters `v` at its start.
pub open spec fn is_version_of(v: Seq<char>, tag: Seq<char>) -> bool {
    &&& v.len() == 0 || v[0] != 'v'
    &&& v.is_suffix_of(tag)
    &&& forall|i: int| 0 <= i < tag.len() - v.len() ==> #[trigger] tag[i] == 'v'
}

proof fn lemma_version_of(tag: Seq<char>)
    ensures
        is_version_of(text::without_start(tag, text::just('v')), tag),
    decreases tag.len(),
{
    let v = text::without_start(tag, text::just('v'));
    if tag.len() > 0 && tag[0] == 'v' {
        let d = tag.drop_first();
        lemma_version_of(d);
        assert(v == text::without_start(d, text::just('v')));
        assert(tag.skip(tag.len() - v.len()) =~= d.skip(d.len() - v.len()));
        assert forall|i: int| 0 <= i < tag.len() - v.len() implies #[trigger] tag[i] == 'v' by {
            if i > 0 {
                assert(d[i - 1] == 'v');
            }
        }
    } else {
        assert(v == tag);
        assert(tag.skip(0) =~= tag);
    }
}

/// A release is told by its tag, and its version is the tag without the letters `v` at its
/// start.
pub proof fn law_releases_are_read(v: JsonView)
    ensures
        match v.member("tag_name"@) {
            JsonView::Text(tag) => update::release_in(v) matches Ok(p) && p.0 == tag
                && is_version_of(p.1, tag),
            _ => update::release_in(v) == Err::<(Seq<char>, Seq<char>), Seq<char>>(
                "release has no tag_name"@,
            ),
        },
{
    if let JsonView::Text(tag) = v.member("tag_name"@) {
        lemma_version_of(tag);
    }
}

// ---- the notice ----

/// Whether a notice says that `latest` is there where it is newer than `current`, and
/// nothing where it is not.
pub open spec fn tells(n: NoticeView, latest: Seq<char>, current: Seq<char>) -> bool {
    if latest.len() > 0 && update::newer(latest, current) {
        n == NoticeView::Tell(
            "update available: "@ + current + " -> "@ + latest + " (run: yt update)"@,
        )
    } else {
        n is Nothing
    }
}

/// A release is looked for where the last look is a day old or older, or none is known;
/// before that the notice is about the release that is known. No one who opted out, or
/// sits at no terminal, gets a notice or has a release looked for.
pub proof fn law_notices(
    opted_out: bool,
    terminal: bool,
    file: Option<Seq<char>>,
    now: u64,
    current: Seq<char>,
    kept: JsonView,
)
    requires
        match file {
            Some(t) => match wire::parsed(t) {
                Ok(v) => kept == v,
                Err(_) => kept == JsonView::Null,
            },
            None => kept == JsonView::Null,
        },
    ensures
        ({
            let n = update::notice_due(opted_out, terminal, file, now, current);
            let looked = match kept.member("checked_at"@) {
                JsonView::Integer(i) => if 0 <= i <= u64::MAX {
                    i
                } else {
                    0
                },
                _ => 0,
            };
            let latest = match kept.member("latest"@) {
                JsonView::Text(t) => t,
                _ => ""@,
            };
            &&& opted_out || !terminal ==> n is Nothing
            &&& !opted_out && terminal && now - looked >= 86_400 ==> n == NoticeView::Ask(
                asks_release(current),
                latest,
            )
            &&& !opted_out && terminal && now - looked < 86_400 ==> tells(n, latest, current)
        }),
{
    lemma_release_request(current);
}

/// What is kept of a look is when it was made and the latest release that is known; a look
/// that told none leaves what was known.
pub proof fn law_looks_are_kept(
    told: Result<(Seq<char>, Seq<char>), Seq<char>>,
    known: Seq<char>,
    now: u64,
    current: Seq<char>,
)
    ensures
        ({
            let latest = match told {
                Ok(p) => p.1,
                Err(_) => known,
            };
            &&& update::known_after(told, known) == latest
            &&& update::cache_value(now, latest) == JsonView::Object(
                map![
                    "checked_at"@ => JsonView::Integer(now as int),
                    "latest"@ => JsonView::Text(latest),
                ],
            )
            &&& match update::notice_line(latest, current) {
                Some(t) => tells(NoticeView::Tell(t), latest, current),
                None => tells(NoticeView::Nothing, latest, current),
            }
        }),
{
}

// ---- putting a release in place ----

/// A line of checksums about a file is its checksum, white space, and what ends in the name
/// of the file.
pub proof fn law_checksum_lines(h: Seq<char>, w: char, rest: Seq<char>, asset: Seq<char>)
    requires
        text::is_white(w),
        forall|i: int| 0 <= i < h.len() ==> !text::is_white(#[trigger] h[i]),
    ensures
        asset.is_suffix_of(text::trimmed(rest)) ==> update::line_checksum(
            h + seq![w] + rest,
            asset,
        ) == Some(h),
        !asset.is_suffix_of(text::trimmed(rest)) ==> update::line_checksum(
            h + seq![w] + rest,
            asset,
        ) is None,
        update::line_checksum(h, asset) is None,
{
    let f = text::white();
    let l = h + seq![w] + rest;
    assert forall|i: int| 0 <= i < h.len() implies !f(#[trigger] l[i]) by {
        assert(l[i] == h[i]);
    }
    text::lemma_run_is(l, f, h.len() as int);
    text::lemma_run_is(h, f, h.len() as int);
    assert(l.take(h.len() as int) =~= h);
    assert(l.skip(h.len() as int + 1) =~= rest);
}

/// The checksum of a file is that of the first line about it.
pub proof fn law_first_checksum_counts(l: Seq<char>, s: Seq<Seq<char>>, asset: Seq<char>)
    ensures
        update::checksum(Seq::empty(), asset) is None,
        update::checksum(seq![l] + s, asset) == match update::line_checksum(l, asset) {
            Some(h) => Some(h),
            None => update::checksum(s, asset),
        },
{
    let t = seq![l] + s;
    assert(t.drop_first() =~= s);
}

/// An update asks for the latest release; where that is newer, or it is forced, for its
/// checksums and then for the binary of the platform, and puts that in place where its
/// checksum is right.
pub proof fn law_updates(
    force: bool,
    os: Seq<char>,
    arch: Seq<char>,
    current: Seq<char>,
    asset: Seq<char>,
    tag: Seq<char>,
    latest: Seq<char>,
    sums: String,
    want: Seq<char>,
    bytes: Seq<u8>,
    digest: Seq<u8>,
)
    requires
        update::asset(os, arch) == Some(asset),
        force || update::newer(latest, current),
        update::checksum(text::lines_of(sums@), asset) == Some(want),
    ensures
        ({
            let site = "https://github.com/"@ + "DorskFR/yt"@ + "/releases/download/"@ + tag
                + "/"@;
            let first = update::update_begun(force, os, arch, current);
            &&& first.lines.len() == 0
            &&& first.next matches UpdateView::Ask { request, asset: a, force: f } && {
                let second = update::release_known(a, f, Ok((tag, latest)), current);
                &&& request == asks_release(current)
                &&& second.lines.len() == 0
                &&& second.next matches UpdateView::ReadSums {
                    request,
                    asset: a,
                    tag: t,
                    latest: l,
                } && {
                    let third = update::sums_known(a, t, l, Fetched::Got(sums), current);
                    &&& request == fetches(site + "SHA256SUMS"@, current, 30)
                    &&& third.lines == seq![
                        LineView::Note("downloading "@ + asset + " "@ + latest + "..."@),
                    ]
                    &&& third.next matches UpdateView::FetchBinary {
                        request,
                        asset: a,
                        want: w,
                        latest: l,
                    } && {
                        let fourth = update::digest_known(a, w, l, bytes, digest);
                        &&& request == fetches(site + asset, current, 120)
                        &&& fourth.lines.len() == 0
                        &&& text::lowered(number::hex_bytes(digest)) == text::lowered(want)
                            ==> (fourth.next matches UpdateView::Install { bytes: b, latest: l }
                            && b == bytes && {
                            let fifth = update::install_known(l, Installed::Done, current);
                            &&& fifth.lines == seq![
                                LineView::Plain("updated "@ + current + " -> "@ + latest),
                            ]
                            &&& fifth.next is Done
                        })
                        &&& text::lowered(number::hex_bytes(digest)) != text::lowered(want)
                            ==> fourth.next == UpdateView::Fail(
                            "checksum mismatch for "@ + asset + ": expected "@ + want + ", got "@
                                + number::hex_bytes(digest) + " (aborting, binary untouched)"@,
                        )
                    }
                }
            }
        }),
{
    lemma_release_request(current);
}

/// What keeps an update from going on is told: no binary for the platform, no release,
/// nothing newer, no checksums, none for the binary, or no binary.
pub proof fn law_updates_that_fail(
    force: bool,
    os: Seq<char>,
    arch: Seq<char>,
    current: Seq<char>,
    asset: Seq<char>,
    tag: Seq<char>,
    latest: Seq<char>,
    want: Seq<char>,
    e: String,
)
    ensures
        update::asset(os, arch) is None ==> update::update_begun(force, os, arch, current).next
            == UpdateView::Fail(
            "unsupported platform: "@ + os + "/"@ + arch + " (no prebuilt binary)"@,
        ),
        update::release_known(asset, force, Err(e@), current).next == UpdateView::Fail(e@),
        !force && !update::newer(latest, current) ==> ({
            let s = update::release_known(asset, force, Ok((tag, latest)), current);
            s.next is Done && s.lines == seq![
                LineView::Plain("already up to date ("@ + current + ")"@),
            ]
        }),
        update::sums_known(asset, tag, latest, Fetched::Refused(e), current).next
            == UpdateView::Fail("fetching SHA256SUMS: "@ + e@),
        update::sums_known(asset, tag, latest, Fetched::Broken(e), current).next
            == UpdateView::Fail(e@),
        update::checksum(text::lines_of(e@), asset) is None ==> update::sums_known(
            asset,
            tag,
            latest,
            Fetched::Got(e),
            current,
        ).next == UpdateView::Fail("no checksum for "@ + asset + " in SHA256SUMS"@),
        update::binary_known(asset, want, latest, Fetched::Refused(e)).next == UpdateView::Fail(
            "downloading "@ + asset + ": "@ + e@,
        ),
        update::binary_known(asset, want, latest, Fetched::Broken(e)).next == UpdateView::Fail(e@),
{
}

/// The digest that counts is that of the binary that was fetched.
pub proof fn law_digest_is_of_the_binary(
    asset: Seq<char>,
    want: Seq<char>,
    latest: Seq<char>,
    binary: Vec<u8>,
)
    ensures
        update::binary_known(asset, want, latest, Fetched::Got(binary)) == update::digest_known(
            asset,
            want,
            latest,
            binary@,
            update::sha256_of(binary@),
        ),
{
}

/// What keeps a binary from being put in place is told.
pub proof fn law_installs_that_fail(latest: Seq<char>, current: Seq<char>, place: String, e: String)
    ensures
        update::install_known(latest, Installed::NoExecutable(e), current).next
            == UpdateView::Fail("cannot locate current executable: "@ + e@),
        update::install_known(latest, Installed::NoDirectory, current).next == UpdateView::Fail(
            "executable has no parent dir"@,
        ),
        update::install_known(latest, Installed::Unwritable(place, e), current).next
            == UpdateView::Fail(
            "cannot write to "@ + place@
                + " \u{2014} is the install dir writable? (try with appropriate permissions)"@
                + ": "@ + e@,
        ),
        update::install_known(latest, Installed::Unmarked(e), current).next == UpdateView::Fail(e@),
        update::install_known(latest, Installed::Unreplaced(place, e), current).next
            == UpdateView::Fail("replacing "@ + place@ + ": "@ + e@),
{
}

/// What a reply tells of the latest release is what its value tells; a failure is told.
pub proof fn law_releases_of_a_reply(r: Reply)
    ensures
        match client::reply_value(r) {
            Ok(v) => update::release_told(r) == update::release_in(v),
            Err(e) => update::release_told(r) == Err::<(Seq<char>, Seq<char>), Seq<char>>(e),
        },
{
}

} // verus!
