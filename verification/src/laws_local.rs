//! What becomes of the configuration, which server is used, and what its replies say.

use vstd::prelude::*;
use crate::client::{ClientView, Download, Reply};
use crate::client;
use crate::command::{
    Cmd, ReadCmd, ReadIssueCmd, ReadProjectCmd, ReadServerCmd, ReadUserCmd, WriteCmd, WriteIssueCmd,
    WriteProjectCmd, WriteServerCmd,
};
use crate::command;
use crate::config::ConfigView;
use crate::config;
use crate::json::JsonView;
use crate::line::LineView;
use crate::local::LocalView;
use crate::local;
use crate::number;
use crate::sorted;
use crate::text;
use crate::wire;

verus! {

// ---- the configuration ----

/// Every server that has a text for its URL and one for its token is read, and no other.
pub proof fn law_servers_are_read(v: JsonView, m: Map<Seq<char>, JsonView>, name: Seq<char>)
    requires
        v.member("servers"@) == JsonView::Object(m),
    ensures
        ({
            let c = config::config_in(v);
            let complete = m.contains_key(name) && m[name].member("url"@) is Text && m[name].member(
                "token"@,
            ) is Text;
            &&& c.servers.contains_key(name) <==> complete
            &&& complete ==> c.servers[name] == (
                m[name].member("url"@)->Text_0,
                m[name].member("token"@)->Text_0,
            )
            &&& c.default == match v.member("default"@) {
                JsonView::Text(d) => Some(d),
                _ => None,
            }
        }),
{
}

/// Without a list of servers, a URL and a token stand for the one server `default`, and
/// without both there is none.
pub proof fn law_flat_layout_is_read(v: JsonView, name: Seq<char>)
    requires
        !(v.member("servers"@) is Object),
    ensures
        ({
            let c = config::config_in(v);
            let complete = v.member("url"@) is Text && v.member("token"@) is Text;
            &&& c.servers.contains_key(name) <==> complete && name == "default"@
            &&& complete ==> c.servers["default"@] == (
                v.member("url"@)->Text_0,
                v.member("token"@)->Text_0,
            )
        }),
{
}

/// A file that is absent holds no server; one that is no JSON is refused, with its path and
/// what is wrong; any other is read.
pub proof fn law_files_are_read(t: Seq<char>, path: Seq<char>)
    ensures
        ({
            let none = config::loaded(None, path);
            &&& none matches Ok(c) && c.default is None && forall|n: Seq<char>|
                !#[trigger] c.servers.contains_key(n)
            &&& match wire::parsed(t) {
                Ok(v) => config::loaded(Some(t), path) == Ok::<ConfigView, Seq<char>>(
                    config::config_in(v),
                ),
                Err(e) => config::loaded(Some(t), path) == Err::<ConfigView, Seq<char>>(
                    "invalid JSON in "@ + path + ": "@ + e,
                ),
            }
        }),
{
}

/// Whether `v` is how the configuration `c` is kept: the default, or null where there is
/// none, and for each server its URL and its token.
pub open spec fn keeps(v: JsonView, c: ConfigView) -> bool {
    v matches JsonView::Object(o) && {
        &&& o.contains_key("default"@) && o["default"@] == match c.default {
            Some(d) => JsonView::Text(d),
            None => JsonView::Null,
        }
        &&& o.contains_key("servers"@) && (o["servers"@] matches JsonView::Object(m) && {
            &&& forall|n: Seq<char>| #[trigger] m.contains_key(n) <==> c.servers.contains_key(n)
            &&& forall|n: Seq<char>| #[trigger]
                m.contains_key(n) ==> m[n] == JsonView::Object(
                    map![
                        "url"@ => JsonView::Text(c.servers[n].0),
                        "token"@ => JsonView::Text(c.servers[n].1),
                    ],
                )
        })
        &&& forall|k: Seq<char>| #[trigger]
            o.contains_key(k) ==> k == "default"@ || k == "servers"@
    }
}

proof fn lemma_keeps(c: ConfigView)
    ensures
        keeps(config::stored(c), c),
{
    reveal_strlit("default");
    reveal_strlit("servers");
    assert("default"@[0] == 'd' && "servers"@[0] == 's');
}

/// Whether what is next is to save the configuration `c`, for its owner alone, and to say
/// `told`.
pub open spec fn saves(n: LocalView, c: ConfigView, told: Seq<char>) -> bool {
    n matches LocalView::SaveConfig(t, mode, l) && mode == 0o600 && l == told && exists|v: JsonView| #[trigger]
        keeps(v, c) && t == wire::pretty(v)
}

/// What becomes of the credentials given: they are kept under their name, or `default`;
/// every other server and a default that is set stay; with none set the first server
/// becomes it. Where credentials of the server `default` are replaced, a warning is due.
pub proof fn law_credentials_are_saved(
    url: String,
    token: String,
    name: Option<String>,
    input: Seq<char>,
    c: ConfigView,
    path: Seq<char>,
    d: ConfigView,
    sole: Seq<char>,
)
    requires
        ({
            let n = match name {
                Some(n) => n@,
                None => "default"@,
            };
            let given = if token@ == "-"@ {
                text::trimmed_end(input)
            } else {
                token@
            };
            &&& d.servers == c.servers.insert(n, (url@, given))
            &&& c.default is Some ==> d.default == c.default
            &&& c.default is None && c.servers.dom() =~= Set::empty() ==> d.default == Some(n)
            &&& c.default is None && c.servers.dom() =~= Set::empty().insert(sole) ==> d.default
                == Some(sole)
            &&& c.default is None && c.servers.dom().len() > 1 ==> d.default is None
            &&& c.servers.dom().finite()
            &&& c.servers.dom().len() == 1 ==> c.servers.contains_key(sole)
        }),
    ensures
        ({
            let n = match name {
                Some(n) => n@,
                None => "default"@,
            };
            let first = local::begun(
                Cmd::Write(WriteCmd::Server(WriteServerCmd::Auth { url, token, name })),
            );
            let known = match first.next {
                LocalView::ReadToken(u, m) => local::token_known(u, m, input),
                _ => first,
            };
            &&& first.lines.len() == 0 && known.lines.len() == 0
            &&& first.next is ReadToken <==> token@ == "-"@
            &&& known.next matches LocalView::LoadConfig(t) && {
                let last = local::load_known(t, Ok(c), path);
                &&& saves(last.next, d, "saved server '"@ + n + "' to "@ + path)
                &&& if n == "default"@ && c.servers.contains_key(n) {
                    last.lines == seq![
                        LineView::Note(
                            "warning: overwriting existing 'default' server (pass a name to keep both)"@,
                        ),
                    ]
                } else {
                    last.lines.len() == 0
                }
            }
        }),
{
    let n = match name {
        Some(n) => n@,
        None => "default"@,
    };
    let given = if token@ == "-"@ {
        text::trimmed_end(input)
    } else {
        token@
    };
    let w = config::with_server(c, n, url@, given);
    let names = c.servers.dom();
    if c.default is None {
        if c.servers =~= Map::empty() {
            assert(names =~= Set::empty());
        } else if names.len() == 1 {
            lemma_sole(names, sole);
        } else if names.len() == 0 {
            assert(names =~= Set::empty());
            assert(c.servers =~= Map::empty());
        }
    }
    assert(w =~= d);
    lemma_keeps(d);
}

proof fn lemma_sole(names: Set<Seq<char>>, sole: Seq<char>)
    requires
        names.finite(),
        names.len() == 1,
        names.contains(sole),
    ensures
        names =~= Set::empty().insert(sole),
        names.choose() == sole,
{
    let x = names.choose();
    assert(names.contains(x));
    let rest = names.remove(sole);
    assert(rest.len() == 0);
    assert(rest =~= Set::empty());
    assert(!rest.contains(x));
}

/// To set the default is to save the configuration with it, where there is such a server;
/// else nothing is saved.
pub proof fn law_default_is_saved(name: String, c: ConfigView, path: Seq<char>)
    ensures
        ({
            let first = local::begun(
                Cmd::Write(WriteCmd::Server(WriteServerCmd::Default { name })),
            );
            &&& first.lines.len() == 0
            &&& first.next matches LocalView::LoadConfig(t) && {
                let last = local::load_known(t, Ok(c), path);
                &&& last.lines.len() == 0
                &&& c.servers.contains_key(name@) ==> saves(
                    last.next,
                    (ConfigView { default: Some(name@), servers: c.servers }),
                    "default server is now '"@ + name@ + "'"@,
                )
                &&& !c.servers.contains_key(name@) ==> last.next == LocalView::Fail(
                    "no server named '"@ + name@ + "': run `yt read server ls` to list"@,
                )
            }
        }),
{
    lemma_keeps(ConfigView { default: Some(name@), servers: c.servers });
}

/// To list the servers is to print each with its URL, in order, the default marked by a
/// star; where there is none, how to add one.
pub proof fn law_servers_are_listed(c: ConfigView, path: Seq<char>, names: Seq<Seq<char>>)
    requires
        sorted::ascending(names),
        forall|n: Seq<char>| #[trigger] names.contains(n) <==> c.servers.contains_key(n),
    ensures
        ({
            let first = local::begun(Cmd::Read(ReadCmd::Server(ReadServerCmd::Ls)));
            &&& first.lines.len() == 0
            &&& first.next matches LocalView::LoadConfig(t) && {
                let last = local::load_known(t, Ok(c), path);
                &&& last.next is Done
                &&& names.len() == 0 ==> last.lines == seq![
                    LineView::Plain(
                        "no servers configured; run `yt write server auth URL TOKEN [name]`"@,
                    ),
                ]
                &&& names.len() > 0 ==> last.lines.len() == names.len()
                &&& forall|k: int|
                    0 <= k < names.len() ==> last.lines[k] == LineView::Plain(
                        (if c.default == Some(names[k]) {
                            "*"@
                        } else {
                            " "@
                        }) + " "@ + #[trigger] names[k] + "  "@ + c.servers[names[k]].0,
                    )
            }
        }),
{
    let set = c.servers.dom();
    assert forall|n: Seq<char>| set.contains(n) <==> #[trigger] names.contains(n) by {
        assert(names.contains(n) <==> c.servers.contains_key(n));
    }
    assert(sorted::lists(names, set));
    sorted::lemma_in_order(names, set);
    if names.len() == 0 {
        assert forall|n: Seq<char>| !c.servers.contains_key(n) by {
            assert(names.contains(n) <==> c.servers.contains_key(n));
        }
        assert(c.servers =~= Map::empty());
        let a = local::plain_lines(config::server_lines(c));
        assert(a =~= seq![
            LineView::Plain(
                "no servers configured; run `yt write server auth URL TOKEN [name]`"@,
            ),
        ]);
    } else {
        assert(names.contains(names[0]));
        assert(c.servers.contains_key(names[0]));
    }
}

/// A configuration that cannot be read ends a command that needs it, with the reason.
pub proof fn law_unreadable_configurations_are_refused(
    t: local::TaskView,
    e: Seq<char>,
    path: Seq<char>,
)
    ensures
        local::load_known(t, Err(e), path).next == LocalView::Fail(e),
        local::load_known(t, Err(e), path).lines.len() == 0,
{
}

/// An update is carried out with the force asked for.
pub proof fn law_update_is_handed_on(force: bool)
    ensures
        local::begun(Cmd::Write(WriteCmd::Update { force })).next == LocalView::Update(force),
{
}

// ---- the server ----

/// Without a server asked for, a default or a single server there is none to use; one that
/// is asked for or set has to be configured.
pub proof fn law_servers_have_to_be_known(
    asked: Option<Seq<char>>,
    url: Option<Seq<char>>,
    token: Option<Seq<char>>,
    c: ConfigView,
    n: Seq<char>,
    sole: Seq<char>,
)
    requires
        asked is Some || url is None || token is None,
        c.servers.dom().finite(),
    ensures
        ({
            let r = client::resolved(asked, url, token, Ok(c));
            let missing = Err::<ClientView, Seq<char>>(
                "no server named '"@ + n + "': run `yt auth URL TOKEN "@ + n + "`"@,
            );
            &&& asked == Some(n) && !c.servers.contains_key(n) ==> r == missing
            &&& asked is None && c.default == Some(n) && !c.servers.contains_key(n) ==> r == missing
            &&& asked is None && c.default is None && c.servers.dom().len() != 1 ==> r == Err::<
                ClientView,
                Seq<char>,
            >(
                "no server selected: set a default with `yt default NAME`, pass --server, or set YOUTRACK_URL"@,
            )
            &&& asked is None && c.default is None && c.servers.dom().len() == 1
                && c.servers.contains_key(sole) ==> r == Ok::<ClientView, Seq<char>>(
                ClientView {
                    base: client::base_url(c.servers[sole].0),
                    token: c.servers[sole].1,
                },
            )
        }),
{
    if c.servers.dom().len() == 1 && c.servers.contains_key(sole) {
        lemma_sole(c.servers.dom(), sole);
    }
}

/// A configuration that cannot be read is told where it is needed.
pub proof fn law_unreadable_servers_are_told(
    asked: Option<Seq<char>>,
    url: Option<Seq<char>>,
    token: Option<Seq<char>>,
    e: Seq<char>,
)
    requires
        asked is Some || url is None || token is None,
    ensures
        client::resolved(asked, url, token, Err(e)) == Err::<ClientView, Seq<char>>(e),
{
}

/// The root of an API is the address given with `/api` behind it, unless that is there.
pub proof fn law_addresses_get_their_api(url: Seq<char>)
    requires
        url.len() == 0 || url.last() != '/',
    ensures
        client::base_url(url + "/api"@) == url + "/api"@,
        !"/api"@.is_suffix_of(url) ==> client::base_url(url) == url + "/api"@,
{
    reveal_strlit("/api");
    let b = url + "/api"@;
    assert(b.skip(b.len() - 4) =~= "/api"@);
    assert(b.last() == 'i');
    assert(text::without_end(b, text::just('/')) == b);
    assert(text::without_end(url, text::just('/')) == url);
}

proof fn lemma_seek(scheme: Seq<char>, rest: Seq<char>)
    requires
        !scheme.contains(':'),
    ensures
        text::seek("://"@, scheme + "://"@ + rest) == scheme.len(),
    decreases scheme.len(),
{
    reveal_strlit("://");
    let s = scheme + "://"@ + rest;
    if scheme.len() == 0 {
        assert(s.take(3) =~= "://"@);
    } else {
        assert(scheme.contains(scheme[0]));
        assert(s[0] == scheme[0]);
        assert("://"@[0] == ':');
        if "://"@.is_prefix_of(s) {
            assert(s.take(3)[0] == s[0]);
        }
        let t = scheme.drop_first();
        assert(!t.contains(':')) by {
            if t.contains(':') {
                let i = choose|i: int| 0 <= i < t.len() && t[i] == ':';
                assert(scheme[i + 1] == ':');
            }
        }
        lemma_seek(t, rest);
        assert(s.drop_first() =~= t + "://"@ + rest);
    }
}

/// The server behind an address is its scheme and its host, whatever path stands behind
/// them.
pub proof fn law_origins(scheme: Seq<char>, host: Seq<char>, path: Seq<char>)
    requires
        !scheme.contains(':'),
        !host.contains('/'),
        path.len() == 0 || path[0] == '/',
    ensures
        client::origin_of(scheme + "://"@ + host + path) == scheme + "://"@ + host,
{
    let base = scheme + "://"@ + host + path;
    reveal_strlit("://");
    lemma_seek(scheme, host + path);
    assert(base =~= scheme + "://"@ + (host + path));
    let from = scheme.len() + 3;
    assert(client::scheme_length(base) == from);
    let rest = base.skip(from as int);
    assert(rest =~= host + path);
    let f = text::just('/');
    assert forall|i: int| 0 <= i < host.len() implies !f(#[trigger] rest[i]) by {
        assert(host.contains(host[i]));
    }
    text::lemma_run_is(rest, f, host.len() as int);
    assert(base.take((from + host.len()) as int) =~= scheme + "://"@ + host);
}

// ---- replies ----

/// A reply is what its text reads as, and null where it has none. A refusal is told by its
/// status and the words of the server: the description of the error, else the error, else
/// the text as it is.
pub proof fn law_replies(t: String, code: u16, v: JsonView)
    ensures
        t@.len() == 0 ==> client::reply_value(Reply::Answer(t)) == Ok::<JsonView, Seq<char>>(
            JsonView::Null,
        ),
        t@.len() > 0 ==> client::reply_value(Reply::Answer(t)) == wire::parsed(t@),
        client::reply_value(Reply::Broken(t)) == Err::<JsonView, Seq<char>>(t@),
        ({
            let words = match wire::parsed(t@) {
                Ok(v) => match (v.member("error_description"@), v.member("error"@)) {
                    (JsonView::Text(d), _) => d,
                    (_, JsonView::Text(e)) => e,
                    _ => t@,
                },
                Err(_) => t@,
            };
            client::reply_value(Reply::Refusal(code, t)) == Err::<JsonView, Seq<char>>(
                "HTTP "@ + number::decimal(code as nat) + ": "@ + words,
            )
        }),
        client::is_forbidden(Reply::Refusal(code, t)) <==> code == 403,
        !client::is_forbidden(Reply::Answer(t)),
        !client::is_forbidden(Reply::Broken(t)),
{
}

/// A download is the bytes that came; a refusal is told by its status and what the server
/// sent.
pub proof fn law_downloads(b: Vec<u8>, code: u16, t: String)
    ensures
        client::download_value(Download::Answer(b)) == Ok::<Seq<u8>, Seq<char>>(b@),
        client::download_value(Download::Refusal(code, t)) == Err::<Seq<u8>, Seq<char>>(
            "HTTP "@ + number::decimal(code as nat) + ": "@ + t@,
        ),
        client::download_value(Download::Broken(t)) == Err::<Seq<u8>, Seq<char>>(t@),
{
}

// ---- content types ----

proof fn lemma_extension(stem: Seq<char>, ext: Seq<char>)
    requires
        !ext.contains('.'),
    ensures
        text::pieces(stem + seq!['.'] + ext, '.').last() == ext,
        text::pieces(ext, '.').last() == ext,
    decreases stem.len(),
{
    let s = stem + seq!['.'] + ext;
    let f = text::just('.');
    assert forall|i: int| 0 <= i < ext.len() implies !f(#[trigger] ext[i]) by {
        assert(ext.contains(ext[i]));
    }
    text::lemma_run_is(ext, f, ext.len() as int);
    assert(text::pieces(ext, '.') == seq![ext]);
    text::lemma_run(s, f);
    let n = text::run(s, f) as int;
    assert(n <= stem.len()) by {
        if n > stem.len() {
            assert(!f(s[stem.len() as int]));
        }
    }
    if n == stem.len() {
        assert(s.skip(n + 1) =~= ext);
    } else {
        let rest = stem.skip(n + 1);
        assert(s.skip(n + 1) =~= rest + seq!['.'] + ext);
        lemma_extension(rest, ext);
    }
    let p = text::pieces(s.skip(n + 1), '.');
    assert(p.len() > 0) by {
        reveal_with_fuel(text::pieces, 2);
    }
    assert((seq![s.take(n)] + p).last() == p.last());
}

/// The content type of a file follows from what stands behind the last dot of its name, in
/// whatever case.
pub proof fn law_content_types(stem: Seq<char>, ext: Seq<char>)
    requires
        !ext.contains('.'),
    ensures
        ({
            let t = client::type_by_name(stem + "."@ + ext);
            let e = text::lowered(ext);
            &&& e == "png"@ ==> t == "image/png"@
            &&& e == "jpg"@ ==> t == "image/jpeg"@
            &&& e == "jpeg"@ ==> t == "image/jpeg"@
            &&& e == "gif"@ ==> t == "image/gif"@
            &&& e == "webp"@ ==> t == "image/webp"@
            &&& e == "svg"@ ==> t == "image/svg+xml"@
            &&& e != "png"@ && e != "jpg"@ && e != "jpeg"@ && e != "gif"@ && e != "webp"@ && e
                != "svg"@ ==> t == "application/octet-stream"@
            &&& client::type_by_name(ext) == "application/octet-stream"@
        }),
{
    reveal_strlit(".");
    assert("."@ =~= seq!['.']);
    lemma_extension(stem, ext);
    let name = stem + "."@ + ext;
    assert(name[stem.len() as int] == '.');
    assert(name.contains('.'));
    reveal_strlit("png");
    reveal_strlit("jpg");
    reveal_strlit("jpeg");
    reveal_strlit("gif");
    reveal_strlit("webp");
    reveal_strlit("svg");
    assert("png"@[0] == 'p' && "jpg"@[0] == 'j' && "jpeg"@[0] == 'j' && "gif"@[0] == 'g'
        && "webp"@[0] == 'w' && "svg"@[0] == 's');
}

/// The help on queries is printed, and that is all.
pub proof fn law_help_is_printed()
    ensures
        local::begun(Cmd::Read(ReadCmd::QueryHelp)).lines == seq![
            LineView::Plain(local::QUERY_HELP@),
        ],
        local::begun(Cmd::Read(ReadCmd::QueryHelp)).next is Done,
{
}

/// Help, the servers and updates need no server; everything about issues, projects and
/// users does.
pub proof fn law_local_commands(
    a: ReadServerCmd,
    b: WriteServerCmd,
    force: bool,
    i: ReadIssueCmd,
    p: ReadProjectCmd,
    u: ReadUserCmd,
    j: WriteIssueCmd,
    q: WriteProjectCmd,
)
    ensures
        command::is_local(Cmd::Read(ReadCmd::QueryHelp)),
        command::is_local(Cmd::Read(ReadCmd::Server(a))),
        command::is_local(Cmd::Write(WriteCmd::Server(b))),
        command::is_local(Cmd::Write(WriteCmd::Update { force })),
        !command::is_local(Cmd::Read(ReadCmd::Issue(i))),
        !command::is_local(Cmd::Read(ReadCmd::Project(p))),
        !command::is_local(Cmd::Read(ReadCmd::User(u))),
        !command::is_local(Cmd::Write(WriteCmd::Issue(j))),
        !command::is_local(Cmd::Write(WriteCmd::Project(q))),
{
}

proof fn lemma_seek_none(s: Seq<char>)
    requires
        !text::occurs_in("://"@, s),
    ensures
        text::seek("://"@, s) == s.len(),
    decreases s.len(),
{
    reveal_strlit("://");
    if s.len() > 0 {
        if "://"@.is_prefix_of(s) {
            assert(s.subrange(0, 0int + "://"@.len()) =~= "://"@);
        }
        let t = s.drop_first();
        if text::occurs_in("://"@, t) {
            let i = choose|i: int|
                0 <= i <= t.len() - "://"@.len() && #[trigger] t.subrange(i, i + "://"@.len())
                    == "://"@;
            assert(s.subrange(i + 1, i + 1 + "://"@.len()) =~= t.subrange(i, i + "://"@.len()));
        }
        lemma_seek_none(t);
    }
}

/// Without a scheme the server behind an address is what stands before its path.
pub proof fn law_origins_without_a_scheme(host: Seq<char>, path: Seq<char>)
    requires
        !host.contains('/'),
        path.len() == 0 || path[0] == '/',
        !text::occurs_in("://"@, host + path),
    ensures
        client::origin_of(host + path) == host,
{
    let base = host + path;
    lemma_seek_none(base);
    let rest = base.skip(0);
    assert(rest =~= base);
    let f = text::just('/');
    assert forall|i: int| 0 <= i < host.len() implies !f(#[trigger] rest[i]) by {
        assert(host.contains(host[i]));
    }
    text::lemma_run_is(rest, f, host.len() as int);
    assert(base.take(host.len() as int) =~= host);
}

} // verus!
