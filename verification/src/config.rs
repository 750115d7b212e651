//! The configured servers: `{"default": NAME, "servers": {NAME: {"url", "token"}}}`.

use vstd::prelude::*;
use crate::failure::Failure;
use crate::json::{Json, JsonView};
use crate::json;
use crate::sorted::TextMap;
use crate::sorted;
use crate::text;
use crate::wire;

verus! {

/// The configured servers by name, each with its URL and token, and the name of
/// the one that is used by default.
pub struct Config {
    pub default: Option<String>,
    pub servers: TextMap<(String, String)>,
}

/// The mathematical model of a configuration.
#[verifier::ext_equal]
pub struct ConfigView {
    pub default: Option<Seq<char>>,
    pub servers: Map<Seq<char>, (Seq<char>, Seq<char>)>,
}

/// The model of the servers `m`.
pub open spec fn servers_view(m: Map<Seq<char>, (String, String)>) -> Map<
    Seq<char>,
    (Seq<char>, Seq<char>),
> {
    m.map_values(|v: (String, String)| (v.0@, v.1@))
}

impl View for Config {
    type V = ConfigView;

    open spec fn view(&self) -> ConfigView {
        ConfigView {
            default: text::opt_text(self.default),
            servers: servers_view(self.servers@),
        }
    }
}

// ---- meaning ----

/// The URL and token in `v`, where it has both.
pub open spec fn credentials(v: JsonView) -> Option<(Seq<char>, Seq<char>)> {
    match (v.member("url"@).text(), v.member("token"@).text()) {
        (Some(u), Some(t)) => Some((u, t)),
        _ => None,
    }
}

/// The servers among the members `m` of a `servers` object: those with both a URL
/// and a token.
pub open spec fn complete_servers(m: Map<Seq<char>, JsonView>) -> Map<
    Seq<char>,
    (Seq<char>, Seq<char>),
> {
    Map::new(
        |k: Seq<char>| m.contains_key(k) && credentials(m[k]) is Some,
        |k: Seq<char>| credentials(m[k])->0,
    )
}

/// The servers that the stored value `v` names: those of its `servers` object, or
/// without one the single server of the flat layout, under the name `default`.
pub open spec fn servers_in(v: JsonView) -> Map<Seq<char>, (Seq<char>, Seq<char>)> {
    match v.member("servers"@) {
        JsonView::Object(m) => complete_servers(m),
        _ => match credentials(v) {
            Some(c) => Map::empty().insert("default"@, c),
            None => Map::empty(),
        },
    }
}

/// The configuration that the stored value `v` holds.
pub open spec fn config_in(v: JsonView) -> ConfigView {
    ConfigView { default: v.member("default"@).text(), servers: servers_in(v) }
}

/// The only member of `names`, where there is exactly one.
pub open spec fn sole(names: Set<Seq<char>>) -> Option<Seq<char>> {
    if names.len() == 1 {
        Some(names.choose())
    } else {
        None
    }
}

/// The name of the server to use: the one asked for, else the default, else the
/// only one there is.
pub open spec fn selected(c: ConfigView, asked: Option<Seq<char>>) -> Option<Seq<char>> {
    match asked {
        Some(s) => Some(s),
        None => match c.default {
            Some(d) => Some(d),
            None => sole(c.servers.dom()),
        },
    }
}

/// How a URL and a token are stored.
pub open spec fn stored_server(c: (Seq<char>, Seq<char>)) -> JsonView {
    JsonView::Object(
        Map::empty().insert("url"@, JsonView::Text(c.0)).insert("token"@, JsonView::Text(c.1)),
    )
}

/// How a configuration is stored.
pub open spec fn stored(c: ConfigView) -> JsonView {
    JsonView::Object(
        Map::empty().insert(
            "default"@,
            match c.default {
                Some(d) => JsonView::Text(d),
                None => JsonView::Null,
            },
        ).insert(
            "servers"@,
            JsonView::Object(
                c.servers.map_values(|v: (Seq<char>, Seq<char>)| stored_server(v)),
            ),
        ),
    )
}

/// What a configuration file with this text holds; an absent one holds nothing.
pub open spec fn loaded(file: Option<Seq<char>>, path: Seq<char>) -> Result<ConfigView, Seq<char>> {
    match file {
        None => Ok(ConfigView { default: None, servers: Map::empty() }),
        Some(t) => match wire::parsed(t) {
            Ok(v) => Ok(config_in(v)),
            Err(e) => Err("invalid JSON in "@ + path + ": "@ + e),
        },
    }
}

/// The configuration with one more server, or another in its place. The first server
/// becomes the default: the one added where there was none before, or the only one
/// there was.
pub open spec fn with_server(
    c: ConfigView,
    name: Seq<char>,
    url: Seq<char>,
    token: Seq<char>,
) -> ConfigView {
    ConfigView {
        default: match c.default {
            Some(d) => Some(d),
            None => if c.servers =~= Map::<Seq<char>, (Seq<char>, Seq<char>)>::empty() {
                Some(name)
            } else {
                sole(c.servers.dom())
            },
        },
        servers: c.servers.insert(name, (url, token)),
    }
}

/// The configuration without servers.
pub open spec fn no_servers() -> ConfigView {
    ConfigView { default: None, servers: Map::empty() }
}

/// One line of the list of servers; a star marks the default.
pub open spec fn server_line(c: ConfigView, name: Seq<char>) -> Seq<char> {
    (if c.default == Some(name) {
        "*"@
    } else {
        " "@
    }) + " "@ + name + "  "@ + c.servers[name].0
}

/// The list of servers.
pub open spec fn server_lines(c: ConfigView) -> Seq<Seq<char>> {
    if c.servers =~= Map::<Seq<char>, (Seq<char>, Seq<char>)>::empty() {
        seq!["no servers configured; run `yt write server auth URL TOKEN [name]`"@]
    } else {
        sorted::in_order(c.servers.dom()).map_values(|n: Seq<char>| server_line(c, n))
    }
}

// ---- laws ----

/// The names under which things are stored are different names.
proof fn lemma_names_differ()
    ensures
        "url"@ != "token"@,
        "default"@ != "servers"@,
{
    reveal_strlit("url");
    reveal_strlit("token");
    reveal_strlit("default");
    reveal_strlit("servers");
    assert("url"@.len() == 3 && "token"@.len() == 5);
    assert("default"@[0] == 'd' && "servers"@[0] == 's');
}

/// Reading a stored configuration gives it back.
pub proof fn law_stored_reads_back(c: ConfigView)
    ensures
        config_in(stored(c)) == c,
        wire::storable(stored(c), 100),
{
    lemma_names_differ();
    let v = stored(c);
    let m = c.servers.map_values(|s: (Seq<char>, Seq<char>)| stored_server(s));
    assert(v.member("servers"@) == JsonView::Object(m));
    assert forall|k: Seq<char>| #[trigger] c.servers.contains_key(k) implies credentials(m[k])
        == Some(c.servers[k]) by {
        let s = stored_server(c.servers[k]);
        assert(m[k] == s);
        assert(s.member("url"@) == JsonView::Text(c.servers[k].0));
        assert(s.member("token"@) == JsonView::Text(c.servers[k].1));
    }
    assert(complete_servers(m) =~= c.servers);
    let servers = JsonView::Object(m);
    assert forall|k: Seq<char>| #[trigger] m.contains_key(k) implies wire::storable(m[k], 98) by {
        wire::lemma_storable_object(m[k], 97);
    }
    wire::lemma_storable_object(servers, 98);
    wire::lemma_storable_object(v, 99);
    assert(config_in(v).default == c.default);
}

/// A configuration that was saved is the one that is loaded.
pub proof fn law_load_gives_back_what_save_wrote(c: ConfigView, file: Seq<char>, path: Seq<char>)
    requires
        wire::reads_as(file, stored(c)),
    ensures
        loaded(Some(file), path) == Ok::<ConfigView, Seq<char>>(c),
{
    law_stored_reads_back(c);
}

/// A configuration that names just a URL and a token is read as that of the one server
/// `default`, which is then the one to use.
pub proof fn law_single_server_is_the_default(v: JsonView, url: Seq<char>, token: Seq<char>)
    requires
        !(v.member("servers"@) is Object),
        v.member("url"@).text() == Some(url),
        v.member("token"@).text() == Some(token),
        v.member("default"@).text() is None,
    ensures
        config_in(v).servers == Map::<Seq<char>, (Seq<char>, Seq<char>)>::empty().insert(
            "default"@,
            (url, token),
        ),
        selected(config_in(v), None) == Some("default"@),
{
    let names = config_in(v).servers.dom();
    assert(names =~= Set::empty().insert("default"@));
    assert(names.len() == 1);
    assert(names.contains("default"@));
    assert(names.contains(names.choose()));
}

/// Adding a server leaves every other one as it was, never changes a default that is
/// set, and never changes which server is used where one was; the first server is used
/// from then on.
pub proof fn law_adding_keeps_the_rest(
    c: ConfigView,
    name: Seq<char>,
    url: Seq<char>,
    token: Seq<char>,
    other: Seq<char>,
)
    requires
        other != name,
    ensures
        ({
            let d = with_server(c, name, url, token);
            &&& d.servers[name] == (url, token)
            &&& d.servers.contains_key(other) == c.servers.contains_key(other)
            &&& c.servers.contains_key(other) ==> d.servers[other] == c.servers[other]
            &&& c.default is Some ==> d.default == c.default
            &&& selected(c, None) is Some ==> selected(d, None) == selected(c, None)
            &&& c == no_servers() ==> selected(d, None) == Some(name)
        }),
{
    if c.servers =~= Map::<Seq<char>, (Seq<char>, Seq<char>)>::empty() {
        assert(c.servers.dom() =~= Set::empty());
    }
}

// ---- operations ----

/// The URL and token in `v`, where it has both.
fn read_credentials(v: &Json) -> (r: Option<(String, String)>)
    ensures
        credentials(v@) == match r {
            Some(c) => Some((c.0@, c.1@)),
            None => None,
        },
{
    match (v.member("url").as_str(), v.member("token").as_str()) {
        (Some(u), Some(t)) => Some((u.to_owned(), t.to_owned())),
        _ => None,
    }
}

/// The servers among the members of a `servers` object.
fn read_servers(v: &Json, o: &Vec<(String, Json)>) -> (r: TextMap<(String, String)>)
    requires
        v == Json::Object(*o),
    ensures
        servers_view(r@) == complete_servers(json::object_view(o@)),
{
    let mut servers: TextMap<(String, String)> = TextMap::new();
    let mut i: usize = 0;
    let ghost all = json::object_view(o@);
    let ghost want = complete_servers(all);
    while i < o.len()
        invariant
            i <= o@.len(),
            v == Json::Object(*o),
            v@ == JsonView::Object(all),
            all == json::object_view(o@),
            want == complete_servers(all),
            forall|k: Seq<char>| #[trigger]
                servers@.contains_key(k) ==> want.contains_key(k) && want[k] == (
                    servers@[k].0@,
                    servers@[k].1@,
                ),
            forall|j: int|
                0 <= j < i && want.contains_key((#[trigger] o@[j]).0@) ==> servers@.contains_key(
                    o@[j].0@,
                ),
        decreases o@.len() - i,
    {
        let name = &o[i].0;
        let member = v.member(name.as_str());
        proof {
            json::lemma_member_listed(o@, i as int);
        }
        match read_credentials(member) {
            Some(c) => {
                servers.insert(name.clone(), c);
            },
            None => {},
        }
        i += 1;
    }
    proof {
        assert forall|k: Seq<char>| want.contains_key(k) implies #[trigger] servers@.contains_key(
            k,
        ) by {
            json::lemma_member_has_place(o@, k);
        }
        assert(servers_view(servers@) =~= want);
    }
    servers
}

impl Config {
    /// The configuration without servers.
    pub fn new() -> (r: Config)
        ensures
            r@ == (ConfigView { default: None, servers: Map::empty() }),
    {
        let r = Config { default: None, servers: TextMap::new() };
        assert(servers_view(r.servers@) =~= Map::empty());
        r
    }

    /// The configuration that a stored value holds.
    pub fn from_value(cfg: &Json) -> (r: Config)
        ensures
            r@ == config_in(cfg@),
    {
        let stored_servers = cfg.member("servers");
        let servers = match stored_servers {
            Json::Object(o) => read_servers(stored_servers, o),
            _ => {
                let mut servers: TextMap<(String, String)> = TextMap::new();
                match read_credentials(cfg) {
                    Some(c) => {
                        servers.insert("default".to_owned(), c);
                        assert(servers_view(servers@) =~= Map::empty().insert(
                            "default"@,
                            (c.0@, c.1@),
                        ));
                    },
                    None => {
                        assert(servers_view(servers@) =~= Map::empty());
                    },
                }
                servers
            },
        };
        let default = match cfg.member("default").as_str() {
            Some(d) => Some(d.to_owned()),
            None => None,
        };
        Config { default, servers }
    }

    /// The configuration in a file with the text `file`; without a file the empty
    /// one. The failure names the file by `path`.
    pub fn load(file: Option<&str>, path: &str) -> (r: Result<Config, Failure>)
        ensures
            loaded(text::opt_str(file), path@) == match r {
                Ok(c) => Ok(c@),
                Err(e) => Err(e@),
            },
    {
        match file {
            None => Ok(Config::new()),
            Some(t) => match wire::parse(t) {
                Ok(v) => Ok(Config::from_value(&v)),
                Err(e) => {
                    let context = text::cat("invalid JSON in ", path);
                    Err(Failure::new(e.as_str()).within(context.as_str()))
                },
            },
        }
    }

    /// The name of the only server, where there is exactly one.
    fn sole_server(&self) -> (r: Option<String>)
        ensures
            text::opt_text(r) == sole(self@.servers.dom()),
    {
        let ghost names = self@.servers.dom();
        assert(names =~= self.servers@.dom());
        if self.servers.len() == 1 {
            let n = self.servers.key_at(0).clone();
            proof {
                let one = sorted::in_order(names);
                let c = names.choose();
                assert(names.contains(n@));
                assert(names.contains(c));
                assert(one.contains(c));
            }
            Some(n)
        } else {
            None
        }
    }

    /// The name of the server to use: the one asked for, else the default, else
    /// the only one there is.
    pub fn select_server(&self, server: Option<&str>) -> (r: Result<String, Failure>)
        ensures
            match r {
                Ok(n) => selected(self@, text::opt_str(server)) == Some(n@),
                Err(e) => selected(self@, text::opt_str(server)) is None && e@
                    == "no server selected: set a default with `yt default NAME`, pass --server, or set YOUTRACK_URL"@,
            },
    {
        match server {
            Some(s) => Ok(s.to_owned()),
            None => match &self.default {
                Some(d) => Ok(d.clone()),
                None => match self.sole_server() {
                    Some(n) => Ok(n),
                    None => Err(
                        Failure::new(
                            "no server selected: set a default with `yt default NAME`, pass --server, or set YOUTRACK_URL",
                        ),
                    ),
                },
            },
        }
    }

    /// The value that stores the configuration.
    pub fn to_value(&self) -> (r: Json)
        ensures
            r@ == stored(self@),
    {
        let mut servers = Json::object();
        let mut i: usize = 0;
        let ghost names = self.servers@.dom();
        let ghost order = sorted::in_order(names);
        let n = self.servers.len();
        let ghost want = self@.servers.map_values(|v: (Seq<char>, Seq<char>)| stored_server(v));
        assert(sorted::lists(order, names));
        while i < n
            invariant
                i <= n,
                n == order.len(),
                names == self.servers@.dom(),
                order == sorted::in_order(names),
                want == self@.servers.map_values(|v: (Seq<char>, Seq<char>)| stored_server(v)),
                servers@ is Object,
                forall|k: Seq<char>| #[trigger]
                    servers@->Object_0.contains_key(k) ==> want.contains_key(k)
                        && servers@->Object_0[k] == want[k],
                forall|j: int| 0 <= j < i ==> servers@->Object_0.contains_key(#[trigger] order[j]),
            decreases n - i,
        {
            let name = self.servers.key_at(i);
            let c = self.servers.value_at(i);
            let server = Json::object().with("url", Json::text(c.0.as_str())).with(
                "token",
                Json::text(c.1.as_str()),
            );
            assert(server@ == stored_server((c.0@, c.1@)));
            servers = servers.with(name.as_str(), server);
            i += 1;
        }
        proof {
            assert forall|k: Seq<char>| want.contains_key(
                k,
            ) implies #[trigger] servers@->Object_0.contains_key(k) by {
                assert(names.contains(k));
                assert(order.contains(k));
            }
            assert(servers@->Object_0 =~= want);
        }
        let default = match &self.default {
            Some(d) => Json::text(d.as_str()),
            None => Json::Null,
        };
        Json::object().with("default", default).with("servers", servers)
    }

    /// The text of the file that stores the configuration.
    pub fn save(&self) -> (r: Result<String, Failure>)
        ensures
            r is Ok,
            r->Ok_0@ == wire::pretty(stored(self@)),
            wire::reads_as(r->Ok_0@, stored(self@)),
    {
        let v = self.to_value();
        proof {
            law_stored_reads_back(self@);
            wire::lemma_storable_is_writable(stored(self@), 100);
        }
        match wire::to_pretty_text(&v) {
            Ok(t) => Ok(t),
            Err(e) => Err(Failure { message: e }),
        }
    }

    /// Saves credentials under `name`, or under `default` without a name, in the
    /// file `path`. Returns the warning that is due where they replace those of the
    /// server `default`, and the line that reports them saved.
    pub fn auth(&mut self, url: &str, token: &str, name: Option<&str>, path: &str) -> (r: (
        Option<String>,
        String,
    ))
        ensures
            ({
                let n = text::or_text(text::opt_str(name), "default"@);
                &&& final(self)@ == with_server(old(self)@, n, url@, token@)
                &&& text::opt_text(r.0) == if n == "default"@ && old(self)@.servers.contains_key(
                    "default"@,
                ) {
                    Some(
                        "warning: overwriting existing 'default' server (pass a name to keep both)"@,
                    )
                } else {
                    None
                }
                &&& r.1@ == "saved server '"@ + n + "' to "@ + path@
            }),
    {
        let n = match name {
            Some(n) => n,
            None => "default",
        };
        let warning = if text::same(n, "default") && self.servers.contains_key("default") {
            Some(
                "warning: overwriting existing 'default' server (pass a name to keep both)".to_owned(),
            )
        } else {
            None
        };
        if self.default.is_none() {
            let first = self.servers.is_empty();
            assert(first == (self@.servers =~= Map::empty())) by {
                assert(self@.servers.dom() =~= self.servers@.dom());
                if self@.servers =~= Map::empty() {
                    assert(self.servers@ =~= Map::empty());
                }
            }
            self.default = if first {
                Some(n.to_owned())
            } else {
                self.sole_server()
            };
        }
        self.servers.insert(n.to_owned(), (url.to_owned(), token.to_owned()));
        let mut line = text::cat3("saved server '", n, "' to ");
        line.append(path);
        assert(self@ =~= with_server(old(self)@, n@, url@, token@));
        (warning, line)
    }

    /// Makes `name` the default server. Returns the line that reports it; fails,
    /// changing nothing, where there is no such server.
    pub fn set_default(&mut self, name: &str) -> (r: Result<String, Failure>)
        ensures
            match r {
                Ok(line) => old(self)@.servers.contains_key(name@) && final(self)@ == (ConfigView {
                    default: Some(name@),
                    servers: old(self)@.servers,
                }) && line@ == "default server is now '"@ + name@ + "'"@,
                Err(e) => !old(self)@.servers.contains_key(name@) && *final(self) == *old(self)
                    && e@ == "no server named '"@ + name@
                    + "': run `yt read server ls` to list"@,
            },
    {
        if !self.servers.contains_key(name) {
            return Err(
                Failure::about(
                    "no server named '",
                    name,
                    "': run `yt read server ls` to list",
                ),
            );
        }
        self.default = Some(name.to_owned());
        Ok(text::cat3("default server is now '", name, "'"))
    }

    /// The list of servers, one line each in the order of their names.
    pub fn listing(&self) -> (r: Vec<String>)
        ensures
            text::texts(r@) == server_lines(self@),
    {
        let mut r: Vec<String> = Vec::new();
        let ghost names = self@.servers.dom();
        assert(names =~= self.servers@.dom());
        if self.servers.is_empty() {
            assert(self@.servers =~= Map::empty());
            r.push("no servers configured; run `yt write server auth URL TOKEN [name]`".to_owned());
            assert(text::texts(r@) =~= server_lines(self@));
            return r;
        }
        let n = self.servers.len();
        let ghost order = sorted::in_order(names);
        assert(self@.servers != Map::<Seq<char>, (Seq<char>, Seq<char>)>::empty()) by {
            if self@.servers == Map::<Seq<char>, (Seq<char>, Seq<char>)>::empty() {
                assert(self.servers@ =~= Map::empty());
            }
        }
        let mut i: usize = 0;
        while i < n
            invariant
                i <= n,
                n == order.len(),
                names == self.servers@.dom(),
                order == sorted::in_order(names),
                r@.len() == i,
                forall|j: int| 0 <= j < i ==> (#[trigger] r@[j])@ == server_line(self@, order[j]),
            decreases n - i,
        {
            let name = self.servers.key_at(i);
            let c = self.servers.value_at(i);
            let marked = match &self.default {
                Some(d) => text::same(d.as_str(), name.as_str()),
                None => false,
            };
            let mut line = text::cat3(
                if marked {
                    "*"
                } else {
                    " "
                },
                " ",
                name.as_str(),
            );
            line.append("  ");
            line.append(c.0.as_str());
            r.push(line);
            i += 1;
        }
        assert(text::texts(r@) =~= server_lines(self@));
        r
    }
}

} // verus!
