//! Where files are kept, and what time it is.

use vstd::prelude::*;
use crate::text;

verus! {

/// The path of `name` in the directory `dir`.
pub open spec fn under(dir: Seq<char>, name: Seq<char>) -> Seq<char> {
    if dir.len() == 0 || dir.last() == '/' {
        dir + name
    } else {
        dir + "/"@ + name
    }
}

/// The directory of configurations, given the one that is set for them and the home
/// directory.
pub open spec fn config_dir(xdg: Option<Seq<char>>, home: Option<Seq<char>>) -> Seq<char> {
    match (xdg, home) {
        (Some(x), _) => x,
        (None, Some(h)) => under(h, ".config"@),
        (None, None) => Seq::empty(),
    }
}

/// The file that holds the configuration.
pub open spec fn config_file(xdg: Option<Seq<char>>, home: Option<Seq<char>>) -> Seq<char> {
    under(config_dir(xdg, home), "yt/config.json"@)
}

/// The file that holds what the last look for a newer release found.
pub open spec fn cache_file(xdg: Option<Seq<char>>, home: Option<Seq<char>>) -> Seq<char> {
    under(config_dir(xdg, home), "yt/update-check.json"@)
}

/// The files lie in the directory that is set for configurations, else in the one below
/// the home directory, one beside the other.
pub proof fn law_files_lie_in_the_configuration(
    dir: Seq<char>,
    home: Option<Seq<char>>,
    h: Seq<char>,
)
    requires
        dir.len() > 0 && dir.last() != '/',
        h.len() > 0 && h.last() != '/',
    ensures
        config_file(Some(dir), home) == dir + "/"@ + "yt/config.json"@,
        cache_file(Some(dir), home) == dir + "/"@ + "yt/update-check.json"@,
        config_file(None, Some(h)) == h + "/"@ + ".config"@ + "/"@ + "yt/config.json"@,
        cache_file(None, Some(h)) == h + "/"@ + ".config"@ + "/"@ + "yt/update-check.json"@,
        config_file(None, None) == "yt/config.json"@,
        cache_file(None, None) == "yt/update-check.json"@,
        config_file(Some(dir + "/"@), home) == config_file(Some(dir), home),
        cache_file(Some(dir + "/"@), home) == cache_file(Some(dir), home),
{
    reveal_strlit(".config");
    reveal_strlit("/");
    let d = h + "/"@ + ".config"@;
    assert(d.last() == 'g');
    assert(Seq::<char>::empty() + "yt/config.json"@ =~= "yt/config.json"@);
    assert(Seq::<char>::empty() + "yt/update-check.json"@ =~= "yt/update-check.json"@);
    assert((dir + "/"@).last() == '/');
}

/// The path of `name` in the directory `dir`.
fn join(dir: &str, name: &str) -> (r: String)
    ensures
        r@ == under(dir@, name@),
{
    let n = dir.unicode_len();
    if n == 0 || dir.get_char(n - 1) == '/' {
        text::cat(dir, name)
    } else {
        text::cat3(dir, "/", name)
    }
}

/// The directory of configurations.
fn dir_of(xdg: Option<&str>, home: Option<&str>) -> (r: String)
    ensures
        r@ == config_dir(text::opt_str(xdg), text::opt_str(home)),
{
    match (xdg, home) {
        (Some(x), _) => x.to_owned(),
        (None, Some(h)) => join(h, ".config"),
        (None, None) => {
            let r = text::text_of(&[]);
            assert(r@ =~= Seq::empty());
            r
        },
    }
}

/// The file that holds the configuration, given the values of `XDG_CONFIG_HOME` and
/// of `HOME`.
pub fn config_path(xdg: Option<&str>, home: Option<&str>) -> (r: String)
    ensures
        r@ == config_file(text::opt_str(xdg), text::opt_str(home)),
{
    join(dir_of(xdg, home).as_str(), "yt/config.json")
}

/// The file that holds what the last look for a newer release found, given the values
/// of `XDG_CONFIG_HOME` and of `HOME`.
pub fn update_cache_path(xdg: Option<&str>, home: Option<&str>) -> (r: String)
    ensures
        r@ == cache_file(text::opt_str(xdg), text::opt_str(home)),
{
    join(dir_of(xdg, home).as_str(), "yt/update-check.json")
}

/// The time in seconds, given how many have passed since 1970 where the clock shows a
/// time behind that.
pub fn now_secs(since_epoch: Option<u64>) -> (r: u64)
    ensures
        r == match since_epoch {
            Some(n) => n,
            None => 0,
        },
{
    match since_epoch {
        Some(n) => n,
        None => 0,
    }
}

} // verus!
