use yt::client::Client;
use yt::command::{Cmd, ReadCmd, ReadServerCmd, ReadUserCmd, WriteCmd, WriteServerCmd};
use yt::config::Config;
use yt::line::{Line, Step};
use yt::local::{on_config, on_token, run_local, LocalNext, Task};

fn auth(token: &str, name: Option<&str>) -> Cmd {
    Cmd::Write(WriteCmd::Server(WriteServerCmd::Auth {
        url: "https://a".to_string(),
        token: token.to_string(),
        name: name.map(String::from),
    }))
}

/// The first step of a local command.
fn first(cmd: Cmd) -> Step<LocalNext> {
    match run_local(cmd) {
        Ok(step) => step,
        Err(_) => panic!("not local"),
    }
}

fn task(n: LocalNext) -> Task {
    match n {
        LocalNext::LoadConfig(t) => t,
        _ => panic!("no configuration wanted"),
    }
}

#[test]
fn local_commands_are_told_apart() {
    assert!(Cmd::Read(ReadCmd::QueryHelp).local());
    assert!(Cmd::Read(ReadCmd::Server(ReadServerCmd::Ls)).local());
    assert!(Cmd::Write(WriteCmd::Update { force: true }).local());
    assert!(auth("t", None).local());
    assert!(!Cmd::Read(ReadCmd::User(ReadUserCmd::Me)).local());
    assert!(matches!(
        run_local(Cmd::Read(ReadCmd::User(ReadUserCmd::Me))),
        Err(Cmd::Read(ReadCmd::User(ReadUserCmd::Me)))
    ));
}

#[test]
fn help_is_printed() {
    let step = first(Cmd::Read(ReadCmd::QueryHelp));
    assert!(matches!(step.next, LocalNext::Done));
    match &step.lines[..] {
        [Line::Plain(t)] => {
            assert!(t.starts_with("YouTrack query syntax:\n  project: DEMO "));
            assert!(t.ends_with("\n  yt cmd \"State {In Progress} assignee me\" DEMO-12"));
            assert_eq!(t.lines().count(), 12);
        }
        _ => panic!("one text"),
    }
}

#[test]
fn an_update_is_handed_on() {
    assert!(matches!(
        first(Cmd::Write(WriteCmd::Update { force: true })).next,
        LocalNext::Update(true)
    ));
}

#[test]
fn servers_are_listed_from_the_file() {
    let t = || task(first(Cmd::Read(ReadCmd::Server(ReadServerCmd::Ls))).next);
    let file = "{\"default\":\"b\",\"servers\":{\"b\":{\"url\":\"u\",\"token\":\"t\"},\"a\":{\"url\":\"v\",\"token\":\"t\"}}}";
    let step = on_config(t(), Some(file), "/p");
    assert_eq!(
        step.lines,
        vec![Line::Plain("  a  v".to_string()), Line::Plain("* b  u".to_string())]
    );
    assert!(matches!(step.next, LocalNext::Done));
    let step = on_config(t(), None, "/p");
    assert_eq!(step.lines.len(), 1);
    assert!(matches!(on_config(t(), Some("["), "/p").next, LocalNext::Fail(_)));
}

#[test]
fn credentials_are_saved_and_used() {
    let t = task(first(auth("tok", Some("a"))).next);
    let step = on_config(t, None, "/p");
    assert!(step.lines.is_empty());
    match step.next {
        LocalNext::SaveConfig(file, mode, line) => {
            assert_eq!(mode, 0o600);
            assert_eq!(line, "saved server 'a' to /p");
            let back = Config::load(Some(&file), "/p");
            let c = Client::resolve(None, None, None, back).unwrap();
            assert_eq!(c.base, "https://a/api");
            assert_eq!(c.token, "tok");
        }
        _ => panic!("not saved"),
    }
}

#[test]
fn a_second_server_leaves_the_first_the_default() {
    let t = task(first(auth("tok", Some("acme"))).next);
    let step = on_config(t, Some("{\"url\":\"https://old\",\"token\":\"o\"}"), "/p");
    match step.next {
        LocalNext::SaveConfig(file, _, line) => {
            assert_eq!(line, "saved server 'acme' to /p");
            let back = Config::load(Some(&file), "/p").unwrap();
            assert_eq!(back.default.as_deref(), Some("default"));
            assert_eq!(back.servers.keys(), vec!["acme", "default"]);
        }
        _ => panic!("not saved"),
    }
}

#[test]
fn a_token_can_come_from_the_input() {
    match first(auth("-", None)).next {
        LocalNext::ReadToken(url, name) => {
            let file = "{\"url\":\"https://old\",\"token\":\"x\"}";
            let step = on_config(task(on_token(url, name, "perm-1\n").next), Some(file), "/p");
            assert_eq!(
                step.lines,
                vec![Line::Note(
                    "warning: overwriting existing 'default' server (pass a name to keep both)"
                        .to_string()
                )]
            );
            match step.next {
                LocalNext::SaveConfig(file, _, line) => {
                    assert_eq!(line, "saved server 'default' to /p");
                    let c = Config::load(Some(&file), "/p").unwrap();
                    assert_eq!(
                        c.servers.get("default"),
                        Some(&("https://a".to_string(), "perm-1".to_string()))
                    );
                }
                _ => panic!("not saved"),
            }
        }
        _ => panic!("no input wanted"),
    }
}

#[test]
fn the_default_is_set_among_the_servers() {
    let set = |name: &str| {
        task(
            first(Cmd::Write(WriteCmd::Server(WriteServerCmd::Default {
                name: name.to_string(),
            })))
            .next,
        )
    };
    let file = "{\"servers\":{\"b\":{\"url\":\"u\",\"token\":\"t\"}}}";
    match on_config(set("b"), Some(file), "/p").next {
        LocalNext::SaveConfig(file, _, line) => {
            assert_eq!(line, "default server is now 'b'");
            assert_eq!(
                Config::load(Some(&file), "/p").unwrap().default.as_deref(),
                Some("b")
            );
        }
        _ => panic!("not saved"),
    }
    match on_config(set("c"), Some(file), "/p").next {
        LocalNext::Fail(e) => assert_eq!(
            e.message,
            "no server named 'c': run `yt read server ls` to list"
        ),
        _ => panic!("no failure"),
    }
}
