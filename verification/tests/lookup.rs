use yt::client::Reply;
use yt::json::Json;
use yt::lookup::{
    fetch_pr_changes, has_merged_pr, internal_id, issue_ref, link_group, link_phrase,
    pr_changes_from_activities, resolve_link_group, resolve_project, resolve_tag,
};
use yt::wire;

fn value(text: &str) -> Json {
    wire::parse(text).unwrap()
}

fn object(members: Vec<(&str, Json)>) -> Json {
    let mut o = Json::object();
    for (k, v) in members {
        o = o.with(k, v);
    }
    o
}

#[test]
fn projects_are_found_by_short_name_or_name() {
    let projects = value(
        "[{\"id\":\"0-1\",\"shortName\":\"AB\",\"name\":\"Alpha\"},
          {\"id\":\"0-2\",\"shortName\":\"CD\",\"name\":\"ab\"},
          {\"name\":\"Loose\"}]",
    );
    assert_eq!(resolve_project(&projects, "ab").unwrap(), ("0-1".to_string(), "AB".to_string()));
    assert_eq!(resolve_project(&projects, "ALPHA").unwrap(), ("0-1".to_string(), "AB".to_string()));
    assert_eq!(resolve_project(&projects, "cd").unwrap(), ("0-2".to_string(), "CD".to_string()));
    assert_eq!(resolve_project(&projects, "loose").unwrap(), ("".to_string(), "loose".to_string()));
    let e = resolve_project(&projects, "zz").err().unwrap();
    assert_eq!(e.message, "project not found: zz");
    assert!(resolve_project(&Json::Null, "ab").is_err());
}

#[test]
fn tags_are_found_by_name() {
    let tags = value("[{\"id\":\"5-1\",\"name\":\"Blocked\"},{\"name\":\"noid\"}]");
    assert_eq!(resolve_tag(&tags, "blocked").unwrap(), "5-1");
    assert_eq!(resolve_tag(&tags, "noid").err().unwrap().message, "tag not found: noid");
    assert_eq!(resolve_tag(&tags, "x").err().unwrap().message, "tag not found: x");
}

#[test]
fn internal_ids_are_read() {
    assert_eq!(internal_id(&value("{\"id\":\"2-7\"}"), "DEMO-7").unwrap(), "2-7");
    assert_eq!(
        internal_id(&value("{}"), "DEMO-7").err().unwrap().message,
        "no such issue: DEMO-7"
    );
}

#[test]
fn issue_ref_distinguishes_internal_vs_readable() {
    assert_eq!(issue_ref("2-123"), object(vec![("id", Json::text("2-123"))]));
    assert_eq!(issue_ref("DEMO-1"), object(vec![("idReadable", Json::text("DEMO-1"))]));
}

#[test]
fn issue_ref_needs_digits_on_both_sides() {
    for id in ["2-", "-3", "-", "", "23", "2-3-4", "2-3a", "\u{0663}-1"] {
        assert_eq!(issue_ref(id), object(vec![("idReadable", Json::text(id))]));
    }
    assert_eq!(issue_ref("0-0"), object(vec![("id", Json::text("0-0"))]));
}

// ---- links ----

#[test]
fn link_phrase_picks_direction() {
    let lt = || {
        object(vec![
            ("sourceToTarget", Json::text("is required for")),
            ("targetToSource", Json::text("depends on")),
        ])
    };
    let outward = object(vec![("direction", Json::text("OUTWARD")), ("linkType", lt())]);
    let inward = object(vec![("direction", Json::text("INWARD")), ("linkType", lt())]);
    let both = object(vec![
        ("direction", Json::text("BOTH")),
        (
            "linkType",
            object(vec![
                ("sourceToTarget", Json::text("relates to")),
                ("targetToSource", Json::text("")),
            ]),
        ),
    ]);
    assert_eq!(link_phrase(&outward), "is required for");
    assert_eq!(link_phrase(&inward), "depends on");
    assert_eq!(link_phrase(&both), "relates to");
}

const GROUPS: &str = "[{\"id\":\"g1\",\"direction\":\"OUTWARD\",\"linkType\":{\"sourceToTarget\":\"relates to\"}},
    {\"id\":\"g2\",\"direction\":\"INWARD\",\"linkType\":{\"sourceToTarget\":\"x\",\"targetToSource\":\"depends on\"}},
    {\"id\":\"g3\",\"linkType\":{\"sourceToTarget\":\"depends on\"}},
    {\"id\":\"g4\"}]";

#[test]
fn link_groups_are_found_by_phrase() {
    let links = value(GROUPS);
    assert_eq!(resolve_link_group(&links, "Relates To").unwrap(), "g1");
    assert_eq!(resolve_link_group(&links, "depends on").unwrap(), "g2");
    assert_eq!(resolve_link_group(&links, "").unwrap(), "g4");
}

#[test]
fn an_unknown_phrase_lists_those_accepted() {
    let links = value(GROUPS);
    assert_eq!(
        resolve_link_group(&links, "say \"hi\"\n").err().unwrap().message,
        "unknown link phrase \"say \\\"hi\\\"\\n\"; this server accepts: depends on, relates to"
    );
    assert_eq!(
        link_group(&Json::Null, "x", "<x>").err().unwrap().message,
        "unknown link phrase <x>; this server accepts: "
    );
}

// ---- pull requests ----

fn change(state: &str) -> Json {
    object(vec![
        ("$type", Json::text("PullRequestChange")),
        ("state", object(vec![("id", Json::text(state))])),
    ])
}

fn activity(added: Vec<Json>) -> Json {
    object(vec![
        ("$type", Json::text("PullRequestChangeActivityItem")),
        ("added", Json::Array(added)),
    ])
}

#[test]
fn pr_changes_from_activities_reads_state_id() {
    let acts = Json::Array(vec![
        activity(vec![change("OPEN")]),
        activity(vec![change("MERGED").with("url", Json::text("https://gh/pr/1"))]),
    ]);
    let changes = pr_changes_from_activities(&acts);
    assert_eq!(changes.len(), 2);
    assert_eq!(changes[0], ("OPEN".into(), None));
    assert_eq!(changes[1], ("MERGED".into(), Some("https://gh/pr/1".into())));
}

#[test]
fn pr_changes_from_activities_skips_stateless_and_non_array() {
    let acts = Json::Array(vec![object(vec![(
        "added",
        Json::Array(vec![object(vec![("$type", Json::text("PullRequestChange"))])]),
    )])]);
    assert!(pr_changes_from_activities(&acts).is_empty());
    assert!(pr_changes_from_activities(&Json::Array(vec![])).is_empty());
    assert!(pr_changes_from_activities(&Json::Null).is_empty());
}

#[test]
fn has_merged_pr_matches_merged_case_insensitively() {
    let merged = vec![("merged".to_string(), None)];
    let open = vec![("OPEN".to_string(), None)];
    let declined = vec![("DECLINED".to_string(), None)];
    assert!(has_merged_pr(&merged));
    assert!(!has_merged_pr(&open));
    assert!(!has_merged_pr(&declined));
    assert!(!has_merged_pr(&[]));
    assert!(has_merged_pr(&[open[0].clone(), ("MERGED".to_string(), None)]));
}

#[test]
fn pr_changes_are_fetched_from_a_reply() {
    let told = fetch_pr_changes(Reply::Answer(
        "[{\"added\":[{\"state\":{\"id\":\"MERGED\"}},{\"state\":{\"id\":\"OPEN\"},\"url\":\"u\"}]}]".to_string(),
    ))
    .unwrap();
    assert_eq!(
        told,
        vec![("MERGED".to_string(), None), ("OPEN".to_string(), Some("u".to_string()))]
    );
    let e = fetch_pr_changes(Reply::Refusal(404, "gone".to_string())).err().unwrap();
    assert_eq!(e.message, "HTTP 404: gone");
}
