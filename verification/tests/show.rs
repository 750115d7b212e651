use yt::client::Client;
use yt::date::{civil, date, Civil};
use yt::json::Json;
use yt::line::Line;
use yt::report::{
    groups_with_issues, kept_rows, show_attachments, show_changes, show_comments, show_fields,
    show_issue, show_link_groups, show_me, show_projects, show_row, show_rows, show_seen_fields,
    show_tags, show_users,
};
use yt::style::{id_style, link_style, paint, prio_style, state_style};
use yt::wire;

fn value(text: &str) -> Json {
    wire::parse(text).unwrap()
}

fn plain(lines: &[&str]) -> Vec<Line> {
    lines.iter().map(|t| Line::Plain(t.to_string())).collect()
}

fn styled(t: &str) -> Line {
    Line::Styled(t.to_string())
}

// ---- dates ----

#[test]
fn date_formats_epoch_millis() {
    assert_eq!(date(&Json::Integer(1_782_345_600_000)), "2026-06-25");
    assert_eq!(date(&Json::Integer(0)), "1970-01-01");
}

#[test]
fn date_non_number_is_dash() {
    assert_eq!(date(&Json::Null), "-");
    assert_eq!(date(&Json::text("nope")), "-");
}

#[test]
fn dates_around_leap_days() {
    let day = 86_400_000i128;
    assert_eq!(date(&Json::Integer(951_782_400_000)), "2000-02-29");
    assert_eq!(date(&Json::Integer(951_782_400_000 + day)), "2000-03-01");
    assert_eq!(date(&Json::Integer(4_107_456_000_000)), "2100-02-28");
    assert_eq!(date(&Json::Integer(4_107_456_000_000 + day)), "2100-03-01");
    assert_eq!(date(&Json::Integer(day - 1)), "1970-01-01");
    assert_eq!(date(&Json::Integer(-day)), "1969-12-31");
    assert_eq!(date(&Json::Integer(-1)), "1969-12-31");
    assert_eq!(date(&Json::Integer(-day - 1)), "1969-12-30");
    assert_eq!(date(&Json::Integer(i64::MIN as i128)), "-292275055-05-16");
    assert_eq!(date(&value("1.5")), "-");
    assert_eq!(date(&Json::Integer(9_223_372_036_854_775_808)), "-");
    let c = civil(-719_468);
    assert_eq!((c.year, c.month, c.day), (0, 3, 1));
}

#[test]
fn days_follow_one_another() {
    let mut before: Option<Civil> = None;
    for n in 10_000..13_000 {
        let c = civil(n);
        if let Some(b) = before {
            let next_day = c.year == b.year && c.month == b.month && c.day == b.day + 1;
            let next_month = c.year == b.year && c.month == b.month + 1 && c.day == 1;
            let next_year = c.year == b.year + 1 && c.month == 1 && c.day == 1 && b.month == 12;
            assert!(next_day || next_month || next_year);
        }
        before = Some(c);
    }
}

// ---- styles ----

#[test]
fn styles_wrap_a_text() {
    assert_eq!(paint(id_style(), "X-1"), "\u{1b}[1m\u{1b}[36mX-1\u{1b}[0m");
    assert_eq!(paint(link_style(), "u"), "\u{1b}[4m\u{1b}[34mu\u{1b}[0m");
    assert_eq!(paint(state_style("Fixed"), "Fixed"), "\u{1b}[32mFixed\u{1b}[0m");
    assert_eq!(paint(state_style("In PROGRESS"), "p"), "\u{1b}[33mp\u{1b}[0m");
    assert_eq!(paint(state_style("?"), "?"), "?");
    assert_eq!(paint(prio_style("Show-stopper"), "s"), "\u{1b}[1m\u{1b}[31ms\u{1b}[0m");
    assert_eq!(paint(prio_style("Major"), "m"), "\u{1b}[31mm\u{1b}[0m");
    assert_eq!(paint(prio_style("minor"), "m"), "\u{1b}[2mm\u{1b}[0m");
    assert_eq!(paint(prio_style("Normal"), "n"), "n");
}

#[test]
fn a_resolved_state_comes_before_an_active_one() {
    assert_eq!(paint(state_style("reopened, not done"), "x"), "\u{1b}[32mx\u{1b}[0m");
    for s in ["Open", "new", "Backlog", "To do", "waiting", "Reopened"] {
        assert_eq!(paint(state_style(s), "x"), "\u{1b}[33mx\u{1b}[0m");
    }
}

// ---- lists of issues ----

const ROW: &str = "{\"idReadable\":\"D-1\",\"summary\":\"Sum\",\"description\":\"a\\nb \\n\",
    \"customFields\":[{\"name\":\"state\",\"value\":{\"name\":\"Open\"}}]}";

#[test]
fn a_row_has_id_state_priority_and_summary() {
    let head = styled("\u{1b}[1m\u{1b}[36mD-1\u{1b}[0m  \u{1b}[33mOpen\u{1b}[0m  -  Sum");
    assert_eq!(show_row(&value(ROW), false), vec![head]);
    let full = show_row(&value(ROW), true);
    assert_eq!(full.len(), 4);
    assert_eq!(full[1], Line::Plain("  a".to_string()));
    assert_eq!(full[2], Line::Plain("  b".to_string()));
    assert_eq!(full[3], Line::Plain("".to_string()));
    assert_eq!(
        show_row(&value("{\"description\":\"\"}"), true),
        vec![styled("\u{1b}[1m\u{1b}[36m?\u{1b}[0m  -  -  ")]
    );
    assert_eq!(show_row(&value("{\"description\":\"  \"}"), true).len(), 2);
}

#[test]
fn a_list_tells_where_the_limit_is_reached() {
    let rows = vec![value(ROW), value(ROW)];
    assert_eq!(show_rows(&rows, 2, 3, false).len(), 2);
    let all = show_rows(&rows, 2, 2, false);
    assert_eq!(all[2], Line::Plain("# limit 2 reached; refine query or raise -n".to_string()));
    assert_eq!(show_rows(&rows, 5, 5, false).len(), 3);
    assert_eq!(show_rows(&[], 2, 2, false), plain(&["no matches"]));
}

#[test]
fn kept_rows_are_those_with_a_true_verdict() {
    let rows = vec![Json::Integer(1), Json::Integer(2), Json::Integer(3)];
    assert_eq!(
        kept_rows(&rows, &vec![true, false, true]),
        vec![Json::Integer(1), Json::Integer(3)]
    );
    assert_eq!(kept_rows(&rows, &vec![]), vec![]);
}

// ---- one issue ----

#[test]
fn an_issue_is_shown_with_what_is_told_about_it() {
    let c = Client { base: "https://h/api".to_string(), token: "t".to_string() };
    let i = value(
        "{\"idReadable\":\"D-1\",\"summary\":\"Sum\",\"description\":\"text \\n\",\"created\":0,
          \"updated\":1782345600000,\"reporter\":{\"login\":\"joe\"},
          \"customFields\":[{\"name\":\"State\",\"value\":{\"name\":\"Open\"}},{\"name\":\"Empty\",\"value\":null},{\"value\":1}]}",
    );
    assert_eq!(
        show_issue(&c, &i, "d-1"),
        vec![
            styled("\u{1b}[1m\u{1b}[36mD-1\u{1b}[0m  Sum"),
            Line::Plain("State:Open  created:1970-01-01  updated:2026-06-25  by:joe".to_string()),
            styled("\u{1b}[4m\u{1b}[34mhttps://h/issue/D-1\u{1b}[0m"),
            Line::Plain("\ntext".to_string()),
        ]
    );
    let bare = show_issue(&c, &Json::object(), "x");
    assert_eq!(bare[1], Line::Plain("created:-  updated:-".to_string()));
    assert_eq!(bare[2], styled("\u{1b}[4m\u{1b}[34mhttps://h/issue/x\u{1b}[0m"));
    assert_eq!(bare.len(), 3);
}

const LINKS: &str = "[{\"linkType\":{\"sourceToTarget\":\"relates to\"},\"issues\":[{\"idReadable\":\"D-2\",\"summary\":\"two\"},{}]},
    {\"linkType\":{\"sourceToTarget\":\"none\"},\"issues\":[]},{\"id\":\"x\"}]";

#[test]
fn only_groups_with_issues_are_shown() {
    let groups = groups_with_issues(&value(LINKS));
    assert_eq!(groups.len(), 1);
    assert_eq!(
        show_link_groups(&groups),
        vec![
            styled("relates to  \u{1b}[1m\u{1b}[36mD-2\u{1b}[0m  two"),
            styled("relates to  \u{1b}[1m\u{1b}[36m?\u{1b}[0m  "),
        ]
    );
    assert!(groups_with_issues(&Json::Null).is_empty());
}

#[test]
fn pull_requests_are_shown_under_a_heading() {
    assert_eq!(show_changes(&[]), plain(&["\n-- pull requests --", "no pull requests"]));
    assert_eq!(
        show_changes(&[("MERGED".to_string(), Some("u".to_string())), ("OPEN".to_string(), None)]),
        vec![
            Line::Plain("\n-- pull requests --".to_string()),
            styled("MERGED  u"),
            styled("\u{1b}[33mOPEN\u{1b}[0m  "),
        ]
    );
}

#[test]
fn comments_are_shown_one_by_one() {
    let comments = value(
        "[{\"created\":0,\"author\":{\"login\":\"joe\"},\"text\":\"hi \\n\"},{\"created\":null}]",
    );
    assert_eq!(show_comments(&comments), plain(&["[1970-01-01 joe] hi", "[- ?] "]));
    assert_eq!(show_comments(&value("[]")), plain(&["no comments"]));
    assert_eq!(show_comments(&Json::Null), plain(&["no comments"]));
}

// ---- lists of other things ----

#[test]
fn tags_projects_and_users_are_listed() {
    assert_eq!(show_tags(&value("[{\"name\":\"a\"},{}]")), plain(&["a", "?"]));
    assert_eq!(show_tags(&value("[]")), plain(&["no tags"]));
    assert_eq!(
        show_projects(&value(
            "[{\"shortName\":\"A\",\"name\":\"Al\"},{\"shortName\":\"B\",\"archived\":true},{\"archived\":false}]"
        )),
        plain(&["A  Al", "?  "])
    );
    assert_eq!(show_projects(&value("[]")), plain(&[]));
    assert_eq!(show_users(&value("[{\"login\":\"j\",\"name\":\"Joe\"}]")), plain(&["j  Joe"]));
    assert_eq!(show_users(&value("[]")), plain(&["no matches"]));
    assert_eq!(
        show_me(&value("{\"login\":\"j\",\"name\":\"Joe\",\"email\":\"j@x\"}")),
        plain(&["j  Joe  j@x"])
    );
    assert_eq!(show_me(&Json::Null), plain(&["?    "]));
}

#[test]
fn attachments_are_listed_with_their_sizes() {
    let list = value("[{\"name\":\"a.png\",\"size\":12},{\"size\":1.5}]").into_items();
    assert_eq!(show_attachments(&list), plain(&["a.png  12", "?  0"]));
}

#[test]
fn fields_are_listed_with_their_values() {
    let list = value(
        "[{\"canBeEmpty\":false,\"field\":{\"name\":\"P\",\"fieldType\":{\"valueType\":\"enum\"}},
           \"bundle\":{\"values\":[{\"name\":\"a\"},{\"name\":\"b\",\"archived\":true},{\"archived\":false},{\"name\":\"c\",\"archived\":null}]}},
          {\"canBeEmpty\":true,\"field\":{\"name\":\"Q\"}},{}]",
    )
    .into_items();
    assert_eq!(
        show_fields("D", &list),
        plain(&["# D: * = required", "P* (enum): a, c", "Q (?)", "? (?)"])
    );
}

#[test]
fn seen_fields_are_listed_by_name() {
    let issues = value(
        "[{\"customFields\":[{\"name\":\"b\",\"value\":{\"name\":\"2\"}},{\"name\":\"a\",\"value\":{\"name\":\"x\"}}]},
          {\"customFields\":[{\"name\":\"b\",\"value\":{\"name\":\"1\"}},{\"name\":\"b\",\"value\":{\"name\":\"2\"}},{\"name\":\"c\",\"value\":null}]}]",
    );
    assert_eq!(
        show_seen_fields("D", &issues).unwrap(),
        plain(&[
            "# D: values observed on recent issues (field config not readable with this token)",
            "a: x",
            "b: 1, 2",
        ])
    );
    assert_eq!(
        show_seen_fields("D", &value("[]")).err().unwrap().message,
        "no field info available for D (no admin access, no issues to sample)"
    );
}
