use yt::fields::{
    cf_get, cf_value, fieldtype_id_to_cf_type, issue_cf_entry, issue_cf_entry_of,
    project_field_types, resolve_custom_fields, simple_value,
};
use yt::json::Json;
use yt::wire;

fn value(text: &str) -> Json {
    wire::parse(text).unwrap()
}

fn written(v: Option<Json>) -> Option<String> {
    v.map(|v| wire::to_text(&v))
}

fn list(items: Vec<Json>) -> Json {
    Json::Array(items)
}

fn named(name: &str) -> Json {
    Json::object().with("name", Json::text(name))
}

fn field(name: &str, v: Json) -> Json {
    named(name).with("value", v)
}

fn entry(name: &str, cf_type: &str, v: Json) -> Option<String> {
    written(Some(field(name, v).with("$type", Json::text(cf_type))))
}

fn types(pairs: &[(&str, &str)]) -> Vec<(String, String)> {
    pairs.iter().map(|p| (p.0.to_string(), p.1.to_string())).collect()
}

fn given(specs: &[&str]) -> Vec<String> {
    specs.iter().map(|s| s.to_string()).collect()
}

// ---- showing ----

#[test]
fn cf_value_picks_name() {
    assert_eq!(cf_value(&named("Open")).as_deref(), Some("Open"));
}

#[test]
fn cf_value_prefers_login_over_name() {
    let v = Json::object().with("login", Json::text("alice")).with("name", Json::text("Alice A"));
    assert_eq!(cf_value(&v).as_deref(), Some("alice"));
}

#[test]
fn cf_value_joins_array() {
    let v = list(vec![named("Bug"), named("Critical")]);
    assert_eq!(cf_value(&v).as_deref(), Some("Bug,Critical"));
}

#[test]
fn cf_value_empty_is_none() {
    assert_eq!(cf_value(&Json::Null), None);
    assert_eq!(cf_value(&list(vec![])), None);
    assert_eq!(cf_value(&list(vec![Json::Null, Json::Null])), None);
}

#[test]
fn cf_value_large_number_is_date() {
    assert_eq!(cf_value(&Json::Integer(1_782_345_600_000)).as_deref(), Some("2026-06-25"));
}

#[test]
fn cf_value_small_number_is_plain() {
    assert_eq!(cf_value(&Json::Integer(42)).as_deref(), Some("42"));
}

#[test]
fn cf_value_shows_the_other_values_as_json() {
    assert_eq!(cf_value(&value("100000000000")).as_deref(), Some("100000000000"));
    assert_eq!(cf_value(&value("18446744073709551615")).as_deref(), Some("18446744073709551615"));
    assert_eq!(cf_value(&value("-7")).as_deref(), Some("-7"));
    assert_eq!(cf_value(&value("2.50")).as_deref(), Some("2.5"));
    assert_eq!(cf_value(&value("true")).as_deref(), Some("true"));
    assert_eq!(cf_value(&value("false")).as_deref(), Some("false"));
    assert_eq!(cf_value(&value("\"a\\\"b\\n\"")).as_deref(), Some("\"a\\\"b\\n\""));
    assert_eq!(cf_value(&value("[[{\"text\":\"x\"},1],null,2]")).as_deref(), Some("x,1,2"));
}

#[test]
fn cf_value_takes_the_first_label_that_is_there() {
    assert_eq!(cf_value(&value("{\"login\":null,\"name\":\"n\"}")), None);
    assert_eq!(cf_value(&value("{\"text\":\"t\",\"name\":\"n\"}")).as_deref(), Some("n"));
    assert_eq!(cf_value(&value("{\"text\":\"t\"}")).as_deref(), Some("t"));
    assert_eq!(cf_value(&value("{}")), None);
    assert_eq!(cf_value(&value("{\"name\":1}")), None);
}

#[test]
fn cf_get_matches_case_insensitively() {
    let issue = Json::object().with(
        "customFields",
        list(vec![field("State", named("Open")), field("Priority", named("Critical"))]),
    );
    assert_eq!(cf_get(&issue, "state").as_deref(), Some("Open"));
    assert_eq!(cf_get(&issue, "PRIORITY").as_deref(), Some("Critical"));
    assert_eq!(cf_get(&issue, "Assignee"), None);
}

#[test]
fn cf_get_takes_the_first_field_of_the_name() {
    let issue = value(
        "{\"customFields\":[{\"name\":\"A\",\"value\":null},{\"name\":\"a\",\"value\":1}]}",
    );
    assert_eq!(cf_get(&issue, "A"), None);
    assert_eq!(cf_get(&Json::Null, "A"), None);
}

// ---- sending ----

#[test]
fn issue_cf_entry_single_enum() {
    assert_eq!(
        written(issue_cf_entry("Priority", "SingleEnumIssueCustomField", "Critical")),
        entry("Priority", "SingleEnumIssueCustomField", named("Critical"))
    );
}

#[test]
fn issue_cf_entry_state_and_multi_and_user() {
    assert_eq!(
        written(issue_cf_entry("State", "StateIssueCustomField", "In Progress")),
        entry("State", "StateIssueCustomField", named("In Progress"))
    );
    assert_eq!(
        written(issue_cf_entry("Tags", "MultiEnumIssueCustomField", "backend")),
        entry("Tags", "MultiEnumIssueCustomField", list(vec![named("backend")]))
    );
    assert_eq!(
        written(issue_cf_entry("Assignee", "SingleUserIssueCustomField", "shoko")),
        entry(
            "Assignee",
            "SingleUserIssueCustomField",
            Json::object().with("login", Json::text("shoko"))
        )
    );
}

#[test]
fn issue_cf_entry_scalars_and_unsupported() {
    assert_eq!(
        written(issue_cf_entry("Estimation", "SimpleIssueCustomField", "5")),
        entry("Estimation", "SimpleIssueCustomField", Json::Integer(5))
    );
    assert_eq!(
        written(issue_cf_entry("Note", "SimpleIssueCustomField", "soon")),
        entry("Note", "SimpleIssueCustomField", Json::text("soon"))
    );
    assert_eq!(written(issue_cf_entry("Due Date", "DateIssueCustomField", "2026-07-03")), None);
    assert_eq!(written(issue_cf_entry("Priority", "SingleEnumIssueCustomField", "  ")), None);
}

#[test]
fn issue_cf_entry_knows_every_type() {
    let shape = |t: &str| {
        issue_cf_entry("F", t, " v ").map(|e| wire::to_text(e.member("value")))
    };
    for kind in ["Enum", "Owned", "Version", "Build", "Group"] {
        assert_eq!(
            shape(&format!("Single{kind}IssueCustomField")).as_deref(),
            Some("{\"name\":\"v\"}")
        );
        assert_eq!(
            shape(&format!("Multi{kind}IssueCustomField")).as_deref(),
            Some("[{\"name\":\"v\"}]")
        );
    }
    assert_eq!(shape("StateMachineIssueCustomField").as_deref(), Some("{\"name\":\"v\"}"));
    assert_eq!(shape("MultiUserIssueCustomField").as_deref(), Some("[{\"login\":\"v\"}]"));
    assert_eq!(shape("TextIssueCustomField").as_deref(), Some("{\"text\":\"v\"}"));
    assert_eq!(shape("PeriodIssueCustomField").as_deref(), Some("{\"presentation\":\"v\"}"));
    assert_eq!(shape("MultiDateIssueCustomField"), None);
}

#[test]
fn issue_cf_entry_reads_fractional_numbers() {
    let simple = |raw: &str| {
        wire::to_text(issue_cf_entry("F", "SimpleIssueCustomField", raw).unwrap().member("value"))
    };
    assert_eq!(simple("1.50"), "1.5");
    assert_eq!(simple("-1e3"), "-1000.0");
    assert_eq!(simple("9223372036854775808"), "9.223372036854776e+18");
    assert_eq!(simple("inf"), "\"inf\"");
    assert_eq!(simple("NaN"), "\"NaN\"");
    assert_eq!(simple("-Infinity"), "\"-Infinity\"");
    assert_eq!(simple("1e999"), "null");
    assert_eq!(simple("-1e999"), "null");
    assert_eq!(simple("+5"), "5");
    assert_eq!(simple("5h"), "\"5h\"");
}

#[test]
fn a_number_that_is_known_is_used_where_the_text_is_not_whole() {
    assert_eq!(simple_value("x", Some(Json::Float("0.5".to_string()))), Json::Float("0.5".to_string()));
    assert_eq!(simple_value("3", Some(Json::Null)), Json::Integer(3));
    assert_eq!(simple_value("x", None), Json::text("x"));
    assert_eq!(
        written(issue_cf_entry_of("N", "SimpleIssueCustomField", " x ", Some(Json::Null))),
        entry("N", "SimpleIssueCustomField", Json::Null)
    );
}

#[test]
fn fieldtype_id_maps_to_issue_cf_type() {
    assert_eq!(fieldtype_id_to_cf_type("enum[1]"), Some("SingleEnumIssueCustomField"));
    assert_eq!(fieldtype_id_to_cf_type("user[*]"), Some("MultiUserIssueCustomField"));
    assert_eq!(fieldtype_id_to_cf_type("state[1]"), Some("StateIssueCustomField"));
    assert_eq!(fieldtype_id_to_cf_type("integer"), Some("SimpleIssueCustomField"));
    assert_eq!(fieldtype_id_to_cf_type("date"), None);
}

#[test]
fn every_configured_type_takes_a_value() {
    let bases = [
        "enum", "state", "user", "ownedField", "version", "build", "group", "text", "period",
        "integer", "float", "string",
    ];
    for base in bases {
        for suffix in ["", "[1]", "[*]"] {
            let t = fieldtype_id_to_cf_type(&format!("{base}{suffix}")).unwrap();
            assert!(issue_cf_entry("F", t, "x").is_some());
        }
    }
    assert_eq!(fieldtype_id_to_cf_type("enum[2]"), None);
    assert_eq!(fieldtype_id_to_cf_type("enum[1][*]"), None);
    assert_eq!(fieldtype_id_to_cf_type("[*]"), None);
    assert_eq!(fieldtype_id_to_cf_type("state[*]"), Some("StateIssueCustomField"));
}

// ---- the fields of a project ----

#[test]
fn the_configuration_of_a_project_comes_first() {
    let config = value(
        "[{\"field\":{\"name\":\"Priority\",\"fieldType\":{\"id\":\"enum[1]\"}}},
          {\"field\":{\"name\":\"Due\",\"fieldType\":{\"id\":\"date\"}}},
          {\"field\":{\"fieldType\":{\"id\":\"enum[1]\"}}},
          {\"field\":{\"name\":\"Who\",\"fieldType\":{\"id\":\"user[*]\"}}}]",
    );
    let issues = value("[{\"customFields\":[{\"name\":\"X\",\"$type\":\"T\"}]}]");
    let want = types(&[
        ("Priority", "SingleEnumIssueCustomField"),
        ("Who", "MultiUserIssueCustomField"),
    ]);
    assert_eq!(project_field_types(Some(&config), Some(&issues)), want);
    assert_eq!(project_field_types(Some(&config), None), want);
}

#[test]
fn issues_show_the_types_of_fields_otherwise() {
    let issues = value(
        "[{\"customFields\":[{\"name\":\"b\",\"$type\":\"B1\"},{\"name\":\"a\",\"$type\":\"A\"}]},
          {\"customFields\":[{\"name\":\"b\",\"$type\":\"B2\"},{\"name\":\"c\"}]},
          {\"summary\":\"s\"}]",
    );
    let want = types(&[("a", "A"), ("b", "B1")]);
    assert_eq!(project_field_types(None, Some(&issues)), want);
    assert_eq!(project_field_types(Some(&value("[]")), Some(&issues)), want);
    assert_eq!(project_field_types(None, None), types(&[]));
}

#[test]
fn given_fields_become_entries() {
    let defs = types(&[
        ("Sprint", "SingleEnumIssueCustomField"),
        ("Sprint Board", "StateIssueCustomField"),
        ("Priority", "SingleEnumIssueCustomField"),
    ]);
    let got = resolve_custom_fields(&defs, &given(&["sprint board In Progress", "Priority Critical"]));
    assert_eq!(
        written(got).as_deref(),
        Some(
            "[{\"$type\":\"StateIssueCustomField\",\"name\":\"Sprint Board\",\"value\":{\"name\":\"In Progress\"}},{\"$type\":\"SingleEnumIssueCustomField\",\"name\":\"Priority\",\"value\":{\"name\":\"Critical\"}}]"
        )
    );
}

#[test]
fn one_field_that_cannot_be_told_leaves_all_to_a_command() {
    let defs = types(&[
        ("Priority", "SingleEnumIssueCustomField"),
        ("Due", "DateIssueCustomField"),
    ]);
    for specs in [
        vec!["Priority Critical", "Due 2026-01-01"],
        vec!["Nothing x", "Priority Critical"],
        vec!["Priority"],
        vec!["Priorityx Critical"],
    ] {
        assert_eq!(written(resolve_custom_fields(&defs, &given(&specs))), None);
    }
    assert_eq!(written(resolve_custom_fields(&types(&[]), &given(&["Priority Critical"]))), None);
    assert_eq!(written(resolve_custom_fields(&defs, &given(&[]))).as_deref(), Some("[]"));
}

#[test]
fn of_equal_names_the_last_counts() {
    let defs = types(&[("P", "TextIssueCustomField"), ("p", "PeriodIssueCustomField")]);
    let got = resolve_custom_fields(&defs, &given(&["P 1w"]));
    assert_eq!(
        written(got).as_deref(),
        Some("[{\"$type\":\"PeriodIssueCustomField\",\"name\":\"p\",\"value\":{\"presentation\":\"1w\"}}]")
    );
}
