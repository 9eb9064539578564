use seedwing_policy::json::Json;
use seedwing_policy::osv::{
    batch_result, batch_vulnerabilities, ecosystem, json_to_query, plan_scan, separator,
    settle_details, single_result,
    OsvQuery, ScanPlan, ScanPurl,
};

fn text(s: &str) -> Json {
    Json::String(s.to_string())
}

fn object(members: Vec<(&str, Json)>) -> Json {
    Json::Object(members.into_iter().map(|(k, v)| (k.to_string(), v)).collect())
}

fn to_serde(q: &OsvQuery) -> serde_json::Value {
    let mut package = serde_json::Map::new();
    if let Some(name) = &q.package.name {
        package.insert("name".to_string(), serde_json::Value::String(name.clone()));
    }
    if let Some(ecosystem) = &q.package.ecosystem {
        package.insert("ecosystem".to_string(), serde_json::Value::String(ecosystem.clone()));
    }
    if let Some(purl) = &q.package.purl {
        package.insert("purl".to_string(), serde_json::Value::String(purl.clone()));
    }
    let mut query = serde_json::Map::new();
    if let Some(version) = &q.version {
        query.insert("version".to_string(), serde_json::Value::String(version.clone()));
    }
    query.insert("package".to_string(), serde_json::Value::Object(package));
    serde_json::Value::Object(query)
}

#[test]
fn npm_without_namespace() {
    let input = object(vec![("type", text("npm")), ("name", text("foo")), ("version", text("1.2.3"))]);
    let result = json_to_query(input);
    assert!(result.is_some());

    assert_eq!(
        r#"{"version":"1.2.3","package":{"name":"foo","ecosystem":"npm"}}"#,
        serde_json::to_string(&to_serde(&result.unwrap())).unwrap()
    );
}

#[test]
fn maven_with_namespace_joins_with_colon() {
    let input = object(vec![
        ("name", text("commons-lang3")),
        ("namespace", text("org.apache.commons")),
        ("type", text("maven")),
        ("version", text("3.12.0")),
    ]);
    let q = json_to_query(input).unwrap();
    assert_eq!(q.version.as_deref(), Some("3.12.0"));
    assert_eq!(q.package.name.as_deref(), Some("org.apache.commons:commons-lang3"));
    assert_eq!(q.package.ecosystem.as_deref(), Some("Maven"));
    assert_eq!(q.package.purl, None);
}

#[test]
fn golang_with_namespace_joins_with_slash() {
    let input = object(vec![
        ("name", text("text")),
        ("namespace", text("golang.org/x")),
        ("type", text("golang")),
        ("version", text("0.3.7")),
    ]);
    let q = json_to_query(input).unwrap();
    assert_eq!(q.package.name.as_deref(), Some("golang.org/x/text"));
    assert_eq!(q.package.ecosystem.as_deref(), Some("Go"));
}

#[test]
fn string_is_a_purl_query() {
    let q = json_to_query(text("pkg:cargo/serde@1.0.0")).unwrap();
    assert_eq!(q.version, None);
    assert_eq!(q.package.name, None);
    assert_eq!(q.package.ecosystem, None);
    assert_eq!(q.package.purl.as_deref(), Some("pkg:cargo/serde@1.0.0"));
    assert_eq!(
        serde_json::to_string(&to_serde(&q)).unwrap(),
        r#"{"package":{"purl":"pkg:cargo/serde@1.0.0"}}"#
    );
}

#[test]
fn namespace_that_is_no_string_gives_no_query() {
    let input = object(vec![
        ("name", text("foo")),
        ("namespace", Json::Number("3".to_string())),
        ("type", text("npm")),
        ("version", text("1.0")),
    ]);
    assert!(json_to_query(input).is_none());
}

#[test]
fn missing_version_gives_no_query() {
    let input = object(vec![("name", text("foo")), ("type", text("npm"))]);
    assert!(json_to_query(input).is_none());
}

#[test]
fn other_values_give_no_query() {
    assert!(json_to_query(Json::Null).is_none());
    assert!(json_to_query(Json::Bool(true)).is_none());
    assert!(json_to_query(Json::Number("1".to_string())).is_none());
    assert!(json_to_query(Json::Array(vec![text("pkg:npm/foo@1")])).is_none());
}

#[test]
fn first_member_of_a_name_counts() {
    let input = object(vec![
        ("name", text("first")),
        ("name", text("second")),
        ("type", text("npm")),
        ("version", text("1")),
    ]);
    assert_eq!(json_to_query(input).unwrap().package.name.as_deref(), Some("first"));
}

#[test]
fn ecosystem_names() {
    assert_eq!(ecosystem("maven"), "Maven");
    assert_eq!(ecosystem("apk"), "Alpine");
    assert_eq!(ecosystem("cargo"), "crates.io");
    assert_eq!(ecosystem("deb"), "debian");
    assert_eq!(ecosystem("gem"), "RubyGems");
    assert_eq!(ecosystem("golang"), "Go");
    assert_eq!(ecosystem("nuget"), "NuGet");
    assert_eq!(ecosystem("pypi"), "PyPI");
    assert_eq!(ecosystem("npm"), "npm");
    assert_eq!(ecosystem(""), "");
    assert_eq!(ecosystem("Maven"), "Maven");
}

#[test]
fn separators() {
    assert_eq!(separator("maven"), ":");
    assert_eq!(separator("npm"), "/");
    assert_eq!(separator(""), "/");
}

#[test]
fn list_is_scanned_as_one_batch() {
    let input = Json::Array(vec![
        text("pkg:npm/a@1"),
        Json::Null,
        object(vec![("name", text("b")), ("type", text("pypi")), ("version", text("2"))]),
    ]);
    match plan_scan(input) {
        ScanPlan::Batch(queries) => {
            assert_eq!(queries.len(), 2);
            assert_eq!(queries[0].package.purl.as_deref(), Some("pkg:npm/a@1"));
            assert_eq!(queries[1].package.name.as_deref(), Some("b"));
            assert_eq!(queries[1].package.ecosystem.as_deref(), Some("PyPI"));
        }
        other => panic!("unexpected plan {other:?}"),
    }
}

#[test]
fn empty_list_is_an_empty_batch() {
    match plan_scan(Json::Array(vec![])) {
        ScanPlan::Batch(queries) => assert!(queries.is_empty()),
        other => panic!("unexpected plan {other:?}"),
    }
}

#[test]
fn single_package_is_scanned_alone() {
    match plan_scan(text("pkg:gem/rails@7")) {
        ScanPlan::Single(q) => assert_eq!(q.package.purl.as_deref(), Some("pkg:gem/rails@7")),
        other => panic!("unexpected plan {other:?}"),
    }
    assert!(matches!(plan_scan(Json::Bool(false)), ScanPlan::Nothing));
}

#[test]
fn vulnerabilities_are_joined_in_order() {
    let found = batch_vulnerabilities(vec![vec!["A", "B"], vec![], vec!["C"]]);
    assert_eq!(found, vec!["A", "B", "C"]);
    let none: Vec<&str> = batch_vulnerabilities(vec![]);
    assert!(none.is_empty());
}

#[test]
fn fetched_details_replace_listed_ones() {
    assert_eq!(settle_details("listed", Some("fetched")), "fetched");
    assert_eq!(settle_details("listed", None), "listed");
}

#[test]
fn scan_outcome_fails_without_findings() {
    assert_eq!(ScanPurl.outcome(Some(5)), Ok(5));
    assert_eq!(ScanPurl.outcome(None::<u8>), Err(seedwing_policy::severity::Severity::Error));
}

#[test]
fn scan_runs_late() {
    assert_eq!(ScanPurl.order(), 200);
}

#[test]
fn service_answers_become_results() {
    assert_eq!(single_result::<u8, String>(Ok(7)), Some(7));
    assert_eq!(single_result::<u8, String>(Err("down".to_string())), None);
    assert_eq!(batch_result::<&str, ()>(Ok(vec![vec!["A"], vec!["B", "C"]])), Some(vec!["A", "B", "C"]));
    assert_eq!(batch_result::<&str, ()>(Err(())), None);
}

#[test]
fn other_members_do_not_change_the_query() {
    let plain = object(vec![("type", text("npm")), ("name", text("foo")), ("version", text("1"))]);
    let extra = object(vec![
        ("qualifiers", text("arch=x86")),
        ("type", text("npm")),
        ("name", text("foo")),
        ("subpath", Json::Null),
        ("version", text("1")),
    ]);
    let a = json_to_query(plain).unwrap();
    let b = json_to_query(extra).unwrap();
    assert_eq!(serde_json::to_string(&to_serde(&a)).unwrap(), serde_json::to_string(&to_serde(&b)).unwrap());
}
