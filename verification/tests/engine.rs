use seedwing_policy::eval::{split_at_commas, Eval, EvalRun, EvalStep, InputType};
use seedwing_policy::severity::Severity;
use seedwing_policy::{something, version, wit_pattern_name};

#[test]
fn tag_overrides_package_version() {
    assert_eq!(version(Some("v1.2"), "0.1.0"), "v1.2");
    assert_eq!(version(None, "0.1.0"), "0.1.0");
}

#[test]
fn component_answers() {
    assert_eq!(something("x".to_string()), "something was passed: x");
    assert_eq!(something(String::new()), "something was passed: ");
}

#[test]
fn wit_names() {
    assert_eq!(wit_pattern_name("test-pattern"), "wit::test-pattern");
}

fn eval(name: Option<&str>, input: Option<&str>, select: &str) -> Eval {
    Eval {
        typ: InputType::Json,
        input: input.map(|s| s.to_string()),
        name: name.map(|s| s.to_string()),
        verbose: false,
        select: select.to_string(),
    }
}

#[test]
fn named_policy_wins() {
    let required = vec!["a::b".to_string()];
    assert_eq!(eval(Some("x::y"), None, "").policy_names(&required), Some(vec!["x::y".to_string()]));
    assert_eq!(eval(None, None, "").policy_names(&required), Some(required.clone()));
    assert_eq!(eval(None, None, "").policy_names(&vec![]), None);
}

#[test]
fn given_input_wins() {
    let configured = vec!["a.json".to_string(), "b.json".to_string()];
    assert_eq!(eval(None, Some("c.json"), "").input_paths(&configured), vec!["c.json".to_string()]);
    assert_eq!(eval(None, None, "").input_paths(&configured), configured);
}

#[test]
fn fields_are_split_at_commas() {
    let default = Eval::default_select();
    assert_eq!(default, "name,severity,reason,rationale");
    assert_eq!(
        eval(None, None, &default).selected_fields(),
        vec!["name", "severity", "reason", "rationale"]
    );
    assert_eq!(split_at_commas(""), vec![""]);
    assert_eq!(split_at_commas("a,,b,"), vec!["a", "", "b", ""]);
    assert_eq!(split_at_commas(",x"), vec!["", "x"]);
}

#[test]
fn run_stops_at_first_failure() {
    let mut run = EvalRun::new(2, 2);
    assert_eq!(run.next(), EvalStep::Evaluate { value: 0, name: 0 });
    run.record(Severity::Warning);
    assert_eq!(run.next(), EvalStep::Evaluate { value: 0, name: 1 });
    run.record(Severity::NoIssue);
    assert_eq!(run.next(), EvalStep::Evaluate { value: 1, name: 0 });
    run.record(Severity::Error);
    assert_eq!(run.next(), EvalStep::Exit(2));
}

#[test]
fn run_without_failure_succeeds() {
    let mut run = EvalRun::new(1, 1);
    assert_eq!(run.next(), EvalStep::Evaluate { value: 0, name: 0 });
    run.record(Severity::Advice);
    assert_eq!(run.next(), EvalStep::Exit(0));
    assert_eq!(EvalRun::new(0, 3).next(), EvalStep::Exit(0));
    assert_eq!(EvalRun::new(3, 0).next(), EvalStep::Exit(0));
}
