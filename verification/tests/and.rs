use seedwing_policy::and::{and_severity, evaluation_order, And, AndEvaluation};
use seedwing_policy::severity::{worst_of, Severity};

#[test]
fn parameters_are_the_terms() {
    assert_eq!(And.parameters(), vec!["terms".to_string()]);
}

#[test]
fn terms_are_sorted_stably_by_order() {
    assert_eq!(evaluation_order(&vec![200, 0, 100, 0, 200]), vec![1, 3, 2, 0, 4]);
    assert_eq!(evaluation_order(&vec![]), Vec::<usize>::new());
    assert_eq!(evaluation_order(&vec![5, 5, 5]), vec![0, 1, 2]);
    assert_eq!(evaluation_order(&vec![3, 2, 1]), vec![2, 1, 0]);
}

#[test]
fn both_arms_satisfied_is_satisfied() {
    let s = and_severity(&vec![Severity::NoIssue, Severity::NoIssue]);
    assert_eq!(s, Severity::NoIssue);
    assert!(s.is_satisfied());
}

#[test]
fn only_left_arm_is_not_satisfied() {
    let s = and_severity(&vec![Severity::NoIssue, Severity::Error]);
    assert_eq!(s, Severity::Error);
    assert!(!s.is_satisfied());
}

#[test]
fn only_right_arm_is_not_satisfied() {
    assert_eq!(and_severity(&vec![Severity::Error, Severity::NoIssue]), Severity::Error);
}

#[test]
fn no_arm_is_not_satisfied() {
    assert_eq!(and_severity(&vec![Severity::Error, Severity::Error]), Severity::Error);
}

#[test]
fn no_terms_have_no_issue() {
    assert_eq!(and_severity(&vec![]), Severity::NoIssue);
}

#[test]
fn worst_severity_wins_in_any_order() {
    let a = and_severity(&vec![Severity::Advice, Severity::Warning, Severity::NoIssue]);
    let b = and_severity(&vec![Severity::NoIssue, Severity::Advice, Severity::Warning]);
    assert_eq!(a, Severity::Warning);
    assert_eq!(a, b);
    assert!(a.is_satisfied());
    assert_eq!(worst_of(Severity::Advice, Severity::Warning), Severity::Warning);
    assert_eq!(worst_of(Severity::Error, Severity::Advice), Severity::Error);
}

#[test]
fn ranks() {
    assert_eq!(Severity::NoIssue.rank(), 0);
    assert_eq!(Severity::Advice.rank(), 1);
    assert_eq!(Severity::Warning.rank(), 2);
    assert_eq!(Severity::Error.rank(), 3);
}

#[test]
fn evaluation_visits_terms_by_order() {
    let orders = vec![200, 10];
    let mut e = AndEvaluation::new(Some(&orders));
    assert_eq!(e.next_term(), Some(1));
    e.record(Severity::Advice);
    assert_eq!(e.next_term(), Some(0));
    e.record(Severity::NoIssue);
    assert_eq!(e.next_term(), None);
    assert_eq!(e.severity(), Severity::Advice);
}

#[test]
fn evaluation_without_terms_fails() {
    let e = AndEvaluation::new(None);
    assert_eq!(e.next_term(), None);
    assert_eq!(e.severity(), Severity::Error);
}

#[test]
fn evaluation_of_empty_list_has_no_issue() {
    let orders: Vec<u8> = vec![];
    let e = AndEvaluation::new(Some(&orders));
    assert_eq!(e.next_term(), None);
    assert_eq!(e.severity(), Severity::NoIssue);
}
