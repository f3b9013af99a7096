use conta::config::{config_source, ConfigSource};
use conta::publish::{PublishOutcome, PublishRun};

fn run_with_failures(packages: &[&str], failing: &[&str]) -> (Vec<String>, Vec<PublishOutcome>) {
    let mut run = PublishRun::new(packages.iter().map(|s| s.to_string()).collect());
    let mut attempted = Vec::new();
    while let Some(p) = run.next_package() {
        attempted.push(p.clone());
        if failing.contains(&p.as_str()) {
            run.record(Err(format!("registry refused {p}")));
        } else {
            run.record(Ok(()));
        }
    }
    assert!(run.is_done());
    (attempted, run.outcomes().clone())
}

#[test]
fn publish_stops_at_first_failure() {
    let (attempted, outcomes) = run_with_failures(&["a", "b", "c"], &["b"]);
    assert_eq!(attempted, vec!["a".to_string(), "b".to_string()]);
    assert_eq!(
        outcomes,
        vec![
            PublishOutcome::Succeeded("a".to_string()),
            PublishOutcome::Failed("b".to_string(), "registry refused b".to_string()),
        ]
    );
}

#[test]
fn publish_all_in_order() {
    let (attempted, outcomes) = run_with_failures(&["x", "y", "z"], &[]);
    assert_eq!(attempted, vec!["x".to_string(), "y".to_string(), "z".to_string()]);
    assert_eq!(outcomes.len(), 3);
    assert_eq!(outcomes[2], PublishOutcome::Succeeded("z".to_string()));
}

#[test]
fn publish_nothing() {
    let run = PublishRun::new(Vec::new());
    assert!(run.is_done());
    assert_eq!(run.next_package(), None);
    assert!(run.outcomes().is_empty());
}

#[test]
fn publish_first_failure_stops_everything() {
    let (attempted, outcomes) = run_with_failures(&["a", "b"], &["a"]);
    assert_eq!(attempted, vec!["a".to_string()]);
    assert_eq!(outcomes, vec![PublishOutcome::Failed("a".to_string(), "registry refused a".to_string())]);
}

#[test]
fn config_source_order() {
    assert_eq!(config_source(true, true), ConfigSource::Explicit);
    assert_eq!(config_source(true, false), ConfigSource::Explicit);
    assert_eq!(config_source(false, true), ConfigSource::DefaultFile);
    assert_eq!(config_source(false, false), ConfigSource::Manifest);
}
