use dancelist::submit::{to_safe_filename, BranchRetry, CreateOutcome, RetryStep, MAX_SUFFIX};

#[test]
fn safe_filenames() {
    assert_eq!(to_safe_filename("Southend-on-Sea"), "southend-on-sea");
    assert_eq!(
        to_safe_filename("weird'\"@\\/ characters"),
        "weird_characters"
    )
}

#[test]
fn safe_filename_is_cut_to_thirty() {
    let long = "A".repeat(40);
    assert_eq!(to_safe_filename(&long), "a".repeat(30));
}

#[test]
fn retry_gives_up_after_every_suffix() {
    let mut retry = BranchRetry::new("add-uk-london-ball".to_string());
    let mut attempts = 1;
    let mut names = vec![retry.branch_name()];
    let end = loop {
        match retry.record(CreateOutcome::NameTaken(format!("taken {}", attempts))) {
            RetryStep::Attempt(name) => {
                names.push(name);
                attempts += 1;
            }
            other => break other,
        }
    };
    assert_eq!(attempts, MAX_SUFFIX + 1);
    assert_eq!(names[0], "add-uk-london-ball");
    assert_eq!(names[1], "add-uk-london-ball1");
    assert_eq!(names[9], "add-uk-london-ball9");
    match end {
        RetryStep::GaveUp(cause) => assert_eq!(cause, "taken 10"),
        _ => panic!("expected failure"),
    }
}

#[test]
fn retry_stops_on_other_failure_and_success() {
    let mut retry = BranchRetry::new("b".to_string());
    match retry.record(CreateOutcome::NameTaken("x".to_string())) {
        RetryStep::Attempt(n) => assert_eq!(n, "b1"),
        _ => panic!("expected another attempt"),
    }
    match retry.record(CreateOutcome::Created) {
        RetryStep::Created(n) => assert_eq!(n, "b1"),
        _ => panic!("expected success"),
    }
    let mut retry = BranchRetry::new("b".to_string());
    match retry.record(CreateOutcome::Failed("boom".to_string())) {
        RetryStep::GaveUp(c) => assert_eq!(c, "boom"),
        _ => panic!("expected failure"),
    }
}
