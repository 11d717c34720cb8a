use spatial_bench_benchers::harness::{exit_code, wants_listing, Action, Driver, Exit, Session};

fn pairs(items: &[(&str, &str)]) -> Vec<(String, String)> {
    items.iter().map(|(k, v)| (k.to_string(), v.to_string())).collect()
}

#[test]
fn listing_is_requested_by_the_flag_anywhere_in_the_arguments() {
    let args = |a: &[&str]| a.iter().map(|s| s.to_string()).collect::<Vec<_>>();
    assert!(wants_listing(&args(&["driver", "--list"])));
    assert!(wants_listing(&args(&["--list", "x"])));
    assert!(!wants_listing(&args(&["driver", "--lis", "list"])));
    assert!(!wants_listing(&args(&[])));
}

#[test]
fn exit_codes() {
    for driver in [Driver::KdTree, Driver::Kdtree, Driver::Neighbourhood, Driver::Spade] {
        assert_eq!(exit_code(driver, Exit::WriteFailed { case: 0 }), 5);
    }
    for driver in [Driver::KiddoV5, Driver::KiddoV6] {
        assert_eq!(exit_code(driver, Exit::WriteFailed { case: 0 }), 4);
    }
    assert_eq!(exit_code(Driver::Spade, Exit::Success), 0);
    assert_eq!(exit_code(Driver::Spade, Exit::BadSpec), 2);
    assert_eq!(exit_code(Driver::Kdtree, Exit::NoRegistration { case: 3 }), 3);
    assert_eq!(exit_code(Driver::KiddoV6, Exit::ListingFailed), 4);
    assert_eq!(exit_code(Driver::KdTree, Exit::CaseFailed { case: 1 }), 5);
}

#[test]
fn every_case_is_measured_then_written_in_order() {
    let registrations = vec![pairs(&[("axis", "f32")]), pairs(&[("axis", "f64")])];
    let cases = vec![pairs(&[("axis", "f64")]), pairs(&[("axis", "f32")])];
    let mut session = Session::new(Driver::Kdtree, registrations, cases);
    assert_eq!(session.start(), Action::Measure { case: 0, registration: 1 });
    assert_eq!(session.measured(true), Action::Write { case: 0 });
    assert_eq!(session.wrote(true), Action::Measure { case: 1, registration: 0 });
    assert_eq!(session.measured(true), Action::Write { case: 1 });
    assert_eq!(session.wrote(true), Action::Finish(Exit::Success));
}

#[test]
fn an_unserved_case_is_refused_not_skipped() {
    let registrations = vec![pairs(&[("axis", "f32")])];
    let cases = vec![pairs(&[("axis", "f32")]), pairs(&[("axis", "f64")]), pairs(&[("axis", "f32")])];
    let mut session = Session::new(Driver::KiddoV6, registrations, cases);
    assert_eq!(session.start(), Action::Measure { case: 0, registration: 0 });
    assert_eq!(session.measured(true), Action::Write { case: 0 });
    assert_eq!(session.wrote(true), Action::Finish(Exit::NoRegistration { case: 1 }));
}

#[test]
fn failures_end_the_run_at_the_failing_case() {
    let cases = vec![vec![], vec![]];
    let mut session = Session::new(Driver::Spade, vec![vec![]], cases.clone());
    assert_eq!(session.start(), Action::Measure { case: 0, registration: 0 });
    assert_eq!(session.measured(false), Action::Finish(Exit::CaseFailed { case: 0 }));

    let mut session = Session::new(Driver::KiddoV5, vec![vec![]], cases);
    assert_eq!(session.start(), Action::Measure { case: 0, registration: 0 });
    assert_eq!(session.measured(true), Action::Write { case: 0 });
    assert_eq!(session.wrote(false), Action::Finish(Exit::WriteFailed { case: 0 }));
}

#[test]
fn kd_tree_needs_exactly_one_registration() {
    let cases = vec![vec![]];
    let mut two = Session::new(Driver::KdTree, vec![vec![], vec![]], cases.clone());
    assert_eq!(two.start(), Action::Finish(Exit::NoRegistration { case: 0 }));
    let mut one = Session::new(Driver::KdTree, vec![vec![]], cases);
    assert_eq!(one.start(), Action::Measure { case: 0, registration: 0 });
    let mut empty_run = Session::new(Driver::KdTree, vec![], vec![]);
    assert_eq!(empty_run.start(), Action::Finish(Exit::Success));
}
