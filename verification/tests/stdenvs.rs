use ofborg::eval::{EvaluationResult, TagDiff};
use ofborg::nix::{EvalOutcome, EvalRequest, Nix, Operation};
use ofborg::stdenvs::{same_identifier, StdenvFrom, Stdenvs, System};
use std::path::PathBuf;

fn nix() -> Nix {
    Nix::new(String::from("x86_64-linux"), String::from("daemon"), 1200, None)
}

fn fresh() -> Stdenvs {
    Stdenvs::new(nix(), PathBuf::from("/checkout/nixpkgs"))
}

fn found(identifier: &str) -> EvalOutcome {
    EvalOutcome::Success(identifier.as_bytes().to_vec())
}

#[test]
fn stdenv_checking() {
    let nixpkgs = String::from("/nix/var/nix/profiles/per-user/root/channels/nixos\n");
    let remote = String::from("daemon");
    let nix = Nix::new(String::from("x86_64-linux"), remote, 1200, None);
    let mut stdenv = Stdenvs::new(nix.clone(), PathBuf::from(nixpkgs.trim_end()));
    stdenv.identify(System::X8664Linux, StdenvFrom::Before, found("/nix/store/aaa-stdenv-linux\n"));
    stdenv.identify(System::X8664Darwin, StdenvFrom::Before, found("/nix/store/bbb-stdenv-darwin\n"));

    stdenv.identify(System::X8664Linux, StdenvFrom::After, found("/nix/store/aaa-stdenv-linux\n"));
    stdenv.identify(System::X8664Darwin, StdenvFrom::After, found("/nix/store/bbb-stdenv-darwin\n"));

    assert!(stdenv.are_same());
}

#[test]
fn a_fresh_comparison_holds_nothing_and_reports_no_change() {
    let stdenv = fresh();
    for system in System::all() {
        assert_eq!(stdenv.stdenv(system, StdenvFrom::Before), &None);
        assert_eq!(stdenv.stdenv(system, StdenvFrom::After), &None);
    }
    assert!(stdenv.are_same());
    assert_eq!(stdenv.changed(), vec![]);
}

#[test]
fn equal_identifiers_on_both_platforms_are_the_same() {
    let mut stdenv = fresh();
    stdenv.identify_before(found("X"), found("Y"));
    stdenv.identify_after(found("X"), found("Y"));
    assert!(stdenv.are_same());
    assert_eq!(stdenv.changed(), vec![]);
    assert_eq!(stdenv.results(), EvaluationResult { tags: None });
}

#[test]
fn a_new_linux_identifier_is_reported_for_linux_alone() {
    let mut stdenv = fresh();
    stdenv.identify_before(found("X"), found("Y"));
    stdenv.identify_after(found("X2"), found("Y"));
    assert!(!stdenv.are_same());
    assert_eq!(stdenv.changed(), vec![System::X8664Linux]);
    assert_eq!(
        stdenv.results(),
        EvaluationResult {
            tags: Some(TagDiff {
                add: vec![String::from("10.rebuild-linux-stdenv")],
                delete: vec![String::from("10.rebuild-darwin-stdenv")],
            }),
        }
    );
}

#[test]
fn a_new_darwin_identifier_is_reported_for_darwin_alone() {
    let mut stdenv = fresh();
    stdenv.identify_before(found("X"), found("Y"));
    stdenv.identify_after(found("X"), found("Y2"));
    assert_eq!(stdenv.changed(), vec![System::X8664Darwin]);
    let diff = stdenv.results().tags.expect("a change was found");
    assert_eq!(diff.add, vec![String::from("10.rebuild-darwin-stdenv")]);
    assert_eq!(diff.delete, vec![String::from("10.rebuild-linux-stdenv")]);
}

#[test]
fn changes_on_both_platforms_come_linux_first() {
    let mut stdenv = fresh();
    stdenv.identify_before(found("X"), found("Y"));
    stdenv.identify_after(found("X2"), found("Y2"));
    assert_eq!(stdenv.changed(), vec![System::X8664Linux, System::X8664Darwin]);
    let diff = stdenv.results().tags.expect("a change was found");
    assert_eq!(
        diff.add,
        vec![String::from("10.rebuild-linux-stdenv"), String::from("10.rebuild-darwin-stdenv")]
    );
    assert_eq!(diff.delete, Vec::<String>::new());
}

#[test]
fn the_order_of_identifying_does_not_change_the_order_reported() {
    let mut stdenv = fresh();
    stdenv.identify(System::X8664Darwin, StdenvFrom::After, found("Y2"));
    stdenv.identify(System::X8664Linux, StdenvFrom::After, found("X2"));
    stdenv.identify(System::X8664Darwin, StdenvFrom::Before, found("Y"));
    stdenv.identify(System::X8664Linux, StdenvFrom::Before, EvalOutcome::Failure);
    assert_eq!(stdenv.changed(), vec![System::X8664Linux, System::X8664Darwin]);
}

#[test]
fn an_evaluation_that_newly_succeeds_counts_as_a_change() {
    let mut stdenv = fresh();
    stdenv.identify_before(EvalOutcome::Failure, found("Y"));
    stdenv.identify_after(found("X2"), found("Y"));
    assert_eq!(stdenv.stdenv(System::X8664Linux, StdenvFrom::Before), &None);
    assert_eq!(
        stdenv.stdenv(System::X8664Linux, StdenvFrom::After),
        &Some(String::from("X2"))
    );
    assert_eq!(stdenv.changed(), vec![System::X8664Linux]);
    assert!(!stdenv.are_same());
}

#[test]
fn an_evaluation_that_newly_fails_counts_as_a_change() {
    let mut stdenv = fresh();
    stdenv.identify_before(found("X"), found("Y"));
    stdenv.identify_after(found("X"), EvalOutcome::Failure);
    assert_eq!(stdenv.changed(), vec![System::X8664Darwin]);
}

#[test]
fn two_failed_evaluations_count_as_no_change() {
    let mut stdenv = fresh();
    stdenv.identify_before(EvalOutcome::Failure, found("Y"));
    stdenv.identify_after(EvalOutcome::Failure, found("Y"));
    assert_eq!(stdenv.stdenv(System::X8664Linux, StdenvFrom::Before), &None);
    assert_eq!(stdenv.stdenv(System::X8664Linux, StdenvFrom::After), &None);
    assert_eq!(stdenv.changed(), vec![]);
    assert!(stdenv.are_same());
    assert!(stdenv.results().tags.is_none());
}

#[test]
fn failures_everywhere_cannot_be_told_from_no_change() {
    let mut stdenv = fresh();
    stdenv.identify_before(EvalOutcome::Failure, EvalOutcome::TimedOut);
    stdenv.identify_after(EvalOutcome::TimedOut, EvalOutcome::Failure);
    assert!(stdenv.are_same());
    assert!(stdenv.results().tags.is_none());
}

#[test]
fn an_evaluator_that_runs_out_of_time_leaves_no_identifier() {
    let mut stdenv = fresh();
    stdenv.identify_before(found("X"), found("Y"));
    stdenv.identify_after(EvalOutcome::TimedOut, found("Y"));
    assert_eq!(stdenv.stdenv(System::X8664Linux, StdenvFrom::After), &None);
    assert_eq!(stdenv.changed(), vec![System::X8664Linux]);
}

#[test]
fn results_before_the_second_phase_report_every_identified_platform() {
    let mut stdenv = fresh();
    stdenv.on_target_branch(found("X"), found("Y"));
    assert_eq!(stdenv.changed(), vec![System::X8664Linux, System::X8664Darwin]);
    let diff = stdenv.results().tags.expect("a change was found");
    assert_eq!(
        diff.add,
        vec![String::from("10.rebuild-linux-stdenv"), String::from("10.rebuild-darwin-stdenv")]
    );
    assert!(diff.delete.is_empty());
}

#[test]
fn identifying_again_overwrites() {
    let mut stdenv = fresh();
    stdenv.identify_before(found("X"), found("Y"));
    stdenv.identify_before(found("X2"), EvalOutcome::Failure);
    assert_eq!(
        stdenv.stdenv(System::X8664Linux, StdenvFrom::Before),
        &Some(String::from("X2"))
    );
    assert_eq!(stdenv.stdenv(System::X8664Darwin, StdenvFrom::Before), &None);
    assert_eq!(stdenv.stdenv(System::X8664Linux, StdenvFrom::After), &None);
    assert_eq!(stdenv.stdenv(System::X8664Darwin, StdenvFrom::After), &None);
}

#[test]
fn identifying_touches_one_place_only() {
    let mut stdenv = fresh();
    stdenv.identify(System::X8664Darwin, StdenvFrom::After, found("Y"));
    assert_eq!(stdenv.stdenv(System::X8664Linux, StdenvFrom::Before), &None);
    assert_eq!(stdenv.stdenv(System::X8664Linux, StdenvFrom::After), &None);
    assert_eq!(stdenv.stdenv(System::X8664Darwin, StdenvFrom::Before), &None);
    assert_eq!(
        stdenv.stdenv(System::X8664Darwin, StdenvFrom::After),
        &Some(String::from("Y"))
    );
}

#[test]
fn the_phases_fill_the_places_they_are_named_after() {
    let mut stdenv = fresh();
    stdenv.on_target_branch(found("X"), found("Y"));
    stdenv.after_merge(found("X2"), found("Y2"));
    assert_eq!(
        stdenv.stdenv(System::X8664Linux, StdenvFrom::Before),
        &Some(String::from("X"))
    );
    assert_eq!(
        stdenv.stdenv(System::X8664Darwin, StdenvFrom::Before),
        &Some(String::from("Y"))
    );
    assert_eq!(
        stdenv.stdenv(System::X8664Linux, StdenvFrom::After),
        &Some(String::from("X2"))
    );
    assert_eq!(
        stdenv.stdenv(System::X8664Darwin, StdenvFrom::After),
        &Some(String::from("Y2"))
    );
}

#[test]
fn identifiers_are_compared_without_the_white_space_around_them() {
    let mut stdenv = fresh();
    stdenv.identify_before(found("X\n"), found("  Y"));
    stdenv.identify_after(found("X"), found("Y\r\n"));
    assert!(stdenv.are_same());
    assert_eq!(
        stdenv.stdenv(System::X8664Linux, StdenvFrom::Before),
        &Some(String::from("X"))
    );
}

#[test]
fn an_empty_identifier_is_not_an_absent_one() {
    let mut stdenv = fresh();
    stdenv.identify_before(found(""), EvalOutcome::Failure);
    stdenv.identify_after(EvalOutcome::Failure, EvalOutcome::Failure);
    assert_eq!(
        stdenv.stdenv(System::X8664Linux, StdenvFrom::Before),
        &Some(String::new())
    );
    assert_eq!(stdenv.changed(), vec![System::X8664Linux]);
}

#[test]
fn asking_again_gives_the_same_answers() {
    let mut stdenv = fresh();
    stdenv.identify_before(found("X"), found("Y"));
    stdenv.identify_after(found("X"), found("Y2"));
    let first = stdenv.changed();
    let second = stdenv.changed();
    assert_eq!(first, second);
    assert_eq!(first, vec![System::X8664Darwin]);
    assert_eq!(stdenv.are_same(), stdenv.are_same());
    assert!(!stdenv.are_same());
    assert_eq!(stdenv.changed(), first);
}

#[test]
fn nothing_changed_exactly_when_the_stdenvs_are_the_same() {
    let outcomes = ["X", "X2"];
    for linux_before in outcomes {
        for linux_after in outcomes {
            for darwin_before in outcomes {
                for darwin_after in outcomes {
                    let mut stdenv = fresh();
                    stdenv.identify_before(found(linux_before), found(darwin_before));
                    stdenv.identify_after(found(linux_after), found(darwin_after));
                    assert_eq!(stdenv.changed().is_empty(), stdenv.are_same());
                    assert_eq!(
                        stdenv.are_same(),
                        linux_before == linux_after && darwin_before == darwin_after
                    );
                }
            }
        }
    }
}

#[test]
fn results_of_the_comparator_equality() {
    let x = Some(String::from("X"));
    let same_x = Some(String::from("X"));
    let y = Some(String::from("Y"));
    let empty = Some(String::new());
    let absent: Option<String> = None;
    assert!(same_identifier(&absent, &None));
    assert!(same_identifier(&x, &same_x));
    assert!(!same_identifier(&x, &y));
    assert!(!same_identifier(&x, &absent));
    assert!(!same_identifier(&absent, &x));
    assert!(!same_identifier(&empty, &absent));
    assert!(!same_identifier(&absent, &empty));
}

#[test]
fn the_request_asks_for_the_outputs_of_the_stdenv() {
    let nix = Nix::new(
        String::from("x86_64-linux"),
        String::from("daemon"),
        1200,
        Some(String::from("4g")),
    );
    let checkout = PathBuf::from("/checkout/nixpkgs");
    let stdenv = Stdenvs::new(nix, checkout.clone());

    let request = stdenv.request(System::X8664Darwin);
    assert_eq!(request.nix.system, "x86_64-darwin");
    assert_eq!(request.nix.remote, "daemon");
    assert_eq!(request.nix.build_timeout, 1200);
    assert_eq!(request.nix.initial_heap_size, Some(String::from("4g")));
    assert_eq!(request.operation, Operation::QueryPackagesOutputs);
    assert_eq!(request.checkout, &checkout);
    assert_eq!(request.args, vec!["-f", ".", "-A", "stdenv"]);
    assert!(request.keep_stdout);

    let request = stdenv.request(System::X8664Linux);
    assert_eq!(request.nix.system, "x86_64-linux");
    assert_eq!(request.args, vec!["-f", ".", "-A", "stdenv"]);
}

#[test]
fn the_platforms_and_their_names() {
    assert_eq!(System::all(), vec![System::X8664Linux, System::X8664Darwin]);
    assert_eq!(System::X8664Linux.as_str(), "x86_64-linux");
    assert_eq!(System::X8664Darwin.as_str(), "x86_64-darwin");
}

#[test]
fn the_messages_of_the_two_phases() {
    let stdenv = fresh();
    assert_eq!(
        stdenv.before_on_target_branch_message(),
        "Identifying target branch's stdenvs"
    );
    assert_eq!(stdenv.before_after_merge_message(), "Identifying new stdenvs");
}

#[test]
fn settings_aimed_at_another_platform_keep_the_rest() {
    let nix = Nix::new(
        String::from("x86_64-linux"),
        String::from("daemon"),
        1800,
        Some(String::from("2g")),
    );
    let aimed = nix.with_system(String::from("aarch64-linux"));
    assert_eq!(aimed.system, "aarch64-linux");
    assert_eq!(aimed.remote, "daemon");
    assert_eq!(aimed.build_timeout, 1800);
    assert_eq!(aimed.initial_heap_size, Some(String::from("2g")));
    assert_eq!(nix.system, "x86_64-linux");
}

#[test]
fn settings_are_cloned_part_by_part() {
    let nix = Nix::new(
        String::from("x86_64-linux"),
        String::from("daemon"),
        1800,
        Some(String::from("2g")),
    );
    assert_eq!(nix.clone(), nix);
    assert_eq!(nix.clone().build_timeout, 1800);
}

/// Stands in for the evaluator: answers from the request alone.
fn canned(request: &EvalRequest, linux: &str, darwin: Option<&str>) -> EvalOutcome {
    assert_eq!(request.operation, Operation::QueryPackagesOutputs);
    assert_eq!(request.args, vec!["-f", ".", "-A", "stdenv"]);
    if request.nix.system == "x86_64-linux" {
        EvalOutcome::Success(format!("{}\n", linux).into_bytes())
    } else {
        match darwin {
            Some(path) => EvalOutcome::Success(format!("{}\n", path).into_bytes()),
            None => EvalOutcome::TimedOut,
        }
    }
}

#[test]
fn a_stand_in_for_the_evaluator_drives_both_phases() {
    let mut stdenv = fresh();

    let linux = canned(&stdenv.request(System::X8664Linux), "/nix/store/aaa-stdenv", None);
    let darwin = canned(&stdenv.request(System::X8664Darwin), "/nix/store/aaa-stdenv", None);
    assert_eq!(darwin, EvalOutcome::TimedOut);
    stdenv.on_target_branch(linux, darwin);

    let linux = canned(
        &stdenv.request(System::X8664Linux),
        "/nix/store/aaa-stdenv",
        Some("/nix/store/ccc-stdenv-darwin"),
    );
    let darwin = canned(
        &stdenv.request(System::X8664Darwin),
        "/nix/store/aaa-stdenv",
        Some("/nix/store/ccc-stdenv-darwin"),
    );
    stdenv.after_merge(linux, darwin);

    assert_eq!(
        stdenv.stdenv(System::X8664Linux, StdenvFrom::After),
        &Some(String::from("/nix/store/aaa-stdenv"))
    );
    assert_eq!(stdenv.stdenv(System::X8664Darwin, StdenvFrom::Before), &None);
    assert_eq!(stdenv.changed(), vec![System::X8664Darwin]);
    assert_eq!(
        stdenv.results(),
        EvaluationResult {
            tags: Some(TagDiff {
                add: vec![String::from("10.rebuild-darwin-stdenv")],
                delete: vec![String::from("10.rebuild-linux-stdenv")],
            }),
        }
    );
}
