//! Tests of the pre-boot action builder and the attempt sequencing type.

use hwlender::actions::ipmi_boot_actions;
use hwlender::actions::Action;
use hwlender::actions::Ipmi;
use hwlender::attempt::BootAttempt;
use hwlender::errors::BootError;

#[test]
fn ipmi_boot_actions_exact() {
    let endpoint = Ipmi {
        address: "10.0.0.9".to_owned(),
        username: "admin".to_owned(),
        password: "SECRET-REDACTED".to_owned(),
    };
    let actions = ipmi_boot_actions(&endpoint);
    assert_eq!(actions.len(), 2);

    let base = vec![
        "-I",
        "lanplus",
        "-L",
        "OPERATOR",
        "-H",
        "10.0.0.9",
        "-U",
        "admin",
        "-P",
        "SECRET-REDACTED",
    ];

    let Action::RunCommand { program, args } = &actions[0];
    assert_eq!(program, "ipmitool");
    let mut expected: Vec<String> = base.iter().map(|s| s.to_string()).collect();
    expected.extend(["chassis", "bootdev", "pxe"].iter().map(|s| s.to_string()));
    assert_eq!(args, &expected);

    let Action::RunCommand { program, args } = &actions[1];
    assert_eq!(program, "ipmitool");
    let mut expected: Vec<String> = base.iter().map(|s| s.to_string()).collect();
    expected.extend(["chassis", "power", "reset"].iter().map(|s| s.to_string()));
    assert_eq!(args, &expected);
}

#[test]
fn attempt_walks_actions_in_order() {
    let run = |program: &str| Action::RunCommand {
        program: program.to_owned(),
        args: vec![],
    };
    let mut attempt = BootAttempt::new(vec![run("one"), run("two")]);

    let Action::RunCommand { program, .. } = attempt.next_action().expect("first action");
    assert_eq!(program, "one");
    attempt.report_success();

    let Action::RunCommand { program, .. } = attempt.next_action().expect("second action");
    assert_eq!(program, "two");
    attempt.report_success();

    assert!(attempt.next_action().is_none());
    assert!(attempt.outcome().is_ok());
}

#[test]
fn attempt_with_no_actions_is_done_and_ok() {
    let attempt = BootAttempt::new(Vec::new());
    assert!(attempt.next_action().is_none());
    assert!(attempt.outcome().is_ok());
}

#[test]
fn attempt_failure_reports_index_and_reason() {
    let run = |program: &str| Action::RunCommand {
        program: program.to_owned(),
        args: vec![],
    };
    let mut attempt = BootAttempt::new(vec![run("one"), run("two"), run("three")]);
    attempt.report_success();
    attempt.report_failure("spawn failed".to_owned());
    assert!(attempt.next_action().is_none());
    match attempt.outcome() {
        Err(BootError::ActionFailed { index, reason }) => {
            assert_eq!(index, 1);
            assert_eq!(reason, "spawn failed");
        }
        other => panic!("expected ActionFailed, got {:?}", other),
    }
}
