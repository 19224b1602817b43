//! End-to-end tests of the boot-arming coordinator: arming, claiming,
//! partial failure, and the registry validation rules.

use hwlender::actions::Action;
use hwlender::errors::BootError;
use hwlender::registry::Machine;
use hwlender::registry::Payload;
use hwlender::state::load_state;
use hwlender::state::State;

fn machine(id: &str, mac: &str) -> Machine {
    Machine {
        id: id.to_owned(),
        mac: mac.to_owned(),
        ipmi: None,
        pre_boot_actions: Vec::new(),
    }
}

fn payload(name: &str, kernel: &str, cmdline: &str) -> Payload {
    Payload {
        name: name.to_owned(),
        kernel: kernel.to_owned(),
        initrd: vec!["initrd.img".to_owned()],
        cmdline: cmdline.to_owned(),
        message: "booting".to_owned(),
    }
}

fn two_machine_state() -> State {
    let machines = vec![
        machine("node1", "aa:bb:cc:dd:ee:ff"),
        machine("node2", "11:22:33:44:55:66"),
    ];
    let payloads = vec![
        payload("ubuntu-installer", "vmlinuz", "quiet"),
        payload("rescue", "vmlinuz-rescue", "single"),
    ];
    load_state(machines, payloads, "ubuntu-installer".to_owned()).expect("unique registry")
}

#[test]
fn trigger_unknown_machine_rejected() {
    let mut state = two_machine_state();
    let r = state.trigger_boot(&"ghost".to_owned(), &"ubuntu-installer".to_owned());
    assert_eq!(r.err(), Some(BootError::UnknownMachine));
    // The table is untouched: nothing resolves.
    assert_eq!(
        state.resolve_boot(&"aa:bb:cc:dd:ee:ff".to_owned()).err(),
        Some(BootError::NotArmed)
    );
    assert!(state.armed_entries().is_empty());
}

#[test]
fn trigger_unknown_payload_rejected() {
    let mut state = two_machine_state();
    let r = state.trigger_boot(&"node1".to_owned(), &"ghost-payload".to_owned());
    assert_eq!(r.err(), Some(BootError::UnknownPayload));
    assert_eq!(
        state.resolve_boot(&"aa:bb:cc:dd:ee:ff".to_owned()).err(),
        Some(BootError::NotArmed)
    );
    assert!(state.armed_entries().is_empty());
}

#[test]
fn trigger_unknown_payload_checked_before_machine() {
    // When both the machine and the payload are unknown, the payload is
    // looked up first and wins.
    let mut state = two_machine_state();
    let r = state.trigger_boot(&"ghost".to_owned(), &"ghost-payload".to_owned());
    assert_eq!(r.err(), Some(BootError::UnknownPayload));
}

#[test]
fn armed_machine_resolves_repeatedly() {
    let mut state = two_machine_state();
    let attempt = state
        .trigger_boot(&"node1".to_owned(), &"ubuntu-installer".to_owned())
        .expect("known machine and payload");
    // The machine has no pre-boot actions, so the attempt is already done.
    assert!(attempt.next_action().is_none());
    assert!(attempt.outcome().is_ok());

    let first = state
        .resolve_boot(&"aa:bb:cc:dd:ee:ff".to_owned())
        .expect("armed")
        .clone();
    assert_eq!(first.name, "ubuntu-installer");
    assert_eq!(first.kernel, "vmlinuz");
    // Claiming is non-destructive: an immediate second call returns the
    // same payload.
    let second = state
        .resolve_boot(&"aa:bb:cc:dd:ee:ff".to_owned())
        .expect("still armed")
        .clone();
    assert_eq!(first, second);
}

#[test]
fn resolve_never_armed_returns_not_armed() {
    let state = two_machine_state();
    assert_eq!(
        state.resolve_boot(&"11:22:33:44:55:66".to_owned()).err(),
        Some(BootError::NotArmed)
    );
}

#[test]
fn rearm_last_write_wins() {
    let mut state = two_machine_state();
    state
        .trigger_boot(&"node1".to_owned(), &"ubuntu-installer".to_owned())
        .expect("first arm");
    state
        .trigger_boot(&"node1".to_owned(), &"rescue".to_owned())
        .expect("re-arm");
    let resolved = state
        .resolve_boot(&"aa:bb:cc:dd:ee:ff".to_owned())
        .expect("armed");
    assert_eq!(resolved.name, "rescue");
    assert_eq!(resolved.kernel, "vmlinuz-rescue");
    // Exactly one entry: the re-arm replaced, it did not add.
    assert_eq!(state.armed_entries().len(), 1);
}

#[test]
fn distinct_machines_do_not_cross() {
    let mut state = two_machine_state();
    state
        .trigger_boot(&"node1".to_owned(), &"ubuntu-installer".to_owned())
        .expect("arm node1");
    state
        .trigger_boot(&"node2".to_owned(), &"rescue".to_owned())
        .expect("arm node2");
    let one = state
        .resolve_boot(&"aa:bb:cc:dd:ee:ff".to_owned())
        .expect("node1 armed");
    assert_eq!(one.name, "ubuntu-installer");
    let two = state
        .resolve_boot(&"11:22:33:44:55:66".to_owned())
        .expect("node2 armed");
    assert_eq!(two.name, "rescue");
}

#[test]
fn failed_action_halts_sequence_and_keeps_arming() {
    let run = |program: &str| Action::RunCommand {
        program: program.to_owned(),
        args: vec![],
    };
    let mut machine = machine("node1", "aa:bb:cc:dd:ee:ff");
    machine.pre_boot_actions = vec![run("first"), run("second"), run("third")];
    let mut state = load_state(
        vec![machine],
        vec![payload("ubuntu-installer", "vmlinuz", "quiet")],
        "ubuntu-installer".to_owned(),
    )
    .expect("unique registry");

    let mut attempt = state
        .trigger_boot(&"node1".to_owned(), &"ubuntu-installer".to_owned())
        .expect("known machine and payload");

    // Drive the attempt the way a runner would, counting what is handed
    // out.  The second action fails; the third must never be invoked.
    let mut invoked: Vec<String> = Vec::new();
    while let Some(action) = attempt.next_action() {
        let Action::RunCommand { program, .. } = action;
        let program = program.clone();
        invoked.push(program.clone());
        if program == "second" {
            attempt.report_failure("exit status 1".to_owned());
        } else {
            attempt.report_success();
        }
    }
    assert_eq!(invoked, vec!["first".to_owned(), "second".to_owned()]);

    match attempt.outcome() {
        Err(BootError::ActionFailed { index, reason }) => {
            assert_eq!(index, 1);
            assert_eq!(reason, "exit status 1");
        }
        other => panic!("expected ActionFailed, got {:?}", other),
    }

    // The arming record was written before the actions ran and survives
    // the failure.
    let resolved = state
        .resolve_boot(&"aa:bb:cc:dd:ee:ff".to_owned())
        .expect("still armed");
    assert_eq!(resolved.name, "ubuntu-installer");
}

#[test]
fn release_disarms() {
    let mut state = two_machine_state();
    state
        .trigger_boot(&"node1".to_owned(), &"ubuntu-installer".to_owned())
        .expect("arm");
    state.release_boot(&"aa:bb:cc:dd:ee:ff".to_owned());
    assert_eq!(
        state.resolve_boot(&"aa:bb:cc:dd:ee:ff".to_owned()).err(),
        Some(BootError::NotArmed)
    );
    // Releasing an unarmed MAC is harmless.
    state.release_boot(&"aa:bb:cc:dd:ee:ff".to_owned());
}

#[test]
fn scenario_node1_ubuntu_installer() {
    let machines = vec![machine("node1", "aa:bb:cc:dd:ee:ff")];
    let payloads = vec![payload("ubuntu-installer", "vmlinuz", "quiet")];
    let mut state =
        load_state(machines, payloads, "ubuntu-installer".to_owned()).expect("unique registry");

    state
        .trigger_boot(&"node1".to_owned(), &"ubuntu-installer".to_owned())
        .expect("arming succeeds");

    let resolved = state
        .resolve_boot(&"aa:bb:cc:dd:ee:ff".to_owned())
        .expect("armed");
    assert_eq!(resolved.kernel, "vmlinuz");
    assert_eq!(resolved.cmdline, "quiet");

    assert_eq!(
        state.resolve_boot(&"00:00:00:00:00:00".to_owned()).err(),
        Some(BootError::NotArmed)
    );
}

#[test]
fn load_state_rejects_duplicate_machine_id() {
    let machines = vec![
        machine("node1", "aa:bb:cc:dd:ee:ff"),
        machine("node1", "11:22:33:44:55:66"),
    ];
    let payloads = vec![payload("ubuntu-installer", "vmlinuz", "quiet")];
    assert!(load_state(machines, payloads, "ubuntu-installer".to_owned()).is_none());
}

#[test]
fn load_state_rejects_duplicate_mac() {
    let machines = vec![
        machine("node1", "aa:bb:cc:dd:ee:ff"),
        machine("node2", "aa:bb:cc:dd:ee:ff"),
    ];
    let payloads = vec![payload("ubuntu-installer", "vmlinuz", "quiet")];
    assert!(load_state(machines, payloads, "ubuntu-installer".to_owned()).is_none());
}

#[test]
fn load_state_rejects_duplicate_payload_name() {
    let machines = vec![machine("node1", "aa:bb:cc:dd:ee:ff")];
    let payloads = vec![
        payload("ubuntu-installer", "vmlinuz", "quiet"),
        payload("ubuntu-installer", "vmlinuz-new", "quiet"),
    ];
    assert!(load_state(machines, payloads, "ubuntu-installer".to_owned()).is_none());
}

#[test]
fn empty_registry_rejects_everything() {
    let mut state =
        load_state(Vec::new(), Vec::new(), "none".to_owned()).expect("empty registry is valid");
    assert_eq!(
        state
            .trigger_boot(&"node1".to_owned(), &"ubuntu-installer".to_owned())
            .err(),
        Some(BootError::UnknownPayload)
    );
    assert_eq!(
        state.resolve_boot(&"aa:bb:cc:dd:ee:ff".to_owned()).err(),
        Some(BootError::NotArmed)
    );
}

#[test]
fn default_payload_is_kept() {
    let state = two_machine_state();
    assert_eq!(state.default_payload(), "ubuntu-installer");
}

#[test]
fn armed_entries_lists_each_armed_machine_once() {
    let mut state = two_machine_state();
    state
        .trigger_boot(&"node1".to_owned(), &"ubuntu-installer".to_owned())
        .expect("arm node1");
    state
        .trigger_boot(&"node2".to_owned(), &"ubuntu-installer".to_owned())
        .expect("arm node2");
    state
        .trigger_boot(&"node1".to_owned(), &"rescue".to_owned())
        .expect("re-arm node1");

    let entries = state.armed_entries();
    assert_eq!(entries.len(), 2);
    let mut macs: Vec<String> = entries.iter().map(|e| e.mac.clone()).collect();
    macs.sort();
    assert_eq!(
        macs,
        vec!["11:22:33:44:55:66".to_owned(), "aa:bb:cc:dd:ee:ff".to_owned()]
    );
    for entry in entries {
        if entry.mac == "aa:bb:cc:dd:ee:ff" {
            assert_eq!(entry.payload_name, "rescue");
        } else {
            assert_eq!(entry.payload_name, "ubuntu-installer");
        }
    }
}
