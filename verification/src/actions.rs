//! Pre-boot actions: side-effecting steps performed when a machine is armed,
//! intended to force it into network-boot mode.
//!
//! An [`Action`] is a closed set of variants; each is independently
//! executable and independently failable.  The coordinator only sequences
//! actions, so adding a variant never touches the sequencing logic.  The
//! surrounding program runs each action (spawning the external program) and
//! reports the outcome back; nothing here performs I/O.

use vstd::prelude::*;

verus! {

/// Credentialed management endpoint of a machine, used for power control
/// over IPMI.
#[derive(Debug, Clone, PartialEq, Eq)]
pub struct Ipmi {
    pub address: String,
    pub username: String,
    pub password: String,
}

/// The mathematical shape of an [`Ipmi`].
#[verifier::ext_equal]
pub struct IpmiV {
    pub address: Seq<char>,
    pub username: Seq<char>,
    pub password: Seq<char>,
}

impl View for Ipmi {
    type V = IpmiV;

    open spec fn view(&self) -> IpmiV {
        IpmiV { address: self.address@, username: self.username@, password: self.password@ }
    }
}

impl DeepView for Ipmi {
    type V = IpmiV;

    open spec fn deep_view(&self) -> IpmiV {
        self.view()
    }
}

/// One side-effecting pre-boot step.
#[derive(Debug, Clone, PartialEq, Eq)]
pub enum Action {
    /// Spawn the external `program` with the given arguments and wait for
    /// exit; a non-zero exit status or a spawn failure are both failures.
    RunCommand { program: String, args: Vec<String> },
}

/// The mathematical shape of an [`Action`].
#[verifier::ext_equal]
pub enum ActionV {
    RunCommand { program: Seq<char>, args: Seq<Seq<char>> },
}

impl View for Action {
    type V = ActionV;

    open spec fn view(&self) -> ActionV {
        match self {
            Action::RunCommand { program, args } => ActionV::RunCommand {
                program: program@,
                args: args.deep_view(),
            },
        }
    }
}

impl DeepView for Action {
    type V = ActionV;

    open spec fn deep_view(&self) -> ActionV {
        self.view()
    }
}

/// Copies a list of strings element for element.
fn copy_strings(src: &Vec<String>) -> (r: Vec<String>)
    ensures
        r.deep_view() == src.deep_view(),
{
    let mut r: Vec<String> = Vec::new();
    let mut i: usize = 0;
    while i < src.len()
        invariant
            i <= src.len(),
            r@.len() == i,
            forall|j: int| 0 <= j < i ==> r@[j] == src@[j],
        decreases src.len() - i,
    {
        r.push(src[i].clone());
        i = i + 1;
    }
    proof {
        assert(r.deep_view() =~= src.deep_view());
    }
    r
}

/// Copies one action.
pub fn copy_action(a: &Action) -> (r: Action)
    ensures
        r@ == a@,
{
    match a {
        Action::RunCommand { program, args } => Action::RunCommand {
            program: program.clone(),
            args: copy_strings(args),
        },
    }
}

/// Copies an ordered action list, preserving the order.
pub fn copy_actions(src: &Vec<Action>) -> (r: Vec<Action>)
    ensures
        r.deep_view() == src.deep_view(),
{
    let mut r: Vec<Action> = Vec::new();
    let mut i: usize = 0;
    while i < src.len()
        invariant
            i <= src.len(),
            r@.len() == i,
            forall|j: int| 0 <= j < i ==> r@[j]@ == src@[j]@,
        decreases src.len() - i,
    {
        r.push(copy_action(&src[i]));
        i = i + 1;
    }
    proof {
        assert(r.deep_view() =~= src.deep_view());
    }
    r
}

/// The arguments common to both IPMI invocations for `endpoint`: transport,
/// privilege level and credentials.
pub open spec fn ipmi_base_args(endpoint: IpmiV) -> Seq<Seq<char>> {
    seq![
        "-I"@,
        "lanplus"@,
        "-L"@,
        "OPERATOR"@,
        "-H"@,
        endpoint.address,
        "-U"@,
        endpoint.username,
        "-P"@,
        endpoint.password,
    ]
}

/// The two pre-boot actions derived from a management endpoint: set the next
/// boot device to PXE, then reset power.  The order matters; the power reset
/// must come second.
pub open spec fn ipmi_boot_actions_spec(endpoint: IpmiV) -> Seq<ActionV> {
    seq![
        ActionV::RunCommand {
            program: "ipmitool"@,
            args: ipmi_base_args(endpoint) + seq!["chassis"@, "bootdev"@, "pxe"@],
        },
        ActionV::RunCommand {
            program: "ipmitool"@,
            args: ipmi_base_args(endpoint) + seq!["chassis"@, "power"@, "reset"@],
        },
    ]
}

/// Builds the argument list shared by both IPMI invocations.
fn ipmi_exec_base_args(endpoint: &Ipmi) -> (r: Vec<String>)
    ensures
        r.deep_view() == ipmi_base_args(endpoint@),
{
    let mut args: Vec<String> = Vec::new();
    args.push("-I".to_owned());
    args.push("lanplus".to_owned());
    args.push("-L".to_owned());
    args.push("OPERATOR".to_owned());
    args.push("-H".to_owned());
    args.push(endpoint.address.clone());
    args.push("-U".to_owned());
    args.push(endpoint.username.clone());
    args.push("-P".to_owned());
    args.push(endpoint.password.clone());
    proof {
        assert(args.deep_view() =~~= ipmi_base_args(endpoint@));
    }
    args
}

/// The ordered pre-boot actions for a machine managed over IPMI: force the
/// next boot to PXE, then power-cycle.
pub fn ipmi_boot_actions(endpoint: &Ipmi) -> (r: Vec<Action>)
    ensures
        r.deep_view() == ipmi_boot_actions_spec(endpoint@),
{
    let mut bootdev_args = ipmi_exec_base_args(endpoint);
    bootdev_args.push("chassis".to_owned());
    bootdev_args.push("bootdev".to_owned());
    bootdev_args.push("pxe".to_owned());

    let mut reset_args = ipmi_exec_base_args(endpoint);
    reset_args.push("chassis".to_owned());
    reset_args.push("power".to_owned());
    reset_args.push("reset".to_owned());

    let mut r: Vec<Action> = Vec::new();
    r.push(Action::RunCommand { program: "ipmitool".to_owned(), args: bootdev_args });
    r.push(Action::RunCommand { program: "ipmitool".to_owned(), args: reset_args });
    proof {
        assert(r.deep_view() =~~= ipmi_boot_actions_spec(endpoint@));
    }
    r
}

} // verus!
