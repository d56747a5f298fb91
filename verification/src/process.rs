//! The wipe procedure as a fixed table: for each stage, the transitions that
//! leave it. The same procedure can be had as the states of a graph, one state
//! for each stage, to be merged like any fragment.

use crate::action::{
    actions_view, clone_actions, lemma_repeat_view, Action, ActionView, DeviceInfoArg, TimeSpan,
};
use crate::data_structure::{
    transitions_view, StateMachineMergeMode, StateMachineState, StateMachineTransition, StateMap,
    StateView, TransitionView, TriggerView,
};
use crate::devinfo::{DeviceFact, DeviceInformation, DeviceInformationKind};
use crate::pfunc::ProcessFunction;
use crate::stages::ProcessStage;
use crate::state::Graph;
use crate::status::PortJobStatus;
use crate::trigger::StateCondition;
use vstd::prelude::*;
use vstd::string::*;

verus! {

/// One line of the table: when `condition` holds, perform `actions` and go to
/// `target_state`.
#[derive(Debug, PartialEq)]
pub struct StateTransition {
    pub target_state: ProcessStage,
    pub actions: Vec<Action>,
    pub condition: StateCondition,
}

/// The mathematical value of a `StateTransition`.
pub struct StateTransitionView {
    pub target_state: ProcessStage,
    pub actions: Seq<ActionView>,
    pub condition: TriggerView,
}

impl View for StateTransition {
    type V = StateTransitionView;

    open spec fn view(&self) -> StateTransitionView {
        StateTransitionView {
            target_state: self.target_state,
            actions: actions_view(self.actions@),
            condition: self.condition@,
        }
    }
}

/// The values of a list of lines, in order.
pub open spec fn steps_view(ts: Seq<StateTransition>) -> Seq<StateTransitionView> {
    Seq::new(ts.len(), |i: int| ts[i]@)
}

/// The action that records the flag of the kind `kind`.
pub open spec fn flag(kind: DeviceInformationKind) -> ActionView {
    ActionView::AddDeviceInfo(DeviceFact { kind, text: Seq::empty() })
}

/// The action that records the fact `info`.
fn note(info: DeviceInformation) -> (r: Action)
    ensures
        r@ == ActionView::AddDeviceInfo(info@),
{
    Action::AddDeviceInfo(DeviceInfoArg::WithArgument(info))
}

/// The action that repeats `actions` `times` times over.
fn repeat(actions: Vec<Action>, times: usize) -> (r: Action)
    ensures
        r@ == (ActionView::Repeat { actions: actions_view(actions@), times: times as nat }),
{
    proof {
        lemma_repeat_view(actions, times);
    }
    Action::Repeat { actions, times }
}

fn none() -> (r: Vec<Action>)
    ensures
        actions_view(r@) == Seq::<ActionView>::empty(),
{
    let v: Vec<Action> = Vec::new();
    assert(actions_view(v@) =~= Seq::<ActionView>::empty());
    v
}

fn one(a: Action) -> (r: Vec<Action>)
    ensures
        actions_view(r@) == seq![a@],
{
    let mut v: Vec<Action> = Vec::new();
    v.push(a);
    assert(actions_view(v@) =~= seq![a@]);
    v
}

fn two(a: Action, b: Action) -> (r: Vec<Action>)
    ensures
        actions_view(r@) == seq![a@, b@],
{
    let mut v: Vec<Action> = Vec::new();
    v.push(a);
    v.push(b);
    assert(actions_view(v@) =~= seq![a@, b@]);
    v
}

fn three(a: Action, b: Action, c: Action) -> (r: Vec<Action>)
    ensures
        actions_view(r@) == seq![a@, b@, c@],
{
    let mut v: Vec<Action> = Vec::new();
    v.push(a);
    v.push(b);
    v.push(c);
    assert(actions_view(v@) =~= seq![a@, b@, c@]);
    v
}

fn four(a: Action, b: Action, c: Action, d: Action) -> (r: Vec<Action>)
    ensures
        actions_view(r@) == seq![a@, b@, c@, d@],
{
    let mut v: Vec<Action> = Vec::new();
    v.push(a);
    v.push(b);
    v.push(c);
    v.push(d);
    assert(actions_view(v@) =~= seq![a@, b@, c@, d@]);
    v
}

fn five(a: Action, b: Action, c: Action, d: Action, e: Action) -> (r: Vec<Action>)
    ensures
        actions_view(r@) == seq![a@, b@, c@, d@, e@],
{
    let mut v: Vec<Action> = Vec::new();
    v.push(a);
    v.push(b);
    v.push(c);
    v.push(d);
    v.push(e);
    assert(actions_view(v@) =~= seq![a@, b@, c@, d@, e@]);
    v
}

fn on_string(target: ProcessStage, text: &str, actions: Vec<Action>) -> (r: StateTransition)
    ensures
        r@ == (StateTransitionView {
            target_state: target,
            actions: actions_view(actions@),
            condition: TriggerView::String { string: text@ },
        }),
{
    StateTransition {
        target_state: target,
        actions,
        condition: StateCondition::WaitForString(String::from_str(text)),
    }
}

fn on_regex(target: ProcessStage, pattern: &str, actions: Vec<Action>) -> (r: StateTransition)
    ensures
        r@ == (StateTransitionView {
            target_state: target,
            actions: actions_view(actions@),
            condition: TriggerView::Regex { regex: pattern@ },
        }),
{
    StateTransition {
        target_state: target,
        actions,
        condition: StateCondition::WaitForRegex(String::from_str(pattern)),
    }
}

fn at_once(target: ProcessStage, actions: Vec<Action>) -> (r: StateTransition)
    ensures
        r@ == (StateTransitionView {
            target_state: target,
            actions: actions_view(actions@),
            condition: TriggerView::Immediate,
        }),
{
    StateTransition { target_state: target, actions, condition: StateCondition::Immediate }
}

impl ProcessStage {
    /// The transitions that leave the stage, in the order in which they are
    /// tried.
    pub open spec fn table(self) -> Seq<StateTransitionView> {
        match self {
            ProcessStage::Init => init_table(),
            ProcessStage::SwitchDetect => switch_detect_table(),
            ProcessStage::JunosWaitForBootloader => junos_wait_for_bootloader_table(),
            ProcessStage::JunosWaitForBootloader2 => junos_wait_for_bootloader2_table(),
            ProcessStage::JunosWaitForBootloader3 => junos_wait_for_bootloader3_table(),
            ProcessStage::JunosWaitForBootloader4 => junos_wait_for_bootloader4_table(),
            ProcessStage::JunosEnterSingleUserMode => junos_enter_single_user_mode_table(),
            ProcessStage::JunosAwaitBoot => junos_await_boot_table(),
            ProcessStage::JunosAwaitRecoveryShell => junos_await_recovery_shell_table(),
            ProcessStage::JunosAnswerZeroize => junos_answer_zeroize_table(),
            ProcessStage::JunosAwaitZeroizeFinish => junos_await_zeroize_finish_table(),
            ProcessStage::JunosLogin => junos_login_table(),
            ProcessStage::JunosHappyCli => junos_happy_cli_table(),
            ProcessStage::JunosBackupImageCli => junos_backup_image_cli_table(),
            ProcessStage::JunosBackupImageCli2 => junos_backup_image_cli2_table(),
            ProcessStage::JunosBackupImageCli3 => junos_backup_image_cli3_table(),
            ProcessStage::JunosBackupImageCli4 => junos_backup_image_cli4_table(),
            ProcessStage::JunosAwaitBackupImageCliRecoveryFinish => junos_await_backup_image_cli_recovery_finish_table(),
            ProcessStage::JunosVersionOutput => junos_version_output_table(),
            ProcessStage::JunosChassisOutput => junos_chassis_output_table(),
            ProcessStage::JunosPoweroffConfirm => junos_poweroff_confirm_table(),
            ProcessStage::JunosWaitForPoweroff => junos_wait_for_poweroff_table(),
            ProcessStage::AristaWaitForBootloader => arista_wait_for_bootloader_table(),
            ProcessStage::AristaWipeStartupConfig => arista_wipe_startup_config_table(),
            ProcessStage::AristaRebootAfterStartupConfigWipe => arista_reboot_after_startup_config_wipe_table(),
            ProcessStage::AristaWaitForReboot => arista_wait_for_reboot_table(),
            ProcessStage::AristaLoggingIn => arista_logging_in_table(),
            ProcessStage::AristaVersionOutput => arista_version_output_table(),
            ProcessStage::Junos23WaitForBootloader => junos23_wait_for_bootloader_table(),
            ProcessStage::Junos23Bootloader1 => junos23_bootloader1_table(),
            ProcessStage::Junos23Bootloader2 => junos23_bootloader2_table(),
            ProcessStage::Junos23AwaitRecoveryShell => junos23_await_recovery_shell_table(),
            ProcessStage::Junos23AnswerZeroize => junos23_answer_zeroize_table(),
            ProcessStage::Junos23AwaitZeroizeFinish => junos23_await_zeroize_finish_table(),
            ProcessStage::Junos23AwaitZeroizeFinish2 => junos23_await_zeroize_finish2_table(),
            ProcessStage::EndJob => end_job_table(),
        }
    }

    /// The transitions that leave the stage, in the order in which they are
    /// tried.
    pub fn get_transitions(&self) -> (r: Vec<StateTransition>)
        ensures
            steps_view(r@) == self.table(),
    {
        match self {
            ProcessStage::Init => init(),
            ProcessStage::SwitchDetect => switch_detect(),
            ProcessStage::JunosWaitForBootloader => junos_wait_for_bootloader(),
            ProcessStage::JunosWaitForBootloader2 => junos_wait_for_bootloader2(),
            ProcessStage::JunosWaitForBootloader3 => junos_wait_for_bootloader3(),
            ProcessStage::JunosWaitForBootloader4 => junos_wait_for_bootloader4(),
            ProcessStage::JunosEnterSingleUserMode => junos_enter_single_user_mode(),
            ProcessStage::JunosAwaitBoot => junos_await_boot(),
            ProcessStage::JunosAwaitRecoveryShell => junos_await_recovery_shell(),
            ProcessStage::JunosAnswerZeroize => junos_answer_zeroize(),
            ProcessStage::JunosAwaitZeroizeFinish => junos_await_zeroize_finish(),
            ProcessStage::JunosLogin => junos_login(),
            ProcessStage::JunosHappyCli => junos_happy_cli(),
            ProcessStage::JunosBackupImageCli => junos_backup_image_cli(),
            ProcessStage::JunosBackupImageCli2 => junos_backup_image_cli2(),
            ProcessStage::JunosBackupImageCli3 => junos_backup_image_cli3(),
            ProcessStage::JunosBackupImageCli4 => junos_backup_image_cli4(),
            ProcessStage::JunosAwaitBackupImageCliRecoveryFinish => junos_await_backup_image_cli_recovery_finish(),
            ProcessStage::JunosVersionOutput => junos_version_output(),
            ProcessStage::JunosChassisOutput => junos_chassis_output(),
            ProcessStage::JunosPoweroffConfirm => junos_poweroff_confirm(),
            ProcessStage::JunosWaitForPoweroff => junos_wait_for_poweroff(),
            ProcessStage::AristaWaitForBootloader => arista_wait_for_bootloader(),
            ProcessStage::AristaWipeStartupConfig => arista_wipe_startup_config(),
            ProcessStage::AristaRebootAfterStartupConfigWipe => arista_reboot_after_startup_config_wipe(),
            ProcessStage::AristaWaitForReboot => arista_wait_for_reboot(),
            ProcessStage::AristaLoggingIn => arista_logging_in(),
            ProcessStage::AristaVersionOutput => arista_version_output(),
            ProcessStage::Junos23WaitForBootloader => junos23_wait_for_bootloader(),
            ProcessStage::Junos23Bootloader1 => junos23_bootloader1(),
            ProcessStage::Junos23Bootloader2 => junos23_bootloader2(),
            ProcessStage::Junos23AwaitRecoveryShell => junos23_await_recovery_shell(),
            ProcessStage::Junos23AnswerZeroize => junos23_answer_zeroize(),
            ProcessStage::Junos23AwaitZeroizeFinish => junos23_await_zeroize_finish(),
            ProcessStage::Junos23AwaitZeroizeFinish2 => junos23_await_zeroize_finish2(),
            ProcessStage::EndJob => end_job(),
        }
    }
}

/// The transitions that leave `Init`.
pub open spec fn init_table() -> Seq<StateTransitionView> {
    seq![
        StateTransitionView {
            target_state: ProcessStage::SwitchDetect,
            actions: seq![
                ActionView::SetupJob,
            ],
            condition: TriggerView::Immediate,
        },
    ]
}

fn init() -> (r: Vec<StateTransition>)
    ensures
        steps_view(r@) == init_table(),
{
    let mut v: Vec<StateTransition> = Vec::new();
    v.push(at_once(ProcessStage::SwitchDetect, one(Action::SetupJob)));
    assert(steps_view(v@) =~= init_table());
    v
}

/// The transitions that leave `SwitchDetect`.
pub open spec fn switch_detect_table() -> Seq<StateTransitionView> {
    seq![
        StateTransitionView {
            target_state: ProcessStage::JunosWaitForBootloader,
            actions: seq![
                ActionView::UpdatePortStatus { status: PortJobStatus::Busy },
            ],
            condition: TriggerView::String { string: "U-Boot 1.1"@ },
        },
        StateTransitionView {
            target_state: ProcessStage::Junos23WaitForBootloader,
            actions: seq![
                ActionView::UpdatePortStatus { status: PortJobStatus::Busy },
            ],
            condition: TriggerView::String { string: "Booting from Flash A"@ },
        },
        StateTransitionView {
            target_state: ProcessStage::Junos23WaitForBootloader,
            actions: seq![
                ActionView::UpdatePortStatus { status: PortJobStatus::Busy },
            ],
            condition: TriggerView::String { string: "Primary BIOS version CDEN_P_EX1"@ },
        },
        StateTransitionView {
            target_state: ProcessStage::Junos23WaitForBootloader,
            actions: seq![
                ActionView::UpdatePortStatus { status: PortJobStatus::Busy },
            ],
            condition: TriggerView::String { string: "U-Boot 2016"@ },
        },
        StateTransitionView {
            target_state: ProcessStage::Junos23WaitForBootloader,
            actions: seq![
                ActionView::UpdatePortStatus { status: PortJobStatus::Busy },
            ],
            condition: TriggerView::String { string: "Juniper U-Boot Script File"@ },
        },
        StateTransitionView {
            target_state: ProcessStage::Junos23WaitForBootloader,
            actions: seq![
                ActionView::UpdatePortStatus { status: PortJobStatus::Busy },
            ],
            condition: TriggerView::String { string: "U-Boot 2021"@ },
        },
        StateTransitionView {
            target_state: ProcessStage::Junos23WaitForBootloader,
            actions: seq![
                ActionView::UpdatePortStatus { status: PortJobStatus::Busy },
            ],
            condition: TriggerView::String { string: "Juniper Linux"@ },
        },
        StateTransitionView {
            target_state: ProcessStage::AristaWaitForBootloader,
            actions: seq![
                ActionView::UpdatePortStatus { status: PortJobStatus::Busy },
            ],
            condition: TriggerView::String { string: "Aboot"@ },
        },
        StateTransitionView {
            target_state: ProcessStage::SwitchDetect,
            actions: seq![
                ActionView::SendLine { line: "E"@ },
            ],
            condition: TriggerView::String { string: "A non-empty Data Buffering File was found."@ },
        },
    ]
}

fn switch_detect() -> (r: Vec<StateTransition>)
    ensures
        steps_view(r@) == switch_detect_table(),
{
    let mut v: Vec<StateTransition> = Vec::new();
    v.push(on_string(ProcessStage::JunosWaitForBootloader, "U-Boot 1.1", one(Action::UpdatePortStatus { status: PortJobStatus::Busy })));
    v.push(on_string(ProcessStage::Junos23WaitForBootloader, "Booting from Flash A", one(Action::UpdatePortStatus { status: PortJobStatus::Busy })));
    v.push(on_string(ProcessStage::Junos23WaitForBootloader, "Primary BIOS version CDEN_P_EX1", one(Action::UpdatePortStatus { status: PortJobStatus::Busy })));
    v.push(on_string(ProcessStage::Junos23WaitForBootloader, "U-Boot 2016", one(Action::UpdatePortStatus { status: PortJobStatus::Busy })));
    v.push(on_string(ProcessStage::Junos23WaitForBootloader, "Juniper U-Boot Script File", one(Action::UpdatePortStatus { status: PortJobStatus::Busy })));
    v.push(on_string(ProcessStage::Junos23WaitForBootloader, "U-Boot 2021", one(Action::UpdatePortStatus { status: PortJobStatus::Busy })));
    v.push(on_string(ProcessStage::Junos23WaitForBootloader, "Juniper Linux", one(Action::UpdatePortStatus { status: PortJobStatus::Busy })));
    v.push(on_string(ProcessStage::AristaWaitForBootloader, "Aboot", one(Action::UpdatePortStatus { status: PortJobStatus::Busy })));
    v.push(on_string(ProcessStage::SwitchDetect, "A non-empty Data Buffering File was found.", one(Action::SendLine { line: String::from_str("E") })));
    assert(steps_view(v@) =~= switch_detect_table());
    v
}

/// The transitions that leave `JunosWaitForBootloader`.
pub open spec fn junos_wait_for_bootloader_table() -> Seq<StateTransitionView> {
    seq![
        StateTransitionView {
            target_state: ProcessStage::JunosWaitForBootloader2,
            actions: seq![
                ActionView::SendControl { char: 'c' },
            ],
            condition: TriggerView::String { string: "scanning bus for devices"@ },
        },
    ]
}

fn junos_wait_for_bootloader() -> (r: Vec<StateTransition>)
    ensures
        steps_view(r@) == junos_wait_for_bootloader_table(),
{
    let mut v: Vec<StateTransition> = Vec::new();
    v.push(on_string(ProcessStage::JunosWaitForBootloader2, "scanning bus for devices", one(Action::SendControl { char: 'c' })));
    assert(steps_view(v@) =~= junos_wait_for_bootloader_table());
    v
}

/// The transitions that leave `JunosWaitForBootloader2`.
pub open spec fn junos_wait_for_bootloader2_table() -> Seq<StateTransitionView> {
    seq![
        StateTransitionView {
            target_state: ProcessStage::JunosWaitForBootloader3,
            actions: seq![
                ActionView::SendLine { line: "setenv boot_unattended"@ },
            ],
            condition: TriggerView::String { string: "=>"@ },
        },
    ]
}

fn junos_wait_for_bootloader2() -> (r: Vec<StateTransition>)
    ensures
        steps_view(r@) == junos_wait_for_bootloader2_table(),
{
    let mut v: Vec<StateTransition> = Vec::new();
    v.push(on_string(ProcessStage::JunosWaitForBootloader3, "=>", one(Action::SendLine { line: String::from_str("setenv boot_unattended") })));
    assert(steps_view(v@) =~= junos_wait_for_bootloader2_table());
    v
}

/// The transitions that leave `JunosWaitForBootloader3`.
pub open spec fn junos_wait_for_bootloader3_table() -> Seq<StateTransitionView> {
    seq![
        StateTransitionView {
            target_state: ProcessStage::JunosWaitForBootloader4,
            actions: seq![
                ActionView::SendLine { line: "boot"@ },
            ],
            condition: TriggerView::String { string: "=>"@ },
        },
    ]
}

fn junos_wait_for_bootloader3() -> (r: Vec<StateTransition>)
    ensures
        steps_view(r@) == junos_wait_for_bootloader3_table(),
{
    let mut v: Vec<StateTransition> = Vec::new();
    v.push(on_string(ProcessStage::JunosWaitForBootloader4, "=>", one(Action::SendLine { line: String::from_str("boot") })));
    assert(steps_view(v@) =~= junos_wait_for_bootloader3_table());
    v
}

/// The transitions that leave `JunosWaitForBootloader4`.
pub open spec fn junos_wait_for_bootloader4_table() -> Seq<StateTransitionView> {
    seq![
        StateTransitionView {
            target_state: ProcessStage::JunosEnterSingleUserMode,
            actions: seq![
                ActionView::Repeat { actions: seq![ActionView::Send { text: " "@ }, ActionView::Flush], times: 10 },
            ],
            condition: TriggerView::String { string: "space bar for command prompt"@ },
        },
    ]
}

fn junos_wait_for_bootloader4() -> (r: Vec<StateTransition>)
    ensures
        steps_view(r@) == junos_wait_for_bootloader4_table(),
{
    let mut v: Vec<StateTransition> = Vec::new();
    v.push(on_string(ProcessStage::JunosEnterSingleUserMode, "space bar for command prompt", one(repeat(two(Action::Send { text: String::from_str(" ") }, Action::Flush), 10))));
    assert(steps_view(v@) =~= junos_wait_for_bootloader4_table());
    v
}

/// The transitions that leave `JunosEnterSingleUserMode`.
pub open spec fn junos_enter_single_user_mode_table() -> Seq<StateTransitionView> {
    seq![
        StateTransitionView {
            target_state: ProcessStage::JunosAwaitBoot,
            actions: seq![
                ActionView::Repeat { actions: seq![ActionView::SendControl { char: 'h' }, ActionView::Flush], times: 10 },
                ActionView::SendLine { line: ""@ },
                ActionView::SendLine { line: "boot -s"@ },
            ],
            condition: TriggerView::String { string: "loader>"@ },
        },
    ]
}

fn junos_enter_single_user_mode() -> (r: Vec<StateTransition>)
    ensures
        steps_view(r@) == junos_enter_single_user_mode_table(),
{
    let mut v: Vec<StateTransition> = Vec::new();
    v.push(on_string(ProcessStage::JunosAwaitBoot, "loader>", three(repeat(two(Action::SendControl { char: 'h' }, Action::Flush), 10), Action::SendLine { line: String::from_str("") }, Action::SendLine { line: String::from_str("boot -s") })));
    assert(steps_view(v@) =~= junos_enter_single_user_mode_table());
    v
}

/// The transitions that leave `JunosAwaitBoot`.
pub open spec fn junos_await_boot_table() -> Seq<StateTransitionView> {
    seq![
        StateTransitionView {
            target_state: ProcessStage::JunosWaitForBootloader,
            actions: seq![
                flag(DeviceInformationKind::BootLoop),
                ActionView::UpdatePortStatus { status: PortJobStatus::Busy },
            ],
            condition: TriggerView::String { string: "U-Boot 1.1"@ },
        },
        StateTransitionView {
            target_state: ProcessStage::JunosAwaitRecoveryShell,
            actions: seq![
                ActionView::SendLine { line: "recovery"@ },
            ],
            condition: TriggerView::String { string: "Enter full pathname of shell or 'recovery' for root password recovery or RETURN for /bin/sh:"@ },
        },
        StateTransitionView {
            target_state: ProcessStage::JunosAwaitBoot,
            actions: seq![
                flag(DeviceInformationKind::SCSIErrors),
            ],
            condition: TriggerView::String { string: "SCSI Status"@ },
        },
    ]
}

fn junos_await_boot() -> (r: Vec<StateTransition>)
    ensures
        steps_view(r@) == junos_await_boot_table(),
{
    let mut v: Vec<StateTransition> = Vec::new();
    v.push(on_string(ProcessStage::JunosWaitForBootloader, "U-Boot 1.1", two(note(DeviceInformation::BootLoop), Action::UpdatePortStatus { status: PortJobStatus::Busy })));
    v.push(on_string(ProcessStage::JunosAwaitRecoveryShell, "Enter full pathname of shell or 'recovery' for root password recovery or RETURN for /bin/sh:", one(Action::SendLine { line: String::from_str("recovery") })));
    v.push(on_string(ProcessStage::JunosAwaitBoot, "SCSI Status", one(note(DeviceInformation::SCSIErrors))));
    assert(steps_view(v@) =~= junos_await_boot_table());
    v
}

/// The transitions that leave `JunosAwaitRecoveryShell`.
pub open spec fn junos_await_recovery_shell_table() -> Seq<StateTransitionView> {
    seq![
        StateTransitionView {
            target_state: ProcessStage::JunosAwaitRecoveryShell,
            actions: seq![
                flag(DeviceInformationKind::SCSIErrors),
            ],
            condition: TriggerView::String { string: "SCSI Status"@ },
        },
        StateTransitionView {
            target_state: ProcessStage::EndJob,
            actions: seq![
                flag(DeviceInformationKind::FailedToEnterSingleUserMode),
            ],
            condition: TriggerView::String { string: "CLI invocation failed"@ },
        },
        StateTransitionView {
            target_state: ProcessStage::JunosAnswerZeroize,
            actions: seq![
                ActionView::Delay { duration: TimeSpan { secs: 3, nanos: 0 } },
                ActionView::SendLine { line: "request system zeroize"@ },
            ],
            condition: TriggerView::Regex { regex: r"\{[a-z0-9]+:0\}"@ },
        },
        StateTransitionView {
            target_state: ProcessStage::JunosWaitForBootloader,
            actions: seq![
                ActionView::SendLine { line: "shell"@ },
                ActionView::Function { func: ProcessFunction::FixFS },
                ActionView::Delay { duration: TimeSpan { secs: 3, nanos: 0 } },
            ],
            condition: TriggerView::String { string: "error: filesystem consistency checks (fsck -p -y) failed"@ },
        },
    ]
}

fn junos_await_recovery_shell() -> (r: Vec<StateTransition>)
    ensures
        steps_view(r@) == junos_await_recovery_shell_table(),
{
    let mut v: Vec<StateTransition> = Vec::new();
    v.push(on_string(ProcessStage::JunosAwaitRecoveryShell, "SCSI Status", one(note(DeviceInformation::SCSIErrors))));
    v.push(on_string(ProcessStage::EndJob, "CLI invocation failed", one(note(DeviceInformation::FailedToEnterSingleUserMode))));
    v.push(on_regex(ProcessStage::JunosAnswerZeroize, r"\{[a-z0-9]+:0\}", two(Action::Delay { duration: TimeSpan { secs: 3, nanos: 0 } }, Action::SendLine { line: String::from_str("request system zeroize") })));
    v.push(on_string(ProcessStage::JunosWaitForBootloader, "error: filesystem consistency checks (fsck -p -y) failed", three(Action::SendLine { line: String::from_str("shell") }, Action::Function { func: ProcessFunction::FixFS }, Action::Delay { duration: TimeSpan { secs: 3, nanos: 0 } })));
    assert(steps_view(v@) =~= junos_await_recovery_shell_table());
    v
}

/// The transitions that leave `JunosAnswerZeroize`.
pub open spec fn junos_answer_zeroize_table() -> Seq<StateTransitionView> {
    seq![
        StateTransitionView {
            target_state: ProcessStage::JunosAwaitZeroizeFinish,
            actions: seq![
                ActionView::SendLine { line: "yes"@ },
            ],
            condition: TriggerView::String { string: "Erase all data, including configuration and log files? [yes,no] (no)"@ },
        },
    ]
}

fn junos_answer_zeroize() -> (r: Vec<StateTransition>)
    ensures
        steps_view(r@) == junos_answer_zeroize_table(),
{
    let mut v: Vec<StateTransition> = Vec::new();
    v.push(on_string(ProcessStage::JunosAwaitZeroizeFinish, "Erase all data, including configuration and log files? [yes,no] (no)", one(Action::SendLine { line: String::from_str("yes") })));
    assert(steps_view(v@) =~= junos_answer_zeroize_table());
    v
}

/// The transitions that leave `JunosAwaitZeroizeFinish`.
pub open spec fn junos_await_zeroize_finish_table() -> Seq<StateTransitionView> {
    seq![
        StateTransitionView {
            target_state: ProcessStage::JunosLogin,
            actions: seq![
                ActionView::SendLine { line: "root"@ },
            ],
            condition: TriggerView::String { string: "login:"@ },
        },
        StateTransitionView {
            target_state: ProcessStage::JunosAwaitZeroizeFinish,
            actions: seq![
                flag(DeviceInformationKind::UnableToLoadAKernel),
            ],
            condition: TriggerView::String { string: "Unable to load a kernel!"@ },
        },
    ]
}

fn junos_await_zeroize_finish() -> (r: Vec<StateTransition>)
    ensures
        steps_view(r@) == junos_await_zeroize_finish_table(),
{
    let mut v: Vec<StateTransition> = Vec::new();
    v.push(on_string(ProcessStage::JunosLogin, "login:", one(Action::SendLine { line: String::from_str("root") })));
    v.push(on_string(ProcessStage::JunosAwaitZeroizeFinish, "Unable to load a kernel!", one(note(DeviceInformation::UnableToLoadAKernel))));
    assert(steps_view(v@) =~= junos_await_zeroize_finish_table());
    v
}

/// The transitions that leave `JunosLogin`.
pub open spec fn junos_login_table() -> Seq<StateTransitionView> {
    seq![
        StateTransitionView {
            target_state: ProcessStage::JunosHappyCli,
            actions: seq![
                ActionView::SendLine { line: "echo \"y\" | crontab -r"@ },
                ActionView::SendLine { line: "rm -rfv /var/tmp/autoreload.* /tmp/autoreload.* /var/core/core.* /var/log/* /var/tmp/*"@ },
                ActionView::SendLine { line: "cli"@ },
            ],
            condition: TriggerView::String { string: "root@:RE:0%"@ },
        },
        StateTransitionView {
            target_state: ProcessStage::JunosHappyCli,
            actions: seq![
                flag(DeviceInformationKind::KeptHostname),
                ActionView::SendLine { line: "echo \"y\" | crontab -r"@ },
                ActionView::SendLine { line: "rm -rfv /var/tmp/autoreload.* /tmp/autoreload.* /var/core/core.* /var/log/* /var/tmp/*"@ },
                ActionView::SendLine { line: "cli"@ },
            ],
            condition: TriggerView::Regex { regex: r"root@[A-Za-z0-9\-]+:RE:0%"@ },
        },
        StateTransitionView {
            target_state: ProcessStage::JunosHappyCli,
            actions: seq![
                flag(DeviceInformationKind::StrangeCLIPrompt),
                ActionView::SendLine { line: "echo \"y\" | crontab -r"@ },
                ActionView::SendLine { line: "rm -rfv /var/tmp/autoreload.* /tmp/autoreload.* /var/core/core.* /var/log/* /var/tmp/*"@ },
                ActionView::SendLine { line: "cli"@ },
            ],
            condition: TriggerView::String { string: "root@:LC:0%"@ },
        },
        StateTransitionView {
            target_state: ProcessStage::JunosHappyCli,
            actions: seq![
                flag(DeviceInformationKind::KeptHostname),
                flag(DeviceInformationKind::StrangeCLIPrompt),
                ActionView::SendLine { line: "echo \"y\" | crontab -r"@ },
                ActionView::SendLine { line: "rm -rfv /var/tmp/autoreload.* /tmp/autoreload.* /var/core/core.* /var/log/* /var/tmp/*"@ },
                ActionView::SendLine { line: "cli"@ },
            ],
            condition: TriggerView::Regex { regex: r"root@[A-Za-z0-9\-]+:LC:0%"@ },
        },
        StateTransitionView {
            target_state: ProcessStage::JunosBackupImageCli,
            actions: seq![
                ActionView::SendLine { line: "echo \"y\" | crontab -r"@ },
                ActionView::SendLine { line: "rm -rfv /var/tmp/autoreload.* /tmp/autoreload.* /var/core/core.*  /var/log/* /var/tmp/*"@ },
                ActionView::SendLine { line: "cli"@ },
            ],
            condition: TriggerView::String { string: "Please re-install JUNOS"@ },
        },
    ]
}

fn junos_login() -> (r: Vec<StateTransition>)
    ensures
        steps_view(r@) == junos_login_table(),
{
    let mut v: Vec<StateTransition> = Vec::new();
    v.push(on_string(ProcessStage::JunosHappyCli, "root@:RE:0%", three(Action::SendLine { line: String::from_str("echo \"y\" | crontab -r") }, Action::SendLine { line: String::from_str("rm -rfv /var/tmp/autoreload.* /tmp/autoreload.* /var/core/core.* /var/log/* /var/tmp/*") }, Action::SendLine { line: String::from_str("cli") })));
    v.push(on_regex(ProcessStage::JunosHappyCli, r"root@[A-Za-z0-9\-]+:RE:0%", four(note(DeviceInformation::KeptHostname), Action::SendLine { line: String::from_str("echo \"y\" | crontab -r") }, Action::SendLine { line: String::from_str("rm -rfv /var/tmp/autoreload.* /tmp/autoreload.* /var/core/core.* /var/log/* /var/tmp/*") }, Action::SendLine { line: String::from_str("cli") })));
    v.push(on_string(ProcessStage::JunosHappyCli, "root@:LC:0%", four(note(DeviceInformation::StrangeCLIPrompt), Action::SendLine { line: String::from_str("echo \"y\" | crontab -r") }, Action::SendLine { line: String::from_str("rm -rfv /var/tmp/autoreload.* /tmp/autoreload.* /var/core/core.* /var/log/* /var/tmp/*") }, Action::SendLine { line: String::from_str("cli") })));
    v.push(on_regex(ProcessStage::JunosHappyCli, r"root@[A-Za-z0-9\-]+:LC:0%", five(note(DeviceInformation::KeptHostname), note(DeviceInformation::StrangeCLIPrompt), Action::SendLine { line: String::from_str("echo \"y\" | crontab -r") }, Action::SendLine { line: String::from_str("rm -rfv /var/tmp/autoreload.* /tmp/autoreload.* /var/core/core.* /var/log/* /var/tmp/*") }, Action::SendLine { line: String::from_str("cli") })));
    v.push(on_string(ProcessStage::JunosBackupImageCli, "Please re-install JUNOS", three(Action::SendLine { line: String::from_str("echo \"y\" | crontab -r") }, Action::SendLine { line: String::from_str("rm -rfv /var/tmp/autoreload.* /tmp/autoreload.* /var/core/core.*  /var/log/* /var/tmp/*") }, Action::SendLine { line: String::from_str("cli") })));
    assert(steps_view(v@) =~= junos_login_table());
    v
}

/// The transitions that leave `JunosHappyCli`.
pub open spec fn junos_happy_cli_table() -> Seq<StateTransitionView> {
    seq![
        StateTransitionView {
            target_state: ProcessStage::JunosVersionOutput,
            actions: seq![
                ActionView::SendLine { line: "show version | no-more"@ },
            ],
            condition: TriggerView::Regex { regex: r"root>"@ },
        },
        StateTransitionView {
            target_state: ProcessStage::JunosVersionOutput,
            actions: seq![
                flag(DeviceInformationKind::KeptHostname),
                ActionView::SendLine { line: "show version | no-more"@ },
            ],
            condition: TriggerView::Regex { regex: r"root@[A-Za-z0-9\-]+>"@ },
        },
    ]
}

fn junos_happy_cli() -> (r: Vec<StateTransition>)
    ensures
        steps_view(r@) == junos_happy_cli_table(),
{
    let mut v: Vec<StateTransition> = Vec::new();
    v.push(on_regex(ProcessStage::JunosVersionOutput, r"root>", one(Action::SendLine { line: String::from_str("show version | no-more") })));
    v.push(on_regex(ProcessStage::JunosVersionOutput, r"root@[A-Za-z0-9\-]+>", two(note(DeviceInformation::KeptHostname), Action::SendLine { line: String::from_str("show version | no-more") })));
    assert(steps_view(v@) =~= junos_happy_cli_table());
    v
}

/// The transitions that leave `JunosBackupImageCli`.
pub open spec fn junos_backup_image_cli_table() -> Seq<StateTransitionView> {
    seq![
        StateTransitionView {
            target_state: ProcessStage::JunosBackupImageCli2,
            actions: seq![
                flag(DeviceInformationKind::AlternateImage),
                ActionView::SendLine { line: "request system snapshot media internal slice alternate"@ },
            ],
            condition: TriggerView::Regex { regex: r"root>"@ },
        },
        StateTransitionView {
            target_state: ProcessStage::JunosBackupImageCli2,
            actions: seq![
                flag(DeviceInformationKind::KeptHostname),
                ActionView::SendLine { line: "request system snapshot media internal slice alternate"@ },
            ],
            condition: TriggerView::Regex { regex: r"root@[A-Za-z0-9\-]+>"@ },
        },
    ]
}

fn junos_backup_image_cli() -> (r: Vec<StateTransition>)
    ensures
        steps_view(r@) == junos_backup_image_cli_table(),
{
    let mut v: Vec<StateTransition> = Vec::new();
    v.push(on_regex(ProcessStage::JunosBackupImageCli2, r"root>", two(note(DeviceInformation::AlternateImage), Action::SendLine { line: String::from_str("request system snapshot media internal slice alternate") })));
    v.push(on_regex(ProcessStage::JunosBackupImageCli2, r"root@[A-Za-z0-9\-]+>", two(note(DeviceInformation::KeptHostname), Action::SendLine { line: String::from_str("request system snapshot media internal slice alternate") })));
    assert(steps_view(v@) =~= junos_backup_image_cli_table());
    v
}

/// The transitions that leave `JunosBackupImageCli2`.
pub open spec fn junos_backup_image_cli2_table() -> Seq<StateTransitionView> {
    seq![
        StateTransitionView {
            target_state: ProcessStage::JunosBackupImageCli3,
            actions: seq![
                ActionView::SendLine { line: "yes"@ },
            ],
            condition: TriggerView::String { string: "continue? [yes,no] (no)"@ },
        },
    ]
}

fn junos_backup_image_cli2() -> (r: Vec<StateTransition>)
    ensures
        steps_view(r@) == junos_backup_image_cli2_table(),
{
    let mut v: Vec<StateTransition> = Vec::new();
    v.push(on_string(ProcessStage::JunosBackupImageCli3, "continue? [yes,no] (no)", one(Action::SendLine { line: String::from_str("yes") })));
    assert(steps_view(v@) =~= junos_backup_image_cli2_table());
    v
}

/// The transitions that leave `JunosBackupImageCli3`.
pub open spec fn junos_backup_image_cli3_table() -> Seq<StateTransitionView> {
    seq![
        StateTransitionView {
            target_state: ProcessStage::JunosBackupImageCli4,
            actions: seq![
                ActionView::SendLine { line: "request system reboot slice alternate media internal in 0"@ },
            ],
            condition: TriggerView::Regex { regex: r"root(@[A-Za-z0-9\-]+)?>"@ },
        },
    ]
}

fn junos_backup_image_cli3() -> (r: Vec<StateTransition>)
    ensures
        steps_view(r@) == junos_backup_image_cli3_table(),
{
    let mut v: Vec<StateTransition> = Vec::new();
    v.push(on_regex(ProcessStage::JunosBackupImageCli4, r"root(@[A-Za-z0-9\-]+)?>", one(Action::SendLine { line: String::from_str("request system reboot slice alternate media internal in 0") })));
    assert(steps_view(v@) =~= junos_backup_image_cli3_table());
    v
}

/// The transitions that leave `JunosBackupImageCli4`.
pub open spec fn junos_backup_image_cli4_table() -> Seq<StateTransitionView> {
    seq![
        StateTransitionView {
            target_state: ProcessStage::JunosAwaitBackupImageCliRecoveryFinish,
            actions: seq![
                ActionView::SendLine { line: "yes"@ },
            ],
            condition: TriggerView::String { string: "[yes,no] (no)"@ },
        },
    ]
}

fn junos_backup_image_cli4() -> (r: Vec<StateTransition>)
    ensures
        steps_view(r@) == junos_backup_image_cli4_table(),
{
    let mut v: Vec<StateTransition> = Vec::new();
    v.push(on_string(ProcessStage::JunosAwaitBackupImageCliRecoveryFinish, "[yes,no] (no)", one(Action::SendLine { line: String::from_str("yes") })));
    assert(steps_view(v@) =~= junos_backup_image_cli4_table());
    v
}

/// The transitions that leave `JunosAwaitBackupImageCliRecoveryFinish`.
pub open spec fn junos_await_backup_image_cli_recovery_finish_table() -> Seq<StateTransitionView> {
    seq![
        StateTransitionView {
            target_state: ProcessStage::JunosLogin,
            actions: seq![
                ActionView::SendLine { line: "root"@ },
            ],
            condition: TriggerView::String { string: "login:"@ },
        },
    ]
}

fn junos_await_backup_image_cli_recovery_finish() -> (r: Vec<StateTransition>)
    ensures
        steps_view(r@) == junos_await_backup_image_cli_recovery_finish_table(),
{
    let mut v: Vec<StateTransition> = Vec::new();
    v.push(on_string(ProcessStage::JunosLogin, "login:", one(Action::SendLine { line: String::from_str("root") })));
    assert(steps_view(v@) =~= junos_await_backup_image_cli_recovery_finish_table());
    v
}

/// The transitions that leave `JunosVersionOutput`.
pub open spec fn junos_version_output_table() -> Seq<StateTransitionView> {
    seq![
        StateTransitionView {
            target_state: ProcessStage::JunosChassisOutput,
            actions: seq![
                ActionView::Function { func: ProcessFunction::CaptureJunosVersion },
                ActionView::SendLine { line: "show chassis hardware | no-more"@ },
            ],
            condition: TriggerView::Regex { regex: r"root(@[A-Za-z0-9\-]+)?>"@ },
        },
    ]
}

fn junos_version_output() -> (r: Vec<StateTransition>)
    ensures
        steps_view(r@) == junos_version_output_table(),
{
    let mut v: Vec<StateTransition> = Vec::new();
    v.push(on_regex(ProcessStage::JunosChassisOutput, r"root(@[A-Za-z0-9\-]+)?>", two(Action::Function { func: ProcessFunction::CaptureJunosVersion }, Action::SendLine { line: String::from_str("show chassis hardware | no-more") })));
    assert(steps_view(v@) =~= junos_version_output_table());
    v
}

/// The transitions that leave `JunosChassisOutput`.
pub open spec fn junos_chassis_output_table() -> Seq<StateTransitionView> {
    seq![
        StateTransitionView {
            target_state: ProcessStage::JunosPoweroffConfirm,
            actions: seq![
                ActionView::Function { func: ProcessFunction::CaptureChassisOutput },
                ActionView::SendLine { line: "request system power-off in 0"@ },
            ],
            condition: TriggerView::Regex { regex: r"root(@[A-Za-z0-9\-]+)?>"@ },
        },
    ]
}

fn junos_chassis_output() -> (r: Vec<StateTransition>)
    ensures
        steps_view(r@) == junos_chassis_output_table(),
{
    let mut v: Vec<StateTransition> = Vec::new();
    v.push(on_regex(ProcessStage::JunosPoweroffConfirm, r"root(@[A-Za-z0-9\-]+)?>", two(Action::Function { func: ProcessFunction::CaptureChassisOutput }, Action::SendLine { line: String::from_str("request system power-off in 0") })));
    assert(steps_view(v@) =~= junos_chassis_output_table());
    v
}

/// The transitions that leave `JunosPoweroffConfirm`.
pub open spec fn junos_poweroff_confirm_table() -> Seq<StateTransitionView> {
    seq![
        StateTransitionView {
            target_state: ProcessStage::JunosWaitForPoweroff,
            actions: seq![
                ActionView::SendLine { line: "yes"@ },
            ],
            condition: TriggerView::String { string: "[yes,no] (no)"@ },
        },
        StateTransitionView {
            target_state: ProcessStage::JunosPoweroffConfirm,
            actions: seq![
                ActionView::SendLine { line: "request system halt in 0"@ },
            ],
            condition: TriggerView::String { string: "error: command is not valid"@ },
        },
    ]
}

fn junos_poweroff_confirm() -> (r: Vec<StateTransition>)
    ensures
        steps_view(r@) == junos_poweroff_confirm_table(),
{
    let mut v: Vec<StateTransition> = Vec::new();
    v.push(on_string(ProcessStage::JunosWaitForPoweroff, "[yes,no] (no)", one(Action::SendLine { line: String::from_str("yes") })));
    v.push(on_string(ProcessStage::JunosPoweroffConfirm, "error: command is not valid", one(Action::SendLine { line: String::from_str("request system halt in 0") })));
    assert(steps_view(v@) =~= junos_poweroff_confirm_table());
    v
}

/// The transitions that leave `JunosWaitForPoweroff`.
pub open spec fn junos_wait_for_poweroff_table() -> Seq<StateTransitionView> {
    seq![
        StateTransitionView {
            target_state: ProcessStage::EndJob,
            actions: Seq::empty(),
            condition: TriggerView::String { string: "has halted."@ },
        },
        StateTransitionView {
            target_state: ProcessStage::EndJob,
            actions: Seq::empty(),
            condition: TriggerView::String { string: "acpi0: Powering system off"@ },
        },
        StateTransitionView {
            target_state: ProcessStage::EndJob,
            actions: Seq::empty(),
            condition: TriggerView::String { string: "Rebooting..."@ },
        },
        StateTransitionView {
            target_state: ProcessStage::EndJob,
            actions: Seq::empty(),
            condition: TriggerView::String { string: "reboot: Power down"@ },
        },
    ]
}

fn junos_wait_for_poweroff() -> (r: Vec<StateTransition>)
    ensures
        steps_view(r@) == junos_wait_for_poweroff_table(),
{
    let mut v: Vec<StateTransition> = Vec::new();
    v.push(on_string(ProcessStage::EndJob, "has halted.", none()));
    v.push(on_string(ProcessStage::EndJob, "acpi0: Powering system off", none()));
    v.push(on_string(ProcessStage::EndJob, "Rebooting...", none()));
    v.push(on_string(ProcessStage::EndJob, "reboot: Power down", none()));
    assert(steps_view(v@) =~= junos_wait_for_poweroff_table());
    v
}

/// The transitions that leave `AristaWaitForBootloader`.
pub open spec fn arista_wait_for_bootloader_table() -> Seq<StateTransitionView> {
    seq![
        StateTransitionView {
            target_state: ProcessStage::AristaWipeStartupConfig,
            actions: seq![
                ActionView::SendControl { char: 'c' },
            ],
            condition: TriggerView::String { string: "Press Control-C now to enter Aboot shell"@ },
        },
    ]
}

fn arista_wait_for_bootloader() -> (r: Vec<StateTransition>)
    ensures
        steps_view(r@) == arista_wait_for_bootloader_table(),
{
    let mut v: Vec<StateTransition> = Vec::new();
    v.push(on_string(ProcessStage::AristaWipeStartupConfig, "Press Control-C now to enter Aboot shell", one(Action::SendControl { char: 'c' })));
    assert(steps_view(v@) =~= arista_wait_for_bootloader_table());
    v
}

/// The transitions that leave `AristaWipeStartupConfig`.
pub open spec fn arista_wipe_startup_config_table() -> Seq<StateTransitionView> {
    seq![
        StateTransitionView {
            target_state: ProcessStage::AristaRebootAfterStartupConfigWipe,
            actions: seq![
                ActionView::SendLine { line: "rm -r /mnt/flash/.persist"@ },
                ActionView::SendLine { line: "rm /mnt/flash/startup-config"@ },
            ],
            condition: TriggerView::String { string: "Aboot#"@ },
        },
    ]
}

fn arista_wipe_startup_config() -> (r: Vec<StateTransition>)
    ensures
        steps_view(r@) == arista_wipe_startup_config_table(),
{
    let mut v: Vec<StateTransition> = Vec::new();
    v.push(on_string(ProcessStage::AristaRebootAfterStartupConfigWipe, "Aboot#", two(Action::SendLine { line: String::from_str("rm -r /mnt/flash/.persist") }, Action::SendLine { line: String::from_str("rm /mnt/flash/startup-config") })));
    assert(steps_view(v@) =~= arista_wipe_startup_config_table());
    v
}

/// The transitions that leave `AristaRebootAfterStartupConfigWipe`.
pub open spec fn arista_reboot_after_startup_config_wipe_table() -> Seq<StateTransitionView> {
    seq![
        StateTransitionView {
            target_state: ProcessStage::AristaWaitForReboot,
            actions: seq![
                ActionView::SendLine { line: "exit"@ },
            ],
            condition: TriggerView::String { string: "Aboot#"@ },
        },
    ]
}

fn arista_reboot_after_startup_config_wipe() -> (r: Vec<StateTransition>)
    ensures
        steps_view(r@) == arista_reboot_after_startup_config_wipe_table(),
{
    let mut v: Vec<StateTransition> = Vec::new();
    v.push(on_string(ProcessStage::AristaWaitForReboot, "Aboot#", one(Action::SendLine { line: String::from_str("exit") })));
    assert(steps_view(v@) =~= arista_reboot_after_startup_config_wipe_table());
    v
}

/// The transitions that leave `AristaWaitForReboot`.
pub open spec fn arista_wait_for_reboot_table() -> Seq<StateTransitionView> {
    seq![
        StateTransitionView {
            target_state: ProcessStage::AristaLoggingIn,
            actions: seq![
                ActionView::SendLine { line: "admin"@ },
            ],
            condition: TriggerView::String { string: "login:"@ },
        },
    ]
}

fn arista_wait_for_reboot() -> (r: Vec<StateTransition>)
    ensures
        steps_view(r@) == arista_wait_for_reboot_table(),
{
    let mut v: Vec<StateTransition> = Vec::new();
    v.push(on_string(ProcessStage::AristaLoggingIn, "login:", one(Action::SendLine { line: String::from_str("admin") })));
    assert(steps_view(v@) =~= arista_wait_for_reboot_table());
    v
}

/// The transitions that leave `AristaLoggingIn`.
pub open spec fn arista_logging_in_table() -> Seq<StateTransitionView> {
    seq![
        StateTransitionView {
            target_state: ProcessStage::AristaVersionOutput,
            actions: seq![
                ActionView::SendLine { line: "show version"@ },
                ActionView::SendLine { line: "enable"@ },
                ActionView::SendLine { line: "bash rm -rfv /var/core/core.*"@ },
                ActionView::SendLine { line: "exit"@ },
            ],
            condition: TriggerView::String { string: "localhost>"@ },
        },
    ]
}

fn arista_logging_in() -> (r: Vec<StateTransition>)
    ensures
        steps_view(r@) == arista_logging_in_table(),
{
    let mut v: Vec<StateTransition> = Vec::new();
    v.push(on_string(ProcessStage::AristaVersionOutput, "localhost>", four(Action::SendLine { line: String::from_str("show version") }, Action::SendLine { line: String::from_str("enable") }, Action::SendLine { line: String::from_str("bash rm -rfv /var/core/core.*") }, Action::SendLine { line: String::from_str("exit") })));
    assert(steps_view(v@) =~= arista_logging_in_table());
    v
}

/// The transitions that leave `AristaVersionOutput`.
pub open spec fn arista_version_output_table() -> Seq<StateTransitionView> {
    seq![
        StateTransitionView {
            target_state: ProcessStage::EndJob,
            actions: seq![
                ActionView::Function { func: ProcessFunction::CaptureAristaVersion },
            ],
            condition: TriggerView::String { string: "localhost>"@ },
        },
    ]
}

fn arista_version_output() -> (r: Vec<StateTransition>)
    ensures
        steps_view(r@) == arista_version_output_table(),
{
    let mut v: Vec<StateTransition> = Vec::new();
    v.push(on_string(ProcessStage::EndJob, "localhost>", one(Action::Function { func: ProcessFunction::CaptureAristaVersion })));
    assert(steps_view(v@) =~= arista_version_output_table());
    v
}

/// The transitions that leave `Junos23WaitForBootloader`.
pub open spec fn junos23_wait_for_bootloader_table() -> Seq<StateTransitionView> {
    seq![
        StateTransitionView {
            target_state: ProcessStage::Junos23Bootloader1,
            actions: seq![
                ActionView::SendControl { char: 'c' },
            ],
            condition: TriggerView::String { string: "seconds... (press Ctrl-C to interrupt)"@ },
        },
    ]
}

fn junos23_wait_for_bootloader() -> (r: Vec<StateTransition>)
    ensures
        steps_view(r@) == junos23_wait_for_bootloader_table(),
{
    let mut v: Vec<StateTransition> = Vec::new();
    v.push(on_string(ProcessStage::Junos23Bootloader1, "seconds... (press Ctrl-C to interrupt)", one(Action::SendControl { char: 'c' })));
    assert(steps_view(v@) =~= junos23_wait_for_bootloader_table());
    v
}

/// The transitions that leave `Junos23Bootloader1`.
pub open spec fn junos23_bootloader1_table() -> Seq<StateTransitionView> {
    seq![
        StateTransitionView {
            target_state: ProcessStage::Junos23Bootloader2,
            actions: seq![
                ActionView::Send { text: "5"@ },
                ActionView::Flush,
            ],
            condition: TriggerView::String { string: "Choice:"@ },
        },
    ]
}

fn junos23_bootloader1() -> (r: Vec<StateTransition>)
    ensures
        steps_view(r@) == junos23_bootloader1_table(),
{
    let mut v: Vec<StateTransition> = Vec::new();
    v.push(on_string(ProcessStage::Junos23Bootloader2, "Choice:", two(Action::Send { text: String::from_str("5") }, Action::Flush)));
    assert(steps_view(v@) =~= junos23_bootloader1_table());
    v
}

/// The transitions that leave `Junos23Bootloader2`.
pub open spec fn junos23_bootloader2_table() -> Seq<StateTransitionView> {
    seq![
        StateTransitionView {
            target_state: ProcessStage::Junos23AwaitRecoveryShell,
            actions: seq![
                ActionView::Send { text: "2"@ },
                ActionView::Flush,
            ],
            condition: TriggerView::String { string: "Choice:"@ },
        },
    ]
}

fn junos23_bootloader2() -> (r: Vec<StateTransition>)
    ensures
        steps_view(r@) == junos23_bootloader2_table(),
{
    let mut v: Vec<StateTransition> = Vec::new();
    v.push(on_string(ProcessStage::Junos23AwaitRecoveryShell, "Choice:", two(Action::Send { text: String::from_str("2") }, Action::Flush)));
    assert(steps_view(v@) =~= junos23_bootloader2_table());
    v
}

/// The transitions that leave `Junos23AwaitRecoveryShell`.
pub open spec fn junos23_await_recovery_shell_table() -> Seq<StateTransitionView> {
    seq![
        StateTransitionView {
            target_state: ProcessStage::Junos23AnswerZeroize,
            actions: seq![
                ActionView::SendLine { line: "request system zeroize"@ },
            ],
            condition: TriggerView::Regex { regex: r"\{[a-z0-9]+:0\}"@ },
        },
    ]
}

fn junos23_await_recovery_shell() -> (r: Vec<StateTransition>)
    ensures
        steps_view(r@) == junos23_await_recovery_shell_table(),
{
    let mut v: Vec<StateTransition> = Vec::new();
    v.push(on_regex(ProcessStage::Junos23AnswerZeroize, r"\{[a-z0-9]+:0\}", one(Action::SendLine { line: String::from_str("request system zeroize") })));
    assert(steps_view(v@) =~= junos23_await_recovery_shell_table());
    v
}

/// The transitions that leave `Junos23AnswerZeroize`.
pub open spec fn junos23_answer_zeroize_table() -> Seq<StateTransitionView> {
    seq![
        StateTransitionView {
            target_state: ProcessStage::Junos23AwaitZeroizeFinish,
            actions: seq![
                ActionView::SendLine { line: "yes"@ },
            ],
            condition: TriggerView::String { string: "Erase all data, including configuration and log files?. In case of Dual RE system, both Routing Engines will be zeroized"@ },
        },
    ]
}

fn junos23_answer_zeroize() -> (r: Vec<StateTransition>)
    ensures
        steps_view(r@) == junos23_answer_zeroize_table(),
{
    let mut v: Vec<StateTransition> = Vec::new();
    v.push(on_string(ProcessStage::Junos23AwaitZeroizeFinish, "Erase all data, including configuration and log files?. In case of Dual RE system, both Routing Engines will be zeroized", one(Action::SendLine { line: String::from_str("yes") })));
    assert(steps_view(v@) =~= junos23_answer_zeroize_table());
    v
}

/// The transitions that leave `Junos23AwaitZeroizeFinish`.
pub open spec fn junos23_await_zeroize_finish_table() -> Seq<StateTransitionView> {
    seq![
        StateTransitionView {
            target_state: ProcessStage::Junos23AwaitZeroizeFinish2,
            actions: Seq::empty(),
            condition: TriggerView::Regex { regex: r"FreeBSD/[AaipP]"@ },
        },
    ]
}

fn junos23_await_zeroize_finish() -> (r: Vec<StateTransition>)
    ensures
        steps_view(r@) == junos23_await_zeroize_finish_table(),
{
    let mut v: Vec<StateTransition> = Vec::new();
    v.push(on_regex(ProcessStage::Junos23AwaitZeroizeFinish2, r"FreeBSD/[AaipP]", none()));
    assert(steps_view(v@) =~= junos23_await_zeroize_finish_table());
    v
}

/// The transitions that leave `Junos23AwaitZeroizeFinish2`.
pub open spec fn junos23_await_zeroize_finish2_table() -> Seq<StateTransitionView> {
    seq![
        StateTransitionView {
            target_state: ProcessStage::JunosLogin,
            actions: seq![
                ActionView::SendLine { line: "root"@ },
            ],
            condition: TriggerView::String { string: "login:"@ },
        },
    ]
}

fn junos23_await_zeroize_finish2() -> (r: Vec<StateTransition>)
    ensures
        steps_view(r@) == junos23_await_zeroize_finish2_table(),
{
    let mut v: Vec<StateTransition> = Vec::new();
    v.push(on_string(ProcessStage::JunosLogin, "login:", one(Action::SendLine { line: String::from_str("root") })));
    assert(steps_view(v@) =~= junos23_await_zeroize_finish2_table());
    v
}

/// The transitions that leave `EndJob`.
pub open spec fn end_job_table() -> Seq<StateTransitionView> {
    seq![
        StateTransitionView {
            target_state: ProcessStage::SwitchDetect,
            actions: seq![
                ActionView::FinishJob,
            ],
            condition: TriggerView::Immediate,
        },
    ]
}

fn end_job() -> (r: Vec<StateTransition>)
    ensures
        steps_view(r@) == end_job_table(),
{
    let mut v: Vec<StateTransition> = Vec::new();
    v.push(at_once(ProcessStage::SwitchDetect, one(Action::FinishJob)));
    assert(steps_view(v@) =~= end_job_table());
    v
}

impl ProcessStage {
    /// The name of the stage, which is the name of its state in a graph.
    pub open spec fn name_text(self) -> Seq<char> {
        match self {
            ProcessStage::Init => "Init"@,
            ProcessStage::SwitchDetect => "SwitchDetect"@,
            ProcessStage::JunosWaitForBootloader => "JunosWaitForBootloader"@,
            ProcessStage::JunosWaitForBootloader2 => "JunosWaitForBootloader2"@,
            ProcessStage::JunosWaitForBootloader3 => "JunosWaitForBootloader3"@,
            ProcessStage::JunosWaitForBootloader4 => "JunosWaitForBootloader4"@,
            ProcessStage::JunosEnterSingleUserMode => "JunosEnterSingleUserMode"@,
            ProcessStage::JunosAwaitBoot => "JunosAwaitBoot"@,
            ProcessStage::JunosAwaitRecoveryShell => "JunosAwaitRecoveryShell"@,
            ProcessStage::JunosAnswerZeroize => "JunosAnswerZeroize"@,
            ProcessStage::JunosAwaitZeroizeFinish => "JunosAwaitZeroizeFinish"@,
            ProcessStage::JunosLogin => "JunosLogin"@,
            ProcessStage::JunosHappyCli => "JunosHappyCli"@,
            ProcessStage::JunosBackupImageCli => "JunosBackupImageCli"@,
            ProcessStage::JunosBackupImageCli2 => "JunosBackupImageCli2"@,
            ProcessStage::JunosBackupImageCli3 => "JunosBackupImageCli3"@,
            ProcessStage::JunosBackupImageCli4 => "JunosBackupImageCli4"@,
            ProcessStage::JunosAwaitBackupImageCliRecoveryFinish => "JunosAwaitBackupImageCliRecoveryFinish"@,
            ProcessStage::JunosVersionOutput => "JunosVersionOutput"@,
            ProcessStage::JunosChassisOutput => "JunosChassisOutput"@,
            ProcessStage::JunosPoweroffConfirm => "JunosPoweroffConfirm"@,
            ProcessStage::JunosWaitForPoweroff => "JunosWaitForPoweroff"@,
            ProcessStage::AristaWaitForBootloader => "AristaWaitForBootloader"@,
            ProcessStage::AristaWipeStartupConfig => "AristaWipeStartupConfig"@,
            ProcessStage::AristaRebootAfterStartupConfigWipe => "AristaRebootAfterStartupConfigWipe"@,
            ProcessStage::AristaWaitForReboot => "AristaWaitForReboot"@,
            ProcessStage::AristaLoggingIn => "AristaLoggingIn"@,
            ProcessStage::AristaVersionOutput => "AristaVersionOutput"@,
            ProcessStage::Junos23WaitForBootloader => "Junos23WaitForBootloader"@,
            ProcessStage::Junos23Bootloader1 => "Junos23Bootloader1"@,
            ProcessStage::Junos23Bootloader2 => "Junos23Bootloader2"@,
            ProcessStage::Junos23AwaitRecoveryShell => "Junos23AwaitRecoveryShell"@,
            ProcessStage::Junos23AnswerZeroize => "Junos23AnswerZeroize"@,
            ProcessStage::Junos23AwaitZeroizeFinish => "Junos23AwaitZeroizeFinish"@,
            ProcessStage::Junos23AwaitZeroizeFinish2 => "Junos23AwaitZeroizeFinish2"@,
            ProcessStage::EndJob => "EndJob"@,
        }
    }

    /// The name of the stage, which is the name of its state in a graph.
    pub fn name(&self) -> (r: String)
        ensures
            r@ == self.name_text(),
    {
        match self {
            ProcessStage::Init => String::from_str("Init"),
            ProcessStage::SwitchDetect => String::from_str("SwitchDetect"),
            ProcessStage::JunosWaitForBootloader => String::from_str("JunosWaitForBootloader"),
            ProcessStage::JunosWaitForBootloader2 => String::from_str("JunosWaitForBootloader2"),
            ProcessStage::JunosWaitForBootloader3 => String::from_str("JunosWaitForBootloader3"),
            ProcessStage::JunosWaitForBootloader4 => String::from_str("JunosWaitForBootloader4"),
            ProcessStage::JunosEnterSingleUserMode => String::from_str("JunosEnterSingleUserMode"),
            ProcessStage::JunosAwaitBoot => String::from_str("JunosAwaitBoot"),
            ProcessStage::JunosAwaitRecoveryShell => String::from_str("JunosAwaitRecoveryShell"),
            ProcessStage::JunosAnswerZeroize => String::from_str("JunosAnswerZeroize"),
            ProcessStage::JunosAwaitZeroizeFinish => String::from_str("JunosAwaitZeroizeFinish"),
            ProcessStage::JunosLogin => String::from_str("JunosLogin"),
            ProcessStage::JunosHappyCli => String::from_str("JunosHappyCli"),
            ProcessStage::JunosBackupImageCli => String::from_str("JunosBackupImageCli"),
            ProcessStage::JunosBackupImageCli2 => String::from_str("JunosBackupImageCli2"),
            ProcessStage::JunosBackupImageCli3 => String::from_str("JunosBackupImageCli3"),
            ProcessStage::JunosBackupImageCli4 => String::from_str("JunosBackupImageCli4"),
            ProcessStage::JunosAwaitBackupImageCliRecoveryFinish => String::from_str("JunosAwaitBackupImageCliRecoveryFinish"),
            ProcessStage::JunosVersionOutput => String::from_str("JunosVersionOutput"),
            ProcessStage::JunosChassisOutput => String::from_str("JunosChassisOutput"),
            ProcessStage::JunosPoweroffConfirm => String::from_str("JunosPoweroffConfirm"),
            ProcessStage::JunosWaitForPoweroff => String::from_str("JunosWaitForPoweroff"),
            ProcessStage::AristaWaitForBootloader => String::from_str("AristaWaitForBootloader"),
            ProcessStage::AristaWipeStartupConfig => String::from_str("AristaWipeStartupConfig"),
            ProcessStage::AristaRebootAfterStartupConfigWipe => String::from_str("AristaRebootAfterStartupConfigWipe"),
            ProcessStage::AristaWaitForReboot => String::from_str("AristaWaitForReboot"),
            ProcessStage::AristaLoggingIn => String::from_str("AristaLoggingIn"),
            ProcessStage::AristaVersionOutput => String::from_str("AristaVersionOutput"),
            ProcessStage::Junos23WaitForBootloader => String::from_str("Junos23WaitForBootloader"),
            ProcessStage::Junos23Bootloader1 => String::from_str("Junos23Bootloader1"),
            ProcessStage::Junos23Bootloader2 => String::from_str("Junos23Bootloader2"),
            ProcessStage::Junos23AwaitRecoveryShell => String::from_str("Junos23AwaitRecoveryShell"),
            ProcessStage::Junos23AnswerZeroize => String::from_str("Junos23AnswerZeroize"),
            ProcessStage::Junos23AwaitZeroizeFinish => String::from_str("Junos23AwaitZeroizeFinish"),
            ProcessStage::Junos23AwaitZeroizeFinish2 => String::from_str("Junos23AwaitZeroizeFinish2"),
            ProcessStage::EndJob => String::from_str("EndJob"),
        }
    }

    /// All the stages, in the order of the procedure.
    pub open spec fn listed() -> Seq<ProcessStage> {
        seq![
            ProcessStage::Init,
            ProcessStage::SwitchDetect,
            ProcessStage::JunosWaitForBootloader,
            ProcessStage::JunosWaitForBootloader2,
            ProcessStage::JunosWaitForBootloader3,
            ProcessStage::JunosWaitForBootloader4,
            ProcessStage::JunosEnterSingleUserMode,
            ProcessStage::JunosAwaitBoot,
            ProcessStage::JunosAwaitRecoveryShell,
            ProcessStage::JunosAnswerZeroize,
            ProcessStage::JunosAwaitZeroizeFinish,
            ProcessStage::JunosLogin,
            ProcessStage::JunosHappyCli,
            ProcessStage::JunosBackupImageCli,
            ProcessStage::JunosBackupImageCli2,
            ProcessStage::JunosBackupImageCli3,
            ProcessStage::JunosBackupImageCli4,
            ProcessStage::JunosAwaitBackupImageCliRecoveryFinish,
            ProcessStage::JunosVersionOutput,
            ProcessStage::JunosChassisOutput,
            ProcessStage::JunosPoweroffConfirm,
            ProcessStage::JunosWaitForPoweroff,
            ProcessStage::AristaWaitForBootloader,
            ProcessStage::AristaWipeStartupConfig,
            ProcessStage::AristaRebootAfterStartupConfigWipe,
            ProcessStage::AristaWaitForReboot,
            ProcessStage::AristaLoggingIn,
            ProcessStage::AristaVersionOutput,
            ProcessStage::Junos23WaitForBootloader,
            ProcessStage::Junos23Bootloader1,
            ProcessStage::Junos23Bootloader2,
            ProcessStage::Junos23AwaitRecoveryShell,
            ProcessStage::Junos23AnswerZeroize,
            ProcessStage::Junos23AwaitZeroizeFinish,
            ProcessStage::Junos23AwaitZeroizeFinish2,
            ProcessStage::EndJob,
        ]
    }

    /// All the stages, in the order of the procedure.
    pub fn all() -> (r: Vec<ProcessStage>)
        ensures
            r@ == ProcessStage::listed(),
    {
        let mut v: Vec<ProcessStage> = Vec::new();
        v.push(ProcessStage::Init);
        v.push(ProcessStage::SwitchDetect);
        v.push(ProcessStage::JunosWaitForBootloader);
        v.push(ProcessStage::JunosWaitForBootloader2);
        v.push(ProcessStage::JunosWaitForBootloader3);
        v.push(ProcessStage::JunosWaitForBootloader4);
        v.push(ProcessStage::JunosEnterSingleUserMode);
        v.push(ProcessStage::JunosAwaitBoot);
        v.push(ProcessStage::JunosAwaitRecoveryShell);
        v.push(ProcessStage::JunosAnswerZeroize);
        v.push(ProcessStage::JunosAwaitZeroizeFinish);
        v.push(ProcessStage::JunosLogin);
        v.push(ProcessStage::JunosHappyCli);
        v.push(ProcessStage::JunosBackupImageCli);
        v.push(ProcessStage::JunosBackupImageCli2);
        v.push(ProcessStage::JunosBackupImageCli3);
        v.push(ProcessStage::JunosBackupImageCli4);
        v.push(ProcessStage::JunosAwaitBackupImageCliRecoveryFinish);
        v.push(ProcessStage::JunosVersionOutput);
        v.push(ProcessStage::JunosChassisOutput);
        v.push(ProcessStage::JunosPoweroffConfirm);
        v.push(ProcessStage::JunosWaitForPoweroff);
        v.push(ProcessStage::AristaWaitForBootloader);
        v.push(ProcessStage::AristaWipeStartupConfig);
        v.push(ProcessStage::AristaRebootAfterStartupConfigWipe);
        v.push(ProcessStage::AristaWaitForReboot);
        v.push(ProcessStage::AristaLoggingIn);
        v.push(ProcessStage::AristaVersionOutput);
        v.push(ProcessStage::Junos23WaitForBootloader);
        v.push(ProcessStage::Junos23Bootloader1);
        v.push(ProcessStage::Junos23Bootloader2);
        v.push(ProcessStage::Junos23AwaitRecoveryShell);
        v.push(ProcessStage::Junos23AnswerZeroize);
        v.push(ProcessStage::Junos23AwaitZeroizeFinish);
        v.push(ProcessStage::Junos23AwaitZeroizeFinish2);
        v.push(ProcessStage::EndJob);
        assert(v@ =~= ProcessStage::listed());
        v
    }
}

impl StateTransitionView {
    /// The same line as a transition of a graph, its target by name.
    pub open spec fn declared(self) -> TransitionView {
        TransitionView {
            target: self.target_state.name_text(),
            trigger: self.condition,
            actions: self.actions,
        }
    }
}

impl StateTransition {
    /// The same line as a transition of a graph, its target by name.
    pub fn to_declarative(&self) -> (r: StateMachineTransition)
        ensures
            r@ == self@.declared(),
    {
        StateMachineTransition {
            target: self.target_state.name(),
            trigger: self.condition.to_trigger(),
            actions: clone_actions(&self.actions),
        }
    }
}

/// The state that stands for a stage: its lines as transitions, in their
/// order, in place of any earlier definition.
pub open spec fn stage_state(stage: ProcessStage) -> StateView {
    StateView {
        merge: StateMachineMergeMode::Replace,
        transitions: Seq::new(stage.table().len(), |i: int| stage.table()[i].declared()),
    }
}

/// The states that stand for the stages listed, by name.
pub open spec fn procedure_upto(stages: Seq<ProcessStage>) -> Graph
    decreases stages.len(),
{
    if stages.len() == 0 {
        Map::empty()
    } else {
        procedure_upto(stages.drop_last()).insert(
            stages.last().name_text(),
            stage_state(stages.last()),
        )
    }
}

/// The whole procedure as the states of a graph.
pub open spec fn procedure_graph() -> Graph {
    procedure_upto(ProcessStage::listed())
}

/// The state that stands for a stage.
pub fn state_of_stage(stage: ProcessStage) -> (r: StateMachineState)
    ensures
        r@ == stage_state(stage),
{
    let lines = stage.get_transitions();
    let mut transitions: Vec<StateMachineTransition> = Vec::new();
    let mut i: usize = 0;
    while i < lines.len()
        invariant
            i <= lines.len(),
            transitions.len() == i,
            steps_view(lines@) == stage.table(),
            forall|j: int| 0 <= j < i ==> transitions@[j]@ == lines@[j]@.declared(),
        decreases lines.len() - i,
    {
        transitions.push(lines[i].to_declarative());
        i += 1;
    }
    let r = StateMachineState { merge: StateMachineMergeMode::Replace, transitions };
    assert(r@.transitions =~= stage_state(stage).transitions) by {
        assert forall|j: int| 0 <= j < lines@.len() implies transitions_view(transitions@)[j]
            == stage.table()[j].declared() by {
            assert(steps_view(lines@)[j] == lines@[j]@);
        }
    }
    r
}

/// The whole procedure as the states of a graph, one state for each stage.
pub fn procedure_states() -> (r: StateMap)
    ensures
        r@ == procedure_graph(),
{
    let stages = ProcessStage::all();
    let mut states = StateMap::new();
    let mut i: usize = 0;
    assert(stages@.take(0) =~= Seq::<ProcessStage>::empty());
    while i < stages.len()
        invariant
            i <= stages.len(),
            states@ == procedure_upto(stages@.take(i as int)),
        decreases stages.len() - i,
    {
        assert(stages@.take(i as int + 1).drop_last() =~= stages@.take(i as int));
        assert(stages@.take(i as int + 1).last() == stages@[i as int]);
        states.insert(stages[i].name(), state_of_stage(stages[i]));
        i += 1;
    }
    assert(stages@.take(stages.len() as int) =~= stages@);
    states
}

} // verus!
