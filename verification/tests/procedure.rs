use cthulhu::action::{Action, DeviceInfoArg, TimeSpan};
use cthulhu::devinfo::DeviceInformation;
use cthulhu::pfunc::ProcessFunction;
use cthulhu::process::{procedure_states, state_of_stage, StateTransition};
use cthulhu::stages::ProcessStage;
use cthulhu::status::PortJobStatus;
use cthulhu::trigger::StateCondition;

fn line(target: ProcessStage, condition: StateCondition, actions: Vec<Action>) -> StateTransition {
    StateTransition { target_state: target, actions, condition }
}

fn send_line(text: &str) -> Action {
    Action::SendLine { line: text.to_string() }
}

fn note(info: DeviceInformation) -> Action {
    Action::AddDeviceInfo(DeviceInfoArg::WithArgument(info))
}

#[test]
fn the_procedure_starts_and_ends_at_once() {
    assert_eq!(
        ProcessStage::Init.get_transitions(),
        vec![line(ProcessStage::SwitchDetect, StateCondition::Immediate, vec![Action::SetupJob])]
    );
    assert_eq!(
        ProcessStage::EndJob.get_transitions(),
        vec![line(ProcessStage::SwitchDetect, StateCondition::Immediate, vec![Action::FinishJob])]
    );
}

#[test]
fn every_other_stage_waits_for_the_console() {
    let stages = ProcessStage::all();
    assert_eq!(stages.len(), 36);
    let mut lines = 0;
    for stage in stages {
        let transitions = stage.get_transitions();
        assert!(!transitions.is_empty(), "{:?}", stage);
        lines += transitions.len();
        let at_once = transitions.iter().any(|t| t.condition == StateCondition::Immediate);
        assert_eq!(at_once, stage == ProcessStage::Init || stage == ProcessStage::EndJob);
        assert_eq!(stage.name(), format!("{:?}", stage));
    }
    assert_eq!(lines, 60);
}

#[test]
fn the_boot_loader_is_interrupted_with_repeated_keys() {
    assert_eq!(
        ProcessStage::JunosEnterSingleUserMode.get_transitions(),
        vec![line(
            ProcessStage::JunosAwaitBoot,
            StateCondition::WaitForString("loader>".to_string()),
            vec![
                Action::Repeat {
                    actions: vec![Action::SendControl { char: 'h' }, Action::Flush],
                    times: 10,
                },
                send_line(""),
                send_line("boot -s"),
            ],
        )]
    );
    assert_eq!(
        ProcessStage::JunosWaitForBootloader4.get_transitions(),
        vec![line(
            ProcessStage::JunosEnterSingleUserMode,
            StateCondition::WaitForString("space bar for command prompt".to_string()),
            vec![Action::Repeat {
                actions: vec![Action::Send { text: " ".to_string() }, Action::Flush],
                times: 10,
            }],
        )]
    );
}

#[test]
fn the_recovery_shell_has_four_ways_out() {
    let lines = ProcessStage::JunosAwaitRecoveryShell.get_transitions();
    assert_eq!(
        lines,
        vec![
            line(
                ProcessStage::JunosAwaitRecoveryShell,
                StateCondition::WaitForString("SCSI Status".to_string()),
                vec![note(DeviceInformation::SCSIErrors)],
            ),
            line(
                ProcessStage::EndJob,
                StateCondition::WaitForString("CLI invocation failed".to_string()),
                vec![note(DeviceInformation::FailedToEnterSingleUserMode)],
            ),
            line(
                ProcessStage::JunosAnswerZeroize,
                StateCondition::WaitForRegex(r"\{[a-z0-9]+:0\}".to_string()),
                vec![
                    Action::Delay { duration: TimeSpan { secs: 3, nanos: 0 } },
                    send_line("request system zeroize"),
                ],
            ),
            line(
                ProcessStage::JunosWaitForBootloader,
                StateCondition::WaitForString(
                    "error: filesystem consistency checks (fsck -p -y) failed".to_string()
                ),
                vec![
                    send_line("shell"),
                    Action::Function { func: ProcessFunction::FixFS },
                    Action::Delay { duration: TimeSpan { secs: 3, nanos: 0 } },
                ],
            ),
        ]
    );
}

#[test]
fn a_kept_hostname_is_noted_at_login() {
    let lines = ProcessStage::JunosLogin.get_transitions();
    assert_eq!(lines.len(), 5);
    assert_eq!(
        lines[3],
        line(
            ProcessStage::JunosHappyCli,
            StateCondition::WaitForRegex(r"root@[A-Za-z0-9\-]+:LC:0%".to_string()),
            vec![
                note(DeviceInformation::KeptHostname),
                note(DeviceInformation::StrangeCLIPrompt),
                send_line("echo \"y\" | crontab -r"),
                send_line("rm -rfv /var/tmp/autoreload.* /tmp/autoreload.* /var/core/core.* /var/log/* /var/tmp/*"),
                send_line("cli"),
            ],
        )
    );
    assert_eq!(lines[4].target_state, ProcessStage::JunosBackupImageCli);
    assert!(lines[4].condition.matches_result("Please re-install JUNOS").unwrap());
    assert!(lines[1].condition.matches_result("root@sw-12:RE:0%").unwrap());
    assert!(!lines[1].condition.matches_result("root@:RE:0%").unwrap());
}

#[test]
fn detection_tells_the_vendors_apart() {
    let lines = ProcessStage::SwitchDetect.get_transitions();
    let targets: Vec<ProcessStage> = lines.iter().map(|t| t.target_state).collect();
    assert_eq!(
        targets,
        vec![
            ProcessStage::JunosWaitForBootloader,
            ProcessStage::Junos23WaitForBootloader,
            ProcessStage::Junos23WaitForBootloader,
            ProcessStage::Junos23WaitForBootloader,
            ProcessStage::Junos23WaitForBootloader,
            ProcessStage::Junos23WaitForBootloader,
            ProcessStage::Junos23WaitForBootloader,
            ProcessStage::AristaWaitForBootloader,
            ProcessStage::SwitchDetect,
        ]
    );
    assert_eq!(lines[0].condition, StateCondition::WaitForString("U-Boot 1.1".to_string()));
    assert_eq!(lines[0].actions, vec![Action::UpdatePortStatus { status: PortJobStatus::Busy }]);
    assert_eq!(lines[7].condition, StateCondition::WaitForString("Aboot".to_string()));
    assert_eq!(lines[8].actions, vec![send_line("E")]);
}

#[test]
fn every_regex_of_the_procedure_compiles() {
    for stage in ProcessStage::all() {
        for t in stage.get_transitions() {
            assert!(t.condition.to_needle().is_ok(), "{:?}", t.condition);
        }
    }
}

#[test]
fn the_procedure_is_a_graph_too() {
    let states = procedure_states();
    assert_eq!(states.keys().len(), 36);
    let login = states.get("JunosLogin").unwrap();
    assert_eq!(login, &state_of_stage(ProcessStage::JunosLogin));
    assert_eq!(login.transitions.len(), 5);
    assert_eq!(login.transitions[4].target, "JunosBackupImageCli");
    let line = &ProcessStage::AristaVersionOutput.get_transitions()[0];
    let declared = line.to_declarative();
    assert_eq!(declared.target, "EndJob");
    assert_eq!(declared.trigger, line.condition.to_trigger());
    assert_eq!(declared.actions, vec![Action::Function { func: ProcessFunction::CaptureAristaVersion }]);
}
