use cthulhu::action::{Action, DeviceInfoArg, TimeSpan};
use cthulhu::active_job::{ActiveJob, StepEvent, StepPlan};
use cthulhu::builder::StateMachineBuilder;
use cthulhu::data_structure::{
    StateMachineFile, StateMachineMergeMode, StateMachineState, StateMachineTransition,
    StateMachineTrigger, StateMap,
};
use cthulhu::devinfo::{DeviceInformation, DeviceInformationType};
use cthulhu::effect::Effect;
use cthulhu::error::EngineError;
use cthulhu::pfunc::ProcessFunction;
use cthulhu::state::StateMachine;
use cthulhu::status::{JobCommand, JobUpdate, PortJobStatus};
use cthulhu::trigger::Needle;

fn string_trigger(text: &str) -> StateMachineTrigger {
    StateMachineTrigger::String { string: text.to_string() }
}

fn regex_trigger(pattern: &str) -> StateMachineTrigger {
    StateMachineTrigger::Regex { regex: pattern.to_string() }
}

fn transition(target: &str, trigger: StateMachineTrigger, actions: Vec<Action>) -> StateMachineTransition {
    StateMachineTransition { target: target.to_string(), trigger, actions }
}

fn graph(states: Vec<(&str, Vec<StateMachineTransition>)>) -> StateMachine {
    let mut map = StateMap::new();
    for (name, transitions) in states {
        map.insert(
            name.to_string(),
            StateMachineState { merge: StateMachineMergeMode::Replace, transitions },
        );
    }
    let mut b = StateMachineBuilder::new();
    b.load_state_file(StateMachineFile { id: "test".to_string(), depends: vec![], states: map });
    b.activate_state_file("test").unwrap();
    b.build().unwrap()
}

fn job_on(sm: StateMachine) -> ActiveJob {
    ActiveJob::create(sm, vec![("hostname".to_string(), "sw1".to_string())], false, 1000)
}

fn stage(old: &str, new: &str) -> Effect {
    Effect::Publish(JobUpdate::JobStageTransition(old.to_string(), new.to_string()))
}

fn status(s: PortJobStatus) -> Effect {
    Effect::Publish(JobUpdate::JobStatusUpdate(s))
}

fn info(i: DeviceInformation) -> Effect {
    Effect::Publish(JobUpdate::JobNewInfoItem(i))
}

fn matched(data: &str, m: &str) -> StepEvent {
    StepEvent::Matched { data: data.to_string(), matched: m.to_string() }
}

#[test]
fn a_new_job_is_in_init_and_knows_nothing() {
    let job = job_on(StateMachine::default());
    assert_eq!(job.current_state(), "Init");
    assert_eq!(job.job_started(), 1000);
    assert!(job.get_information().is_empty());
    assert_eq!(job.get_max_information_type(), None);
    assert_eq!(job.get_job_config_key("hostname"), Some("sw1".to_string()));
    assert_eq!(job.get_job_config_key("other"), None);
    assert!(job.state_machine().has_state("EndJob"));
}

#[test]
fn end_to_end_from_init_to_detected() {
    let sm = graph(vec![
        ("Init", vec![transition("SwitchDetect", StateMachineTrigger::Immediate, vec![Action::SetupJob])]),
        (
            "SwitchDetect",
            vec![transition(
                "Detected",
                string_trigger("U-Boot"),
                vec![Action::UpdatePortStatus { status: PortJobStatus::Busy }],
            )],
        ),
        ("Detected", vec![transition("Detected", string_trigger("never"), vec![])]),
    ]);
    let mut job = job_on(sm);
    let mut out = Vec::new();

    assert_eq!(job.next_step().unwrap(), StepPlan::Fire);
    job.step(StepEvent::Tick, 1, &mut out).unwrap();
    assert_eq!(job.current_state(), "SwitchDetect");

    assert_eq!(
        job.next_step().unwrap(),
        StepPlan::Wait(vec![Needle::String("U-Boot".to_string())])
    );
    job.step(StepEvent::Timeout, 2, &mut out).unwrap();
    assert_eq!(job.current_state(), "SwitchDetect");
    job.step(matched("...U-Boot", "U-Boot"), 3, &mut out).unwrap();
    assert_eq!(job.current_state(), "Detected");

    assert_eq!(
        out,
        vec![
            Effect::SetupJob,
            stage("Init", "SwitchDetect"),
            status(PortJobStatus::Busy),
            stage("SwitchDetect", "Detected"),
        ]
    );
    let transitions = out.iter().filter(|e| matches!(e, Effect::Publish(JobUpdate::JobStageTransition(_, _)))).count();
    let statuses = out.iter().filter(|e| matches!(e, Effect::Publish(JobUpdate::JobStatusUpdate(_)))).count();
    assert_eq!(transitions, 2);
    assert_eq!(statuses, 1);
}

#[test]
fn immediate_wins_whatever_stands_before_it() {
    let sm = graph(vec![(
        "Init",
        vec![
            transition("EndJob", string_trigger("x"), vec![Action::Flush]),
            transition("SwitchDetect", StateMachineTrigger::Immediate, vec![]),
        ],
    )]);
    let mut job = job_on(sm);
    assert_eq!(job.next_step().unwrap(), StepPlan::Fire);
    let mut out = Vec::new();
    job.step(StepEvent::Tick, 0, &mut out).unwrap();
    assert_eq!(job.current_state(), "SwitchDetect");
    assert_eq!(out, vec![stage("Init", "SwitchDetect")]);

    let sm = graph(vec![(
        "Init",
        vec![
            transition("EndJob", string_trigger("x"), vec![Action::Flush]),
            transition("SwitchDetect", StateMachineTrigger::Immediate, vec![]),
        ],
    )]);
    let mut job = job_on(sm);
    let mut out = Vec::new();
    job.step(matched("x", "x"), 0, &mut out).unwrap();
    assert_eq!(job.current_state(), "SwitchDetect");
    assert_eq!(out, vec![stage("Init", "SwitchDetect")]);
}

#[test]
fn the_first_matching_transition_wins() {
    let sm = graph(vec![(
        "Init",
        vec![
            transition("JobFinished", string_trigger("other"), vec![]),
            transition("SwitchDetect", regex_trigger("log.n"), vec![Action::Send { text: "first".to_string() }]),
            transition("EndJob", string_trigger("login"), vec![Action::Send { text: "second".to_string() }]),
        ],
    )]);
    let mut job = job_on(sm);
    assert_eq!(
        job.next_step().unwrap(),
        StepPlan::Wait(vec![
            Needle::String("other".to_string()),
            Needle::Regex("log.n".to_string()),
            Needle::String("login".to_string()),
        ])
    );
    let mut out = Vec::new();
    job.step(matched("please login", "login"), 0, &mut out).unwrap();
    assert_eq!(job.current_state(), "SwitchDetect");
    assert_eq!(out, vec![Effect::Send("first".to_string()), stage("Init", "SwitchDetect")]);
}

#[test]
fn a_tick_without_an_immediate_transition_does_nothing() {
    let mut job = job_on(StateMachine::default());
    let mut out = Vec::new();
    job.step(StepEvent::Tick, 0, &mut out).unwrap();
    assert_eq!(job.current_state(), "SwitchDetect");
    out.clear();
    job.step(StepEvent::Tick, 0, &mut out).unwrap();
    assert_eq!(job.current_state(), "SwitchDetect");
    assert!(out.is_empty());
}

#[test]
fn a_match_that_satisfies_no_trigger_is_an_error() {
    let mut job = job_on(StateMachine::default());
    let mut out = Vec::new();
    job.step(StepEvent::Tick, 0, &mut out).unwrap();
    out.clear();
    assert_eq!(
        job.step(matched("noise", "noise"), 0, &mut out).unwrap_err(),
        EngineError::NoTriggerMatched { text: "noise".to_string() }
    );
    assert_eq!(job.current_state(), "SwitchDetect");
    assert!(out.is_empty());
}

#[test]
fn an_invalid_regex_is_an_error() {
    let sm = graph(vec![("Init", vec![transition("Init", regex_trigger("foo(bar"), vec![])])]);
    let mut job = job_on(sm);
    assert_eq!(
        job.next_step().unwrap_err(),
        EngineError::InvalidRegex { pattern: "foo(bar".to_string() }
    );
    let mut out = Vec::new();
    assert_eq!(
        job.step(matched("foo", "foo"), 0, &mut out).unwrap_err(),
        EngineError::InvalidRegex { pattern: "foo(bar".to_string() }
    );
}

#[test]
fn a_job_in_an_unknown_state_cannot_step() {
    let mut job = job_on(StateMachine::default());
    let t = transition("Nowhere", StateMachineTrigger::Immediate, vec![Action::Flush]);
    let mut out = Vec::new();
    assert_eq!(
        job.transition(&t, "", "", 0, &mut out).unwrap_err(),
        EngineError::UnknownState { state: "Nowhere".to_string() }
    );
    assert!(out.is_empty());
    assert_eq!(job.current_state(), "Init");
}

#[test]
fn repeat_sends_exactly_three_control_h() {
    let action = Action::Repeat {
        actions: vec![Action::SendControl { char: 'h' }, Action::Flush],
        times: 3,
    };
    let mut job = job_on(StateMachine::default());
    let mut out = Vec::new();
    action.perform(&mut job, "", "", 0, &mut out).unwrap();
    assert_eq!(
        out,
        vec![
            Effect::SendControl('h'),
            Effect::Flush,
            Effect::SendControl('h'),
            Effect::Flush,
            Effect::SendControl('h'),
            Effect::Flush,
        ]
    );

    let bare = Action::Repeat { actions: vec![Action::SendControl { char: 'h' }], times: 3 };
    let mut out = Vec::new();
    bare.perform(&mut job, "", "", 0, &mut out).unwrap();
    assert_eq!(out, vec![Effect::SendControl('h'); 3]);
}

#[test]
fn repeats_nest() {
    let inner = Action::Repeat { actions: vec![Action::Send { text: "a".to_string() }], times: 2 };
    let outer = Action::Repeat { actions: vec![inner, Action::Flush], times: 2 };
    let mut job = job_on(StateMachine::default());
    let mut out = Vec::new();
    outer.perform(&mut job, "", "", 0, &mut out).unwrap();
    let a = Effect::Send("a".to_string());
    assert_eq!(out, vec![a.clone(), a.clone(), Effect::Flush, a.clone(), a, Effect::Flush]);

    let never = Action::Repeat { actions: vec![Action::Flush], times: 0 };
    let mut out = Vec::new();
    never.perform(&mut job, "", "", 0, &mut out).unwrap();
    assert!(out.is_empty());
}

#[test]
fn each_plain_action_asks_for_one_effect() {
    let mut job = job_on(StateMachine::default());
    let mut out = Vec::new();
    let actions = vec![
        Action::Send { text: "a".to_string() },
        Action::SendLine { line: "b".to_string() },
        Action::SendControl { char: 'c' },
        Action::Flush,
        Action::Delay { duration: TimeSpan { secs: 3, nanos: 500 } },
        Action::UpdatePortStatus { status: PortJobStatus::Busy },
        Action::SetupJob,
        Action::SendConfigValue { key: "hostname".to_string() },
        Action::SendConfigValue { key: "missing".to_string() },
    ];
    cthulhu::action::perform_all(&actions, &mut job, "", "", 0, &mut out).unwrap();
    assert_eq!(
        out,
        vec![
            Effect::Send("a".to_string()),
            Effect::SendLine("b".to_string()),
            Effect::SendControl('c'),
            Effect::Flush,
            Effect::Delay(TimeSpan { secs: 3, nanos: 500 }),
            status(PortJobStatus::Busy),
            Effect::SetupJob,
            Effect::Send("sw1".to_string()),
        ]
    );
}

#[test]
fn a_failing_action_stops_the_rest() {
    let actions = vec![
        Action::Send { text: "before".to_string() },
        Action::Repeat {
            actions: vec![Action::Function { func: ProcessFunction::ArbitraryDeviceInfo }, Action::Flush],
            times: 5,
        },
        Action::Send { text: "after".to_string() },
    ];
    let sm = graph(vec![("Init", vec![transition("EndJob", regex_trigger("%{5}.*%{5}"), actions)])]);
    let mut job = job_on(sm);
    let mut out = Vec::new();
    let m = "%%%%%\"NoSuchFact\"%%%%%";
    assert_eq!(
        job.step(matched(m, m), 0, &mut out).unwrap_err(),
        EngineError::InvalidDeviceInfo { text: "\"NoSuchFact\"".to_string() }
    );
    assert_eq!(out, vec![Effect::Send("before".to_string())]);
    assert_eq!(job.current_state(), "Init");
}

#[test]
fn severity_rolls_up_to_the_finish_status() {
    let mut job = job_on(StateMachine::default());
    let mut out = Vec::new();
    job.add_information(DeviceInformation::SerialNumber("X".to_string()), &mut out);
    job.add_information(DeviceInformation::SoftwareVersion("Y".to_string()), &mut out);
    assert_eq!(job.get_max_information_type(), Some(DeviceInformationType::Info));
    job.add_information(DeviceInformation::KeptHostname, &mut out);
    assert_eq!(job.get_max_information_type(), Some(DeviceInformationType::Warning));
    out.clear();
    Action::FinishJob.perform(&mut job, "", "", 5, &mut out).unwrap();
    assert_eq!(out, vec![status(PortJobStatus::FinishWarning)]);
    assert_eq!(job.get_information().len(), 3);
}

#[test]
fn finishing_with_nothing_recorded_is_idle_and_with_an_error_is_error() {
    let mut job = job_on(StateMachine::default());
    let mut out = Vec::new();
    job.finish_job(5, &mut out);
    assert_eq!(out, vec![status(PortJobStatus::Idle)]);
    out.clear();
    job.add_information(DeviceInformation::Model("m".to_string()), &mut out);
    out.clear();
    job.finish_job(5, &mut out);
    assert_eq!(out, vec![status(PortJobStatus::FinishSuccess)]);
    job.add_information(DeviceInformation::SCSIErrors, &mut out);
    out.clear();
    job.finish_job(5, &mut out);
    assert_eq!(out, vec![status(PortJobStatus::FinishError)]);
}

#[test]
fn finishing_can_make_room_for_the_next_job() {
    let mut job = ActiveJob::create(StateMachine::default(), vec![], true, 1000);
    let mut out = Vec::new();
    job.add_information(DeviceInformation::BootLoop, &mut out);
    out.clear();
    job.finish_job(2000, &mut out);
    assert_eq!(
        out,
        vec![status(PortJobStatus::FinishWarning), Effect::Publish(JobUpdate::JobStart(2000))]
    );
    assert!(job.get_information().is_empty());
    assert_eq!(job.job_started(), 2000);
}

#[test]
fn every_fact_is_kept_once() {
    let mut job = job_on(StateMachine::default());
    let mut out = Vec::new();
    job.add_information(DeviceInformation::SerialNumber("A".to_string()), &mut out);
    job.add_information(DeviceInformation::KeptHostname, &mut out);
    job.add_information(DeviceInformation::SerialNumber("A".to_string()), &mut out);
    assert_eq!(
        out,
        vec![info(DeviceInformation::SerialNumber("A".to_string())), info(DeviceInformation::KeptHostname)]
    );
    job.add_information(DeviceInformation::SerialNumber("B".to_string()), &mut out);
    assert_eq!(
        job.get_information(),
        &vec![
            DeviceInformation::SerialNumber("A".to_string()),
            DeviceInformation::KeptHostname,
            DeviceInformation::SerialNumber("B".to_string()),
        ]
    );
    assert_eq!(out.len(), 3);
    assert_eq!(out[2], info(DeviceInformation::SerialNumber("B".to_string())));
    job.add_information(DeviceInformation::KeptHostname, &mut out);
    assert_eq!(job.get_information().len(), 3);
    assert_eq!(out.len(), 3);

    let wrapped = Action::AddDeviceInfo(DeviceInfoArg::WithoutArgument { flag: DeviceInformation::Aborted });
    wrapped.perform(&mut job, "", "", 0, &mut out).unwrap();
    let bare = Action::AddDeviceInfo(DeviceInfoArg::WithArgument(DeviceInformation::Vendor("v".to_string())));
    bare.perform(&mut job, "", "", 0, &mut out).unwrap();
    assert_eq!(job.get_information().len(), 5);
    assert_eq!(job.get_max_information_type(), Some(DeviceInformationType::Error));
}

#[test]
fn adding_several_facts_records_each() {
    let mut job = job_on(StateMachine::default());
    let mut out = Vec::new();
    job.add_all_information(
        vec![
            DeviceInformation::Model("m1".to_string()),
            DeviceInformation::Model("m2".to_string()),
            DeviceInformation::Model("m1".to_string()),
            DeviceInformation::ReadonlyFlash,
        ],
        &mut out,
    );
    assert_eq!(
        job.get_information(),
        &vec![
            DeviceInformation::Model("m1".to_string()),
            DeviceInformation::Model("m2".to_string()),
            DeviceInformation::ReadonlyFlash,
        ]
    );
    assert_eq!(out.len(), 3);
}

#[test]
fn a_reset_command_aborts_and_starts_over() {
    let mut job = job_on(StateMachine::default());
    let mut out = Vec::new();
    job.step(StepEvent::Tick, 0, &mut out).unwrap();
    job.add_information(DeviceInformation::Model("m".to_string()), &mut out);
    out.clear();
    job.step(StepEvent::Command(JobCommand::ResetJob), 7000, &mut out).unwrap();
    assert_eq!(
        out,
        vec![
            info(DeviceInformation::Aborted),
            status(PortJobStatus::FinishError),
            Effect::Publish(JobUpdate::JobStart(7000)),
            stage("SwitchDetect", "Init"),
        ]
    );
    assert_eq!(job.current_state(), "Init");
    assert!(job.get_information().is_empty());
    assert_eq!(job.job_started(), 7000);
}

#[test]
fn reset_starts_a_job_over() {
    let mut job = job_on(StateMachine::default());
    let mut out = Vec::new();
    job.add_information(DeviceInformation::Model("m".to_string()), &mut out);
    out.clear();
    job.reset(42, &mut out);
    assert_eq!(out, vec![Effect::Publish(JobUpdate::JobStart(42)), stage("Init", "Init")]);
    assert!(job.get_information().is_empty());
    assert_eq!(job.job_started(), 42);
}

#[test]
fn the_builtin_graph_ends_a_job() {
    let sm = graph(vec![(
        "SwitchDetect",
        vec![transition(
            "EndJob",
            string_trigger("done"),
            vec![Action::AddDeviceInfo(DeviceInfoArg::WithArgument(DeviceInformation::Model(
                "EX2200".to_string(),
            )))],
        )],
    )]);
    let mut job = job_on(sm);
    let mut out = Vec::new();
    job.step(StepEvent::Tick, 0, &mut out).unwrap();
    job.step(matched("all done", "done"), 0, &mut out).unwrap();
    assert_eq!(job.next_step().unwrap(), StepPlan::Fire);
    job.step(StepEvent::Tick, 0, &mut out).unwrap();
    assert_eq!(job.current_state(), "JobFinished");
    assert_eq!(
        out,
        vec![
            Effect::SetupJob,
            stage("Init", "SwitchDetect"),
            info(DeviceInformation::Model("EX2200".to_string())),
            stage("SwitchDetect", "EndJob"),
            status(PortJobStatus::FinishSuccess),
            stage("EndJob", "JobFinished"),
        ]
    );
}

#[test]
fn starting_announces_an_idle_port() {
    let mut job = job_on(StateMachine::default());
    let mut out = Vec::new();
    job.start(9, &mut out);
    assert_eq!(
        out,
        vec![Effect::Publish(JobUpdate::JobStart(9)), stage("Init", "Init"), status(PortJobStatus::Idle)]
    );
    assert_eq!(job.job_started(), 9);
}
