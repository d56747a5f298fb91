use cthulhu::config::{default_active_states, TTYBaudrate};
use cthulhu::data_structure::StateMachineMergeMode;
use cthulhu::devinfo::{
    max_information_type, DeviceInformation, DeviceInformationKind, DeviceInformationType,
};
use cthulhu::job::{holds_fact, is_stale, remove_kind, JobData, JobStatus};
use cthulhu::observer::{
    find_text, find_text_or_unknown, led_color, presence_calls_for_reset, JobManager,
    NetboxJournalEntryKind, PortManagerEntry,
};
use cthulhu::stages::ProcessStage;
use cthulhu::status::{JobUpdate, PortJobStatus, PortStatus};

fn all_flags() -> Vec<DeviceInformation> {
    vec![
        DeviceInformation::AttemptedToFixFilesystemIssues,
        DeviceInformation::FailedToEnterSingleUserMode,
        DeviceInformation::ReadonlyFlash,
        DeviceInformation::SCSIErrors,
        DeviceInformation::KeptHostname,
        DeviceInformation::Aborted,
        DeviceInformation::BootLoop,
        DeviceInformation::UnableToLoadAKernel,
        DeviceInformation::AlternateImage,
        DeviceInformation::StrangeCLIPrompt,
    ]
}

fn all_statuses() -> [PortJobStatus; 7] {
    [
        PortJobStatus::Idle,
        PortJobStatus::FinishSuccess,
        PortJobStatus::FinishWarning,
        PortJobStatus::FinishError,
        PortJobStatus::Busy,
        PortJobStatus::RunningLong,
        PortJobStatus::Fatal,
    ]
}

#[test]
fn every_fact_has_its_severity() {
    let (info, warning, error) =
        (DeviceInformationType::Info, DeviceInformationType::Warning, DeviceInformationType::Error);
    let t = "t".to_string();
    assert_eq!(DeviceInformation::SerialNumber(t.clone()).get_type(), info);
    assert_eq!(DeviceInformation::SoftwareVersion(t.clone()).get_type(), info);
    assert_eq!(DeviceInformation::Model(t.clone()).get_type(), info);
    assert_eq!(DeviceInformation::Vendor(t.clone()).get_type(), info);
    assert_eq!(DeviceInformation::BootloaderVersion(t.clone()).get_type(), info);
    assert_eq!(DeviceInformation::MacAddress(t).get_type(), info);
    let severities: Vec<DeviceInformationType> = all_flags().iter().map(|f| f.get_type()).collect();
    assert_eq!(
        severities,
        vec![warning, error, error, error, warning, error, warning, warning, warning, warning]
    );
    assert!(info < warning && warning < error);
    assert_eq!(info.max_of(warning), warning);
    assert_eq!(error.max_of(warning), error);
    assert_eq!(info.max_of(info), info);
}

#[test]
fn kinds_have_names_and_facts_have_kinds() {
    for flag in all_flags() {
        let kind = flag.kind();
        assert!(!kind.carries_text());
        let name = format!("{:?}", kind);
        assert_eq!(DeviceInformationKind::from_name(&name), Some(kind));
        assert_eq!(DeviceInformation::from_kind(kind, "dropped".to_string()), flag);
    }
    for kind in [
        DeviceInformationKind::SerialNumber,
        DeviceInformationKind::SoftwareVersion,
        DeviceInformationKind::Model,
        DeviceInformationKind::Vendor,
        DeviceInformationKind::BootloaderVersion,
        DeviceInformationKind::MacAddress,
    ] {
        assert!(kind.carries_text());
        let fact = DeviceInformation::from_kind(kind, "kept".to_string());
        assert_eq!(fact.kind(), kind);
        assert_eq!(cthulhu::observer::text_of(&fact), "kept");
        assert_eq!(DeviceInformationKind::from_name(&format!("{:?}", kind)), Some(kind));
    }
    assert_eq!(DeviceInformationKind::from_name(&"serialnumber".to_string()), None);
    let a = DeviceInformation::Model("a".to_string());
    let b = DeviceInformation::Model("b".to_string());
    assert!(a.same_kind(&b));
    assert!(!a.same_as(&b));
    assert!(a.same_as(&a.clone()));
    assert!(!a.same_kind(&DeviceInformation::Vendor("a".to_string())));
    assert!(DeviceInformation::Aborted.same_as(&DeviceInformation::Aborted));
    assert!(!DeviceInformation::Aborted.same_as(&DeviceInformation::BootLoop));
}

#[test]
fn the_maximum_is_the_most_serious_severity() {
    assert_eq!(max_information_type(&vec![]), None);
    let mut items = vec![
        DeviceInformation::SerialNumber("X".to_string()),
        DeviceInformation::SoftwareVersion("Y".to_string()),
    ];
    assert_eq!(max_information_type(&items), Some(DeviceInformationType::Info));
    items.push(DeviceInformation::KeptHostname);
    assert_eq!(max_information_type(&items), Some(DeviceInformationType::Warning));
    items.insert(0, DeviceInformation::Aborted);
    assert_eq!(max_information_type(&items), Some(DeviceInformationType::Error));
    assert!(holds_fact(&items, &DeviceInformation::KeptHostname));
    assert!(!holds_fact(&items, &DeviceInformation::SerialNumber("Z".to_string())));
    assert_eq!(
        remove_kind(&items, &DeviceInformation::SerialNumber("Z".to_string())),
        vec![
            DeviceInformation::Aborted,
            DeviceInformation::SoftwareVersion("Y".to_string()),
            DeviceInformation::KeptHostname,
        ]
    );
}

#[test]
fn statuses_know_when_they_are_idle() {
    let idle: Vec<bool> = all_statuses()
        .iter()
        .map(|s| s.is_idle())
        .collect();
    assert_eq!(idle, vec![true, true, true, true, false, false, false]);
    let finished: Vec<bool> = all_statuses()
        .iter()
        .map(|s| s.is_finished())
        .collect();
    assert_eq!(finished, vec![false, true, true, true, false, false, false]);
    assert_eq!(PortJobStatus::default(), PortJobStatus::Idle);
    assert_eq!(JobStatus::default(), JobStatus::Idle);
    assert!(JobStatus::FinishError.is_idle() && JobStatus::FinishError.is_finished());
    assert!(JobStatus::Idle.is_idle() && !JobStatus::Idle.is_finished());
    assert!(!JobStatus::Busy.is_idle() && !JobStatus::Fatal.is_finished());
    assert!(PortStatus::IdleWarning.is_idle() && !PortStatus::RunningLong.is_idle());
    assert_eq!(PortStatus::default(), PortStatus::Idle);
    assert_eq!(PortStatus::IdleError.to_job_status(), PortJobStatus::FinishError);
    assert_eq!(PortJobStatus::from_max_severity(None), PortJobStatus::Idle);
    assert_eq!(PortJobStatus::from_max_severity(Some(DeviceInformationType::Info)), PortJobStatus::FinishSuccess);
    assert_eq!(PortJobStatus::from_max_severity(Some(DeviceInformationType::Warning)), PortJobStatus::FinishWarning);
    assert_eq!(PortJobStatus::from_max_severity(Some(DeviceInformationType::Error)), PortJobStatus::FinishError);
}

#[test]
fn statuses_have_colours() {
    assert_eq!(PortStatus::Idle.get_css_backgroundcolor(), "#ffffff");
    assert_eq!(PortStatus::IdleSuccess.get_css_backgroundcolor(), "#00ff00");
    assert_eq!(PortStatus::IdleWarning.get_css_backgroundcolor(), "#ff9933");
    assert_eq!(PortStatus::IdleError.get_css_backgroundcolor(), "#ff0000");
    assert_eq!(PortStatus::Busy.get_css_backgroundcolor(), "#33bbff");
    assert_eq!(PortStatus::RunningLong.get_css_backgroundcolor(), "#bb33ff");
    assert_eq!(PortStatus::Fatal.get_css_backgroundcolor(), "#ff33dd");
    assert_eq!(PortJobStatus::FinishWarning.get_css_backgroundcolor(), "#ff9933");
    assert_eq!(PortJobStatus::Fatal.get_css_backgroundcolor(), "#ff33dd");
    assert_eq!(led_color(JobStatus::Idle, Some(true), Some(true)), (127, 127, 127));
    assert_eq!(led_color(JobStatus::FinishSuccess, Some(true), Some(true)), (0, 255, 0));
    assert_eq!(led_color(JobStatus::FinishWarning, Some(true), Some(true)), (255, 153, 51));
    assert_eq!(led_color(JobStatus::FinishError, Some(true), Some(true)), (255, 0, 0));
    assert_eq!(led_color(JobStatus::Busy, Some(true), Some(true)), (0, 0, 255));
    assert_eq!(led_color(JobStatus::RunningLong, Some(true), Some(true)), (187, 51, 255));
    assert_eq!(led_color(JobStatus::Fatal, Some(true), Some(true)), (255, 51, 221));
    assert_eq!(led_color(JobStatus::Busy, Some(true), None), (199, 21, 133));
    assert_eq!(led_color(JobStatus::Busy, Some(false), Some(true)), (199, 21, 133));
}

#[test]
fn job_data_follows_the_updates() {
    let mut data = JobData::with_label("port1");
    assert_eq!(data.get_status(0), JobStatus::Idle);
    assert_eq!(data.get_current_stage(), None);
    assert_eq!(data.get_last_updated(), None);
    assert_eq!(data.get_max_information_type(), DeviceInformationType::Warning);

    data.update(JobUpdate::JobStart(100), 100);
    assert_eq!(data.job_started, Some(100));
    data.update(JobUpdate::JobStageTransition("Init".to_string(), "SwitchDetect".to_string()), 110);
    assert_eq!(data.get_current_stage(), Some("SwitchDetect"));
    assert_eq!(data.get_last_updated(), Some(110));
    assert_eq!(data.get_status(10_000_000), JobStatus::Idle);

    data.update(JobUpdate::JobStageTransition("SwitchDetect".to_string(), "JunosLogin".to_string()), 1_000);
    data.update(JobUpdate::JobStatusUpdate(PortJobStatus::Busy), 1_001);
    assert_eq!(data.get_status(1_000), JobStatus::Busy);
    assert_eq!(data.get_status(901_000), JobStatus::Busy);
    assert_eq!(data.get_status(901_001), JobStatus::RunningLong);

    data.update(JobUpdate::JobNewInfoItem(DeviceInformation::SerialNumber("A".to_string())), 2_000);
    data.update(JobUpdate::JobNewInfoItem(DeviceInformation::SerialNumber("B".to_string())), 2_000);
    assert_eq!(data.info_items, vec![DeviceInformation::SerialNumber("B".to_string())]);
    data.update(JobUpdate::JobStageTransition("JunosLogin".to_string(), "JobFinished".to_string()), 3_000);
    assert_eq!(data.get_status(3_000), JobStatus::FinishSuccess);
    data.add_info_item(DeviceInformation::KeptHostname);
    assert_eq!(data.get_status(3_000), JobStatus::FinishWarning);
    data.add_info_item(DeviceInformation::Aborted);
    assert_eq!(data.get_status(99_000_000), JobStatus::FinishError);
    data.update(JobUpdate::JobEnd(3_500), 3_500);
    assert_eq!(data.job_ended, Some(3_500));
    assert_eq!(data.state_history.len(), 3);

    let snapshot = data.clone();
    data.update(JobUpdate::JobStart(5_000), 5_000);
    assert_eq!(data.label, "port1");
    assert_eq!(data.job_started, Some(5_000));
    assert_eq!(data.job_ended, None);
    assert!(data.state_history.is_empty() && data.info_items.is_empty());
    data.update(JobUpdate::JobFullData(snapshot.clone()), 6_000);
    assert_eq!(data, snapshot);
    data.reset();
    assert_eq!(data, JobData::with_label("port1"));
}

#[test]
fn a_finished_job_without_facts_is_idle() {
    let mut data = JobData::with_label("p");
    data.update(JobUpdate::JobStageTransition("EndJob".to_string(), "JobFinished".to_string()), 1);
    assert_eq!(data.get_status(1), JobStatus::Idle);
    assert_eq!(data.get_status(i64::MAX), JobStatus::Idle);
    data.add_info_item(DeviceInformation::Model("m".to_string()));
    assert_eq!(data.get_status(1), JobStatus::FinishSuccess);
}

#[test]
fn staleness_begins_after_fifteen_minutes() {
    assert!(!is_stale(0, 900_000));
    assert!(is_stale(0, 900_001));
    assert!(!is_stale(i64::MAX, i64::MAX));
    assert!(!is_stale(i64::MAX - 900_000, i64::MAX));
    assert!(is_stale(i64::MIN, 0));
}

#[test]
fn a_dashboard_entry_follows_the_updates() {
    let mut e = PortManagerEntry::with_label("p1");
    assert_eq!(e.status, PortJobStatus::Idle);
    e.accept_update(JobUpdate::JobStart(10), 11);
    e.accept_update(JobUpdate::JobNewInfoItem(DeviceInformation::Model("m".to_string())), 12);
    e.accept_update(JobUpdate::JobNewInfoItem(DeviceInformation::Model("m".to_string())), 13);
    e.accept_update(JobUpdate::JobStageTransition("Init".to_string(), "JunosLogin".to_string()), 14);
    e.accept_update(JobUpdate::JobStatusUpdate(PortJobStatus::Busy), 15);
    assert_eq!(e.job_started, 10);
    assert_eq!(e.last_update, 15);
    assert_eq!(e.current_stage, "JunosLogin");
    assert_eq!(e.info_items.len(), 2);
    assert_eq!(e.shown_status(900_015), PortJobStatus::Busy);
    assert_eq!(e.shown_status(900_016), PortJobStatus::RunningLong);
    e.accept_update(JobUpdate::JobStatusUpdate(PortJobStatus::FinishSuccess), 16);
    assert_eq!(e.shown_status(9_000_000), PortJobStatus::FinishSuccess);
    e.accept_update(JobUpdate::JobEnd(17), 17);
    assert_eq!(e.last_update, 17);
    e.accept_update(JobUpdate::JobStart(20), 21);
    assert!(e.info_items.is_empty());
}

#[test]
fn texts_are_found_by_kind() {
    let items = vec![
        DeviceInformation::KeptHostname,
        DeviceInformation::SerialNumber("S1".to_string()),
        DeviceInformation::Vendor("Juniper".to_string()),
        DeviceInformation::SerialNumber("S2".to_string()),
    ];
    assert_eq!(find_text(&items, DeviceInformationKind::SerialNumber), Some("S1".to_string()));
    assert_eq!(find_text(&items, DeviceInformationKind::Model), None);
    assert_eq!(find_text(&items, DeviceInformationKind::KeptHostname), Some(String::new()));
    assert_eq!(find_text_or_unknown(&items, DeviceInformationKind::Vendor), "Juniper");
    assert_eq!(find_text_or_unknown(&items, DeviceInformationKind::Model), "UNKN");
}

#[test]
fn a_switch_that_appears_calls_for_a_new_job() {
    assert!(presence_calls_for_reset(Some(false), true, Some(true)));
    assert!(!presence_calls_for_reset(None, true, Some(true)));
    assert!(!presence_calls_for_reset(Some(true), true, Some(true)));
    assert!(!presence_calls_for_reset(Some(false), false, Some(true)));
    assert!(!presence_calls_for_reset(Some(false), true, Some(false)));
    assert!(!presence_calls_for_reset(Some(false), true, None));
}

#[test]
fn journal_entries_follow_the_severity() {
    assert_eq!(
        NetboxJournalEntryKind::for_severity(DeviceInformationType::Info),
        NetboxJournalEntryKind::Success
    );
    assert_eq!(
        NetboxJournalEntryKind::for_severity(DeviceInformationType::Warning),
        NetboxJournalEntryKind::Warning
    );
    assert_eq!(
        NetboxJournalEntryKind::for_severity(DeviceInformationType::Error),
        NetboxJournalEntryKind::Danger
    );
}

#[test]
fn defaults_are_as_documented() {
    assert_eq!(default_active_states(), vec!["wipe"]);
    assert_eq!(TTYBaudrate::default(), TTYBaudrate(9600));
    assert_eq!(StateMachineMergeMode::default(), StateMachineMergeMode::Replace);
    assert_eq!(ProcessStage::default(), ProcessStage::Init);
}

#[test]
fn a_dashboard_keeps_one_entry_for_each_port() {
    let mut board = JobManager::new();
    assert!(board.get_ports(0).is_empty());
    assert!(board.get_port("p1", 0).is_none());
    board.accept_update("p1", JobUpdate::JobStatusUpdate(PortJobStatus::Busy), 100);
    board.append_log_data("p2", b"boot");
    board.append_log_data("p2", b"ing");
    board.accept_update("p1", JobUpdate::JobNewInfoItem(DeviceInformation::BootLoop), 200);
    let ports = board.get_ports(300);
    assert_eq!(ports.len(), 2);
    assert_eq!(ports[0].label, "p1");
    assert_eq!(ports[0].status, PortJobStatus::Busy);
    assert_eq!(ports[0].last_update, 200);
    assert_eq!(ports[0].info_items, vec![DeviceInformation::BootLoop]);
    assert_eq!(ports[1].label, "p2");
    assert_eq!(ports[1].log_buffer, b"booting".to_vec());
    assert_eq!(ports[1], {
        let mut e = PortManagerEntry::with_label("p2");
        e.log_buffer = b"booting".to_vec();
        e
    });
    assert_eq!(board.get_port("p1", 900_200).unwrap().status, PortJobStatus::Busy);
    assert_eq!(board.get_port("p1", 900_201).unwrap().status, PortJobStatus::RunningLong);
    assert_eq!(board.get_ports(900_201)[0].status, PortJobStatus::RunningLong);
    assert_eq!(board.get_ports(900_201)[1].status, PortJobStatus::Idle);
    board.accept_update("p2", JobUpdate::JobStart(1_000), 1_000);
    let p2 = board.get_port("p2", 1_000).unwrap();
    assert!(p2.log_buffer.is_empty());
    assert_eq!(p2.job_started, 1_000);
    assert!(board.get_port("p3", 0).is_none());
}

#[test]
fn statuses_have_signs() {
    let signs: Vec<String> = all_statuses().iter().map(|s| s.symbol()).collect();
    assert_eq!(signs, vec!["😴", "✅", "⚠️", "❗", "⏳", "⏰", "😵"]);
    assert_eq!(JobStatus::RunningLong.symbol(), "⏰");
    assert_eq!(JobStatus::FinishSuccess.get_css_backgroundcolor(), "#00ff00");
    assert_eq!(JobStatus::Fatal.to_port_status(), PortJobStatus::Fatal);
    assert_eq!(PortStatus::IdleSuccess.symbol(), "✅");
}

#[test]
fn an_argument_names_a_fact() {
    let bare = cthulhu::action::DeviceInfoArg::WithArgument(DeviceInformation::Model("m".to_string()));
    let wrapped = cthulhu::action::DeviceInfoArg::WithoutArgument { flag: DeviceInformation::BootLoop };
    assert_eq!(DeviceInformation::from(bare.clone()), DeviceInformation::Model("m".to_string()));
    assert_eq!(bare.into_information(), DeviceInformation::Model("m".to_string()));
    let fact: DeviceInformation = wrapped.into();
    assert_eq!(fact, DeviceInformation::BootLoop);
}
