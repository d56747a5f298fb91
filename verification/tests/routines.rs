use cthulhu::active_job::ActiveJob;
use cthulhu::data_structure::StateMachineTrigger;
use cthulhu::devinfo::{DeviceInformation, DeviceInformationKind};
use cthulhu::effect::Effect;
use cthulhu::error::EngineError;
use cthulhu::json::{decode_information, read_information};
use cthulhu::pfunc::{collect_facts, collect_group, first_group, text_of_group, ProcessFunction};
use cthulhu::state::StateMachine;
use cthulhu::status::JobUpdate;
use cthulhu::trigger::{Needle, StateCondition};

fn run(func: ProcessFunction, data: &str, mat: &str) -> (Vec<DeviceInformation>, Vec<Effect>, Result<(), EngineError>) {
    let mut job = ActiveJob::create(StateMachine::default(), vec![], false, 0);
    let mut out = Vec::new();
    let r = func.execute(&mut job, data, mat, &mut out);
    (job.get_information().iter().cloned().collect(), out, r)
}

fn some(s: &str) -> Option<String> {
    Some(s.to_string())
}

#[test]
fn junos_version_is_read_from_show_version() {
    let data = "Hostname: sw\r\nModel: ex2200-24t-4g\r\nJunos: 12.3R12.4\r\nJUNOS Base OS boot [12.3R12.4]\r\n";
    let (facts, out, r) = run(ProcessFunction::CaptureJunosVersion, data, "root>");
    r.unwrap();
    assert_eq!(
        facts,
        vec![
            DeviceInformation::Model("ex2200-24t-4g".to_string()),
            DeviceInformation::SoftwareVersion("12.3R12.4".to_string()),
        ]
    );
    assert_eq!(out.len(), 2);
}

#[test]
fn chassis_serial_is_read_from_show_chassis() {
    let data = "Item             Version  Part number  Serial number     Description\nChassis                                CU0213170123      EX2200-24T-4G\nRouting Engine 0 REV 15   750-026468   CU0213170123      EX2200-24T-4G\n";
    let (facts, _, r) = run(ProcessFunction::CaptureChassisOutput, data, "");
    r.unwrap();
    assert_eq!(facts, vec![DeviceInformation::SerialNumber("CU0213170123".to_string())]);
}

#[test]
fn arista_version_is_read_from_show_version() {
    let data = "Arista DCS-7050S-64\nHardware version:    02.11\nSerial number:       JPE12345678\nSoftware image version: 4.20.1F\n";
    let (facts, _, r) = run(ProcessFunction::CaptureAristaVersion, data, "");
    r.unwrap();
    assert_eq!(
        facts,
        vec![
            DeviceInformation::Model("DCS-7050S-64".to_string()),
            DeviceInformation::SerialNumber("JPE12345678".to_string()),
            DeviceInformation::SoftwareVersion("4.20.1F".to_string()),
        ]
    );
}

#[test]
fn aboot_version_is_read() {
    let (facts, _, r) = run(ProcessFunction::CaptureAristaAbootVersion, "Aboot 2.0.8-123\n", "");
    r.unwrap();
    assert_eq!(facts, vec![DeviceInformation::BootloaderVersion("2.0.8-123".to_string())]);
}

#[test]
fn aruba_model_serial_and_mac_are_read() {
    let (facts, _, r) = run(ProcessFunction::CaptureArubaAPModel, "Model: AP-305\r\n", "");
    r.unwrap();
    assert_eq!(facts, vec![DeviceInformation::Model("AP-305".to_string())]);

    let data = "  Serial     : CNGHK0A1B2\n  Serial     : OTHER\n  Wired MAC  : 00:1a:1e:00:00:01\n";
    let (facts, out, r) = run(ProcessFunction::CaptureArubaAPSerial, data, "");
    r.unwrap();
    assert_eq!(
        facts,
        vec![
            DeviceInformation::SerialNumber("CNGHK0A1B2".to_string()),
            DeviceInformation::MacAddress("00:1a:1e:00:00:01".to_string()),
        ]
    );
    assert_eq!(out.len(), 2);
}

#[test]
fn nothing_is_recorded_where_nothing_matches() {
    let (facts, out, r) = run(ProcessFunction::CaptureJunosVersion, "no such lines", "");
    r.unwrap();
    assert!(facts.is_empty());
    assert!(out.is_empty());
}

#[test]
fn fixing_file_systems_checks_each_and_reboots() {
    let data = "ufs: /dev/da0s1a (/)\r\nufs: /dev/da0s3e (/var)\r\nnoise\r\n";
    let (facts, out, r) = run(ProcessFunction::FixFS, data, "");
    r.unwrap();
    assert_eq!(facts, vec![DeviceInformation::AttemptedToFixFilesystemIssues]);
    assert_eq!(
        out,
        vec![
            Effect::ExpectString("#".to_string()),
            Effect::SendLine("fsck -y /dev/da0s1a".to_string()),
            Effect::ExpectString("#".to_string()),
            Effect::SendLine("fsck -y /dev/da0s3e".to_string()),
            Effect::ExpectString("#".to_string()),
            Effect::SendLine("reboot".to_string()),
            Effect::Publish(JobUpdate::JobNewInfoItem(DeviceInformation::AttemptedToFixFilesystemIssues)),
        ]
    );
}

#[test]
fn arbitrary_facts_are_read_from_the_match() {
    let mat = "%%%%%{\"Vendor\":\"Juniper\"}%%%%% and %%%%%\"ReadonlyFlash\"%%%%%";
    let (facts, _, r) = run(ProcessFunction::ArbitraryDeviceInfo, "ignored", mat);
    r.unwrap();
    assert_eq!(
        facts,
        vec![DeviceInformation::Vendor("Juniper".to_string()), DeviceInformation::ReadonlyFlash]
    );

    let (facts, _, r) = run(ProcessFunction::ArbitraryDeviceInfo, "", "%%%%%{\"Vendor\":1}%%%%%");
    assert_eq!(r.unwrap_err(), EngineError::InvalidDeviceInfo { text: "{\"Vendor\":1}".to_string() });
    assert!(facts.is_empty());
}

#[test]
fn facts_are_read_from_json() {
    assert_eq!(read_information("\"Aborted\""), Some(DeviceInformation::Aborted));
    assert_eq!(read_information("{\"Aborted\":null}"), Some(DeviceInformation::Aborted));
    assert_eq!(
        read_information(" {\"SerialNumber\": \"X1\"} "),
        Some(DeviceInformation::SerialNumber("X1".to_string()))
    );
    assert_eq!(
        read_information("{\"MacAddress\":\"aa:bb\"}"),
        Some(DeviceInformation::MacAddress("aa:bb".to_string()))
    );
    assert_eq!(read_information("\"SerialNumber\""), None);
    assert_eq!(read_information("{\"Aborted\":\"x\"}"), None);
    assert_eq!(read_information("{\"Model\":\"a\",\"Vendor\":\"b\"}"), None);
    assert_eq!(read_information("{}"), None);
    assert_eq!(read_information("[\"Aborted\"]"), None);
    assert_eq!(read_information("Aborted"), None);
    assert_eq!(read_information("\"Unheard\""), None);
}

#[test]
fn facts_are_decoded_from_what_json_holds() {
    assert_eq!(decode_information(some("KeptHostname"), None), Some(DeviceInformation::KeptHostname));
    assert_eq!(decode_information(some("Model"), None), None);
    assert_eq!(
        decode_information(None, Some(vec![("Model".to_string(), some("EX"))])),
        Some(DeviceInformation::Model("EX".to_string()))
    );
    assert_eq!(
        decode_information(None, Some(vec![("BootLoop".to_string(), None)])),
        Some(DeviceInformation::BootLoop)
    );
    assert_eq!(decode_information(None, Some(vec![("Model".to_string(), None)])), None);
    assert_eq!(decode_information(None, Some(vec![])), None);
    assert_eq!(decode_information(None, None), None);
}

#[test]
fn groups_are_picked_by_position() {
    let caps = vec![
        vec![some("Model: a"), some("a"), None],
        vec![some("Junos: 1"), None, some("1")],
        vec![some("whole")],
    ];
    assert_eq!(text_of_group(&caps[0], 1), some("a"));
    assert_eq!(text_of_group(&caps[0], 2), None);
    assert_eq!(text_of_group(&caps[0], 3), None);
    assert_eq!(collect_group(&caps, 1), vec!["a"]);
    assert_eq!(collect_group(&caps, 0), vec!["Model: a", "Junos: 1", "whole"]);
    assert_eq!(first_group(&caps, 2), some("1"));
    assert_eq!(first_group(&caps, 5), None);
    let plan = vec![(1, DeviceInformationKind::Model), (2, DeviceInformationKind::SoftwareVersion)];
    assert_eq!(
        collect_facts(&caps, &plan),
        vec![
            DeviceInformation::Model("a".to_string()),
            DeviceInformation::SoftwareVersion("1".to_string()),
        ]
    );
    let flags = vec![(0, DeviceInformationKind::BootLoop)];
    assert_eq!(collect_facts(&caps, &flags), vec![DeviceInformation::BootLoop; 3]);
}

#[test]
fn triggers_judge_a_match() {
    let s = StateMachineTrigger::String { string: "login:".to_string() };
    assert_eq!(s.matches_result("login:"), Ok(true));
    assert_eq!(s.matches_result("login: "), Ok(false));
    assert_eq!(s.to_needle(), Ok(Some(Needle::String("login:".to_string()))));
    assert!(!s.is_immediate());

    let r = StateMachineTrigger::Regex { regex: r"root@[A-Za-z0-9\-]+:RE:0%".to_string() };
    assert_eq!(r.matches_result("root@sw-1:RE:0%"), Ok(true));
    assert_eq!(r.matches_result("root@:RE:0%"), Ok(false));
    assert_eq!(r.to_needle(), Ok(Some(Needle::Regex(r"root@[A-Za-z0-9\-]+:RE:0%".to_string()))));

    let lines = StateMachineTrigger::Regex { regex: "^ready$".to_string() };
    assert_eq!(lines.matches_result("booting\r\nready\r\n"), Ok(true));
    assert_eq!(lines.matches_result("not ready yet"), Ok(false));
    assert_eq!(lines.verdict_for("anything", Some(true)), Ok(true));
    assert_eq!(lines.verdict_for("anything", Some(false)), Ok(false));
    assert_eq!(
        lines.verdict_for("anything", None),
        Err(EngineError::InvalidRegex { pattern: "^ready$".to_string() })
    );

    let bad = StateMachineTrigger::Regex { regex: "(".to_string() };
    assert_eq!(bad.matches_result("x"), Err(EngineError::InvalidRegex { pattern: "(".to_string() }));
    assert_eq!(bad.to_needle(), Err(EngineError::InvalidRegex { pattern: "(".to_string() }));

    let i = StateMachineTrigger::Immediate;
    assert!(i.is_immediate());
    assert_eq!(i.matches_result("anything"), Ok(true));
    assert_eq!(i.to_needle(), Ok(None));
}

#[test]
fn conditions_are_triggers_under_another_name() {
    let c = StateCondition::WaitForString("U-Boot 1.1".to_string());
    assert_eq!(c.to_trigger(), StateMachineTrigger::String { string: "U-Boot 1.1".to_string() });
    assert_eq!(c.matches_result("U-Boot 1.1"), Ok(true));
    assert_eq!(c.to_needle(), Ok(Some(Needle::String("U-Boot 1.1".to_string()))));
    let r = StateCondition::WaitForRegex(r"\{[a-z0-9]+:0\}".to_string());
    assert_eq!(r.matches_result("{master:0}"), Ok(true));
    assert_eq!(r.matches_result("{master:1}"), Ok(false));
    assert_eq!(StateCondition::Immediate.to_needle(), Ok(None));
    assert_eq!(StateCondition::Immediate.to_trigger(), StateMachineTrigger::Immediate);
}
