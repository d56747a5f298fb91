//! The named routines that read facts out of console output.
//!
//! Each routine searches the output with a regular expression, line by line
//! and with `\r\n` taken as one line ending, and records what the groups of
//! the matches hold. One of them, `FixFS`, also repairs file systems: it asks
//! for a sequence of console commands of its own.

use crate::active_job::ActiveJob;
use crate::devinfo::{facts_of, DeviceFact, DeviceInformation, DeviceInformationKind};
use crate::effect::{effects_view, Effect, EffectView, Progress};
use crate::error::{EngineError, EngineErrorView};
use crate::json::{fact_in_json, read_information};
use crate::pattern::{capture_view, captures_view, regex_capture_all, regex_captures, Capture};
use vstd::prelude::*;
use vstd::string::*;

verus! {

/// A routine that an action can invoke by name.
#[derive(Copy, Clone, Debug, PartialEq, Eq, PartialOrd, Structural)]
pub enum ProcessFunction {
    FixFS,
    CaptureJunosVersion,
    CaptureChassisOutput,
    CaptureAristaVersion,
    CaptureArubaAPModel,
    CaptureArubaAPSerial,
    CaptureAristaAbootVersion,
    ArbitraryDeviceInfo,
}

/// Marks a fact written as JSON between two runs of five percent signs.
pub const ARBITRARY_PATTERN: &'static str = r"%%%%%(?<devinfo>[^%]+)%%%%%";

/// A line that names a file system in need of repair.
pub const FIXFS_PATTERN: &'static str = r"ufs: (?<device>[/a-zA-Z0-9]+) \(.*\)$";

/// The model and the version in the output of `show version` on Junos.
pub const JUNOS_PATTERN: &'static str =
    r"(?:Model: (?<model>[a-zA-Z0-9\-]+)$)|(?:Junos: (?<version>[0-9a-zA-Z\-\.]+)$)";

/// The serial number in the output of `show chassis hardware` on Junos.
pub const CHASSIS_PATTERN: &'static str = r"^Chassis\s+(?<serial>[A-Za-z0-9]+)\s+.*$";

/// The model, the serial number and the version in the output of
/// `show version` on an Arista switch.
pub const ARISTA_PATTERN: &'static str =
    r"(?:^Arista (?<model>[a-zA-Z \-0-9]+)$)|(?:^Serial number:\s+(?<serial>[A-Za-z0-9]+)$)|(?:Software image version: (?<version>[0-9\.A-Za-z]+)$)";

/// The version of the Aboot boot loader.
pub const ABOOT_PATTERN: &'static str = r"(?<aboot>[\d\.-]+)$";

/// The model of an Aruba access point.
pub const ARUBA_MODEL_PATTERN: &'static str = r"^Model:\s+(?<model>[A-Za-z0-9-]+)$";

/// The serial number of an Aruba access point.
pub const ARUBA_SERIAL_PATTERN: &'static str = r"^\s+Serial\s+:\s+(?<serial>[A-Za-z0-9-]+)$";

/// The wired MAC address of an Aruba access point.
pub const ARUBA_MAC_PATTERN: &'static str = r"^\s+Wired MAC\s+:\s+(?<mac>[A-Za-z0-9:]+)$";

/// A match as a mathematical value: its groups, the whole match first.
pub type Groups = Seq<Option<Seq<char>>>;

/// Which group of a match states a fact of which kind.
pub type Plan = Seq<(int, DeviceInformationKind)>;

/// The text of the group `g` of a match, if the group took part in it.
pub open spec fn group_text(c: Groups, g: int) -> Option<Seq<char>> {
    if 0 <= g < c.len() {
        c[g]
    } else {
        None
    }
}

/// The facts that one match states: for each entry of the plan whose group
/// took part in the match, a fact of that kind with the text of the group.
pub open spec fn capture_facts(c: Groups, plan: Plan) -> Seq<DeviceFact>
    decreases plan.len(),
{
    if plan.len() == 0 {
        Seq::empty()
    } else {
        match group_text(c, plan.last().0) {
            Some(text) => capture_facts(c, plan.drop_last()).push(
                DeviceFact::of(plan.last().1, text),
            ),
            None => capture_facts(c, plan.drop_last()),
        }
    }
}

/// The facts that the matches state, match by match.
pub open spec fn captured_facts(caps: Seq<Groups>, plan: Plan) -> Seq<DeviceFact>
    decreases caps.len(),
{
    if caps.len() == 0 {
        Seq::empty()
    } else {
        captured_facts(caps.drop_last(), plan) + capture_facts(caps.last(), plan)
    }
}

/// The texts of the group `g` in the matches in which it took part.
pub open spec fn group_texts(caps: Seq<Groups>, g: int) -> Seq<Seq<char>>
    decreases caps.len(),
{
    if caps.len() == 0 {
        Seq::empty()
    } else {
        match group_text(caps.last(), g) {
            Some(text) => group_texts(caps.drop_last(), g).push(text),
            None => group_texts(caps.drop_last(), g),
        }
    }
}

/// The text of the group `g` in the first match in which it took part.
pub open spec fn first_text(caps: Seq<Groups>, g: int) -> Option<Seq<char>>
    decreases caps.len(),
{
    if caps.len() == 0 {
        None
    } else {
        match group_text(caps[0], g) {
            Some(text) => Some(text),
            None => first_text(caps.drop_first(), g),
        }
    }
}

/// The account after the facts that the matches of `pattern` in `text` state
/// were recorded.
pub open spec fn captured_into(pattern: Seq<char>, text: Seq<char>, plan: Plan, acc: Progress) -> Progress {
    if acc.failed is Some {
        acc
    } else {
        match regex_captures(pattern, true, true, text) {
            None => acc.fail(EngineErrorView::InvalidRegex { pattern }),
            Some(caps) => acc.record_all(captured_facts(caps, plan)),
        }
    }
}

/// The account after the fact was recorded that the first group of the first
/// match of `pattern` in `text` states.
pub open spec fn first_into(
    pattern: Seq<char>,
    text: Seq<char>,
    kind: DeviceInformationKind,
    acc: Progress,
) -> Progress {
    if acc.failed is Some {
        acc
    } else {
        match regex_captures(pattern, true, true, text) {
            None => acc.fail(EngineErrorView::InvalidRegex { pattern }),
            Some(caps) => match first_text(caps, 1) {
                Some(t) => acc.record(DeviceFact::of(kind, t)),
                None => acc,
            },
        }
    }
}

/// The account after each of the devices was checked and the prompt awaited.
pub open spec fn fsck_each(devices: Seq<Seq<char>>, acc: Progress) -> Progress
    decreases devices.len(),
{
    if devices.len() == 0 {
        acc
    } else {
        fsck_each(devices.drop_last(), acc).emit(
            EffectView::SendLine("fsck -y "@ + devices.last()),
        ).emit(EffectView::ExpectString("#"@))
    }
}

/// The account after the file systems that `data` names were repaired: the
/// prompt is awaited, each of them is checked, the device is rebooted, and
/// the attempt is recorded.
pub open spec fn fixfs_outcome(data: Seq<char>, acc: Progress) -> Progress {
    match regex_captures(FIXFS_PATTERN@, true, true, data) {
        None => acc.fail(EngineErrorView::InvalidRegex { pattern: FIXFS_PATTERN@ }),
        Some(caps) => fsck_each(
            group_texts(caps, 1),
            acc.emit(EffectView::ExpectString("#"@)),
        ).emit(EffectView::SendLine("reboot"@)).record(
            DeviceFact::of(DeviceInformationKind::AttemptedToFixFilesystemIssues, Seq::empty()),
        ),
    }
}

/// The account after the facts that the texts state in JSON were recorded,
/// one after the other, up to the first text that states none.
pub open spec fn read_facts(texts: Seq<Seq<char>>, acc: Progress) -> Progress
    decreases texts.len(),
{
    if texts.len() == 0 {
        acc
    } else {
        let before = read_facts(texts.drop_last(), acc);
        if before.failed is Some {
            before
        } else {
            match fact_in_json(texts.last()) {
                Some(fact) => before.record(fact),
                None => before.fail(EngineErrorView::InvalidDeviceInfo { text: texts.last() }),
            }
        }
    }
}

/// The account after the routine `func` ran on the console output `data` and
/// the match `mat`.
pub open spec fn function_outcome(
    func: ProcessFunction,
    data: Seq<char>,
    mat: Seq<char>,
    acc: Progress,
) -> Progress {
    if acc.failed is Some {
        acc
    } else {
        match func {
            ProcessFunction::ArbitraryDeviceInfo => match regex_captures(
                ARBITRARY_PATTERN@,
                true,
                true,
                mat,
            ) {
                None => acc.fail(EngineErrorView::InvalidRegex { pattern: ARBITRARY_PATTERN@ }),
                Some(caps) => read_facts(group_texts(caps, 1), acc),
            },
            ProcessFunction::FixFS => fixfs_outcome(data, acc),
            ProcessFunction::CaptureJunosVersion => captured_into(
                JUNOS_PATTERN@,
                data,
                seq![
                    (1, DeviceInformationKind::Model),
                    (2, DeviceInformationKind::SoftwareVersion),
                ],
                acc,
            ),
            ProcessFunction::CaptureChassisOutput => captured_into(
                CHASSIS_PATTERN@,
                data,
                seq![(1, DeviceInformationKind::SerialNumber)],
                acc,
            ),
            ProcessFunction::CaptureAristaVersion => captured_into(
                ARISTA_PATTERN@,
                data,
                seq![
                    (1, DeviceInformationKind::Model),
                    (2, DeviceInformationKind::SerialNumber),
                    (3, DeviceInformationKind::SoftwareVersion),
                ],
                acc,
            ),
            ProcessFunction::CaptureAristaAbootVersion => captured_into(
                ABOOT_PATTERN@,
                data,
                seq![(1, DeviceInformationKind::BootloaderVersion)],
                acc,
            ),
            ProcessFunction::CaptureArubaAPModel => captured_into(
                ARUBA_MODEL_PATTERN@,
                data,
                seq![(1, DeviceInformationKind::Model)],
                acc,
            ),
            ProcessFunction::CaptureArubaAPSerial => first_into(
                ARUBA_MAC_PATTERN@,
                data,
                DeviceInformationKind::MacAddress,
                first_into(ARUBA_SERIAL_PATTERN@, data, DeviceInformationKind::SerialNumber, acc),
            ),
        }
    }
}

/// The plan of a list, as a mathematical value.
pub open spec fn plan_view(plan: Seq<(usize, DeviceInformationKind)>) -> Plan {
    Seq::new(plan.len(), |i: int| (plan[i].0 as int, plan[i].1))
}

/// The text of the group `g` of a match, if the group took part in it.
pub fn text_of_group(c: &Capture, g: usize) -> (r: Option<String>)
    ensures
        match r {
            Some(s) => group_text(capture_view(*c), g as int) == Some(s@),
            None => group_text(capture_view(*c), g as int) is None,
        },
{
    if g < c.len() {
        match &c[g] {
            Some(s) => Some(s.clone()),
            None => None,
        }
    } else {
        None
    }
}

/// The facts that the matches state under the plan, match by match.
pub fn collect_facts(caps: &Vec<Capture>, plan: &Vec<(usize, DeviceInformationKind)>) -> (r: Vec<
    DeviceInformation,
>)
    ensures
        facts_of(r@) == captured_facts(captures_view(caps@), plan_view(plan@)),
{
    let ghost cv = captures_view(caps@);
    let ghost pv = plan_view(plan@);
    let mut out: Vec<DeviceInformation> = Vec::new();
    let mut i: usize = 0;
    assert(cv.take(0) =~= Seq::<Groups>::empty());
    assert(facts_of(out@) =~= Seq::<DeviceFact>::empty());
    while i < caps.len()
        invariant
            i <= caps.len(),
            cv == captures_view(caps@),
            pv == plan_view(plan@),
            facts_of(out@) == captured_facts(cv.take(i as int), pv),
        decreases caps.len() - i,
    {
        let ghost done = facts_of(out@);
        let ghost c = cv[i as int];
        let mut k: usize = 0;
        assert(pv.take(0) =~= Seq::<(int, DeviceInformationKind)>::empty());
        assert(done + Seq::<DeviceFact>::empty() =~= done);
        while k < plan.len()
            invariant
                i < caps.len(),
                k <= plan.len(),
                cv == captures_view(caps@),
                pv == plan_view(plan@),
                c == cv[i as int],
                facts_of(out@) == done + capture_facts(c, pv.take(k as int)),
            decreases plan.len() - k,
        {
            assert(pv.take(k as int + 1).drop_last() =~= pv.take(k as int));
            assert(pv.take(k as int + 1).last() == pv[k as int]);
            match text_of_group(&caps[i], plan[k].0) {
                Some(text) => {
                    let ghost before = out@;
                    let item = DeviceInformation::from_kind(plan[k].1, text);
                    out.push(item);
                    assert(facts_of(out@) =~= facts_of(before).push(item@));
                    assert(done + capture_facts(c, pv.take(k as int)).push(item@) =~= (done
                        + capture_facts(c, pv.take(k as int))).push(item@));
                },
                None => {},
            }
            k += 1;
        }
        assert(pv.take(plan.len() as int) =~= pv);
        assert(cv.take(i as int + 1).drop_last() =~= cv.take(i as int));
        assert(cv.take(i as int + 1).last() == c);
        i += 1;
    }
    assert(cv.take(caps.len() as int) =~= cv);
    out
}

/// The values of a list of strings, in order.
pub open spec fn texts_view(ss: Seq<String>) -> Seq<Seq<char>> {
    Seq::new(ss.len(), |i: int| ss[i]@)
}

/// The texts of the group `g` in the matches in which it took part.
pub fn collect_group(caps: &Vec<Capture>, g: usize) -> (r: Vec<String>)
    ensures
        texts_view(r@) == group_texts(captures_view(caps@), g as int),
{
    let ghost cv = captures_view(caps@);
    let mut out: Vec<String> = Vec::new();
    let mut i: usize = 0;
    assert(cv.take(0) =~= Seq::<Groups>::empty());
    assert(texts_view(out@) =~= Seq::<Seq<char>>::empty());
    while i < caps.len()
        invariant
            i <= caps.len(),
            cv == captures_view(caps@),
            texts_view(out@) == group_texts(cv.take(i as int), g as int),
        decreases caps.len() - i,
    {
        assert(cv.take(i as int + 1).drop_last() =~= cv.take(i as int));
        assert(cv.take(i as int + 1).last() == cv[i as int]);
        match text_of_group(&caps[i], g) {
            Some(text) => {
                let ghost before = out@;
                out.push(text);
                assert(texts_view(out@) =~= texts_view(before).push(text@));
            },
            None => {},
        }
        i += 1;
    }
    assert(cv.take(caps.len() as int) =~= cv);
    out
}

/// The text of the group `g` in the first match in which it took part.
pub fn first_group(caps: &Vec<Capture>, g: usize) -> (r: Option<String>)
    ensures
        match r {
            Some(s) => first_text(captures_view(caps@), g as int) == Some(s@),
            None => first_text(captures_view(caps@), g as int) is None,
        },
{
    let ghost cv = captures_view(caps@);
    let mut i: usize = 0;
    assert(cv.skip(0) =~= cv);
    while i < caps.len()
        invariant
            i <= caps.len(),
            cv == captures_view(caps@),
            first_text(cv, g as int) == first_text(cv.skip(i as int), g as int),
        decreases caps.len() - i,
    {
        assert(cv.skip(i as int).drop_first() =~= cv.skip(i as int + 1));
        assert(cv.skip(i as int)[0] == cv[i as int]);
        match text_of_group(&caps[i], g) {
            Some(text) => {
                return Some(text);
            },
            None => {},
        }
        i += 1;
    }
    None
}

/// Records the facts that the matches of `pattern` in `text` state.
fn capture_into(
    job: &mut ActiveJob,
    pattern: &str,
    text: &str,
    plan: &Vec<(usize, DeviceInformationKind)>,
    out: &mut Vec<Effect>,
) -> (r: Result<(), EngineError>)
    ensures
        final(job)@ == old(job)@.resumed(
            captured_into(
                pattern@,
                text@,
                plan_view(plan@),
                old(job)@.progress(effects_view(old(out)@)),
            ),
        ),
        effects_view(final(out)@) == captured_into(
            pattern@,
            text@,
            plan_view(plan@),
            old(job)@.progress(effects_view(old(out)@)),
        ).effects,
        match r {
            Ok(()) => captured_into(
                pattern@,
                text@,
                plan_view(plan@),
                old(job)@.progress(effects_view(old(out)@)),
            ).failed is None,
            Err(e) => captured_into(
                pattern@,
                text@,
                plan_view(plan@),
                old(job)@.progress(effects_view(old(out)@)),
            ).failed == Some(e@),
        },
{
    match regex_capture_all(pattern, true, true, text) {
        None => Err(EngineError::InvalidRegex { pattern: String::from_str(pattern) }),
        Some(caps) => {
            let facts = collect_facts(&caps, plan);
            proof {
                lemma_record_all_keeps_going(
                    job@.progress(effects_view(out@)),
                    facts_of(facts@),
                );
            }
            job.add_all_information(facts, out);
            Ok(())
        },
    }
}

/// Recording facts never stops the work.
pub proof fn lemma_record_all_keeps_going(acc: Progress, facts: Seq<DeviceFact>)
    ensures
        acc.record_all(facts).failed == acc.failed,
    decreases facts.len(),
{
    if facts.len() > 0 {
        lemma_record_all_keeps_going(acc, facts.drop_last());
    }
}

/// A plan with one entry.
fn plan_of_one(g: usize, kind: DeviceInformationKind) -> (r: Vec<(usize, DeviceInformationKind)>)
    ensures
        plan_view(r@) == seq![(g as int, kind)],
{
    let mut v: Vec<(usize, DeviceInformationKind)> = Vec::new();
    v.push((g, kind));
    assert(plan_view(v@) =~= seq![(g as int, kind)]);
    v
}

/// Records the fact that the first group of the first match of `pattern` in
/// `text` states.
fn capture_first_into(
    job: &mut ActiveJob,
    pattern: &str,
    text: &str,
    kind: DeviceInformationKind,
    out: &mut Vec<Effect>,
) -> (r: Result<(), EngineError>)
    ensures
        final(job)@ == old(job)@.resumed(
            first_into(pattern@, text@, kind, old(job)@.progress(effects_view(old(out)@))),
        ),
        effects_view(final(out)@) == first_into(
            pattern@,
            text@,
            kind,
            old(job)@.progress(effects_view(old(out)@)),
        ).effects,
        match r {
            Ok(()) => first_into(
                pattern@,
                text@,
                kind,
                old(job)@.progress(effects_view(old(out)@)),
            ).failed is None,
            Err(e) => first_into(
                pattern@,
                text@,
                kind,
                old(job)@.progress(effects_view(old(out)@)),
            ).failed == Some(e@),
        },
{
    match regex_capture_all(pattern, true, true, text) {
        None => Err(EngineError::InvalidRegex { pattern: String::from_str(pattern) }),
        Some(caps) => {
            match first_group(&caps, 1) {
                Some(t) => {
                    job.add_information(DeviceInformation::from_kind(kind, t), out);
                },
                None => {},
            }
            Ok(())
        },
    }
}

/// Checking file systems asks for effects and changes nothing else.
pub proof fn lemma_fsck_each(devices: Seq<Seq<char>>, acc: Progress)
    ensures
        fsck_each(devices, acc) == (Progress { effects: fsck_each(devices, acc).effects, ..acc }),
    decreases devices.len(),
{
    if devices.len() > 0 {
        lemma_fsck_each(devices.drop_last(), acc);
    }
}

/// Once a text states no fact, the texts behind it are not read.
pub proof fn lemma_read_facts_stops(texts: Seq<Seq<char>>, k: int, acc: Progress)
    requires
        0 <= k <= texts.len(),
        read_facts(texts.take(k), acc).failed is Some,
    ensures
        read_facts(texts, acc) == read_facts(texts.take(k), acc),
    decreases texts.len() - k,
{
    if k < texts.len() {
        assert(texts.take(k + 1).drop_last() =~= texts.take(k));
        lemma_read_facts_stops(texts, k + 1, acc);
    } else {
        assert(texts.take(k) =~= texts);
    }
}

/// Repairs the file systems that `data` names.
fn fix_filesystems(job: &mut ActiveJob, data: &str, out: &mut Vec<Effect>) -> (r: Result<
    (),
    EngineError,
>)
    ensures
        final(job)@ == old(job)@.resumed(
            fixfs_outcome(data@, old(job)@.progress(effects_view(old(out)@))),
        ),
        effects_view(final(out)@) == fixfs_outcome(
            data@,
            old(job)@.progress(effects_view(old(out)@)),
        ).effects,
        match r {
            Ok(()) => fixfs_outcome(data@, old(job)@.progress(effects_view(old(out)@))).failed
                is None,
            Err(e) => fixfs_outcome(data@, old(job)@.progress(effects_view(old(out)@))).failed
                == Some(e@),
        },
{
    let ghost start = job@.progress(effects_view(out@));
    match regex_capture_all(FIXFS_PATTERN, true, true, data) {
        None => Err(EngineError::InvalidRegex { pattern: String::from_str(FIXFS_PATTERN) }),
        Some(caps) => {
            let devices = collect_group(&caps, 1);
            let ghost devs = texts_view(devices@);
            let ghost sent = out@;
            out.push(Effect::ExpectString(String::from_str("#")));
            assert(effects_view(out@) =~= effects_view(sent).push(EffectView::ExpectString("#"@)));
            let ghost first = start.emit(EffectView::ExpectString("#"@));
            let mut i: usize = 0;
            assert(devs.take(0) =~= Seq::<Seq<char>>::empty());
            while i < devices.len()
                invariant
                    i <= devices.len(),
                    devs == texts_view(devices@),
                    effects_view(out@) == fsck_each(devs.take(i as int), first).effects,
                decreases devices.len() - i,
            {
                assert(devs.take(i as int + 1).drop_last() =~= devs.take(i as int));
                assert(devs.take(i as int + 1).last() == devices@[i as int]@);
                let line = String::from_str("fsck -y ").concat(devices[i].as_str());
                let ghost a = out@;
                out.push(Effect::SendLine(line));
                let ghost b = out@;
                out.push(Effect::ExpectString(String::from_str("#")));
                assert(effects_view(out@) =~= effects_view(a).push(
                    EffectView::SendLine("fsck -y "@ + devices@[i as int]@),
                ).push(EffectView::ExpectString("#"@)));
                i += 1;
            }
            assert(devs.take(devices.len() as int) =~= devs);
            let ghost c = out@;
            out.push(Effect::SendLine(String::from_str("reboot")));
            assert(effects_view(out@) =~= effects_view(c).push(EffectView::SendLine("reboot"@)));
            proof {
                lemma_fsck_each(devs, first);
            }
            job.add_information(DeviceInformation::AttemptedToFixFilesystemIssues, out);
            Ok(())
        },
    }
}

/// Records the facts that the texts state in JSON, one after the other.
fn record_json_facts(job: &mut ActiveJob, texts: &Vec<String>, out: &mut Vec<Effect>) -> (r:
    Result<(), EngineError>)
    ensures
        final(job)@ == old(job)@.resumed(
            read_facts(texts_view(texts@), old(job)@.progress(effects_view(old(out)@))),
        ),
        effects_view(final(out)@) == read_facts(
            texts_view(texts@),
            old(job)@.progress(effects_view(old(out)@)),
        ).effects,
        match r {
            Ok(()) => read_facts(
                texts_view(texts@),
                old(job)@.progress(effects_view(old(out)@)),
            ).failed is None,
            Err(e) => read_facts(
                texts_view(texts@),
                old(job)@.progress(effects_view(old(out)@)),
            ).failed == Some(e@),
        },
{
    let ghost start = job@.progress(effects_view(out@));
    let ghost tv = texts_view(texts@);
    let mut i: usize = 0;
    assert(tv.take(0) =~= Seq::<Seq<char>>::empty());
    while i < texts.len()
        invariant
            i <= texts.len(),
            tv == texts_view(texts@),
            start == old(job)@.progress(effects_view(old(out)@)),
            job@ == old(job)@.resumed(read_facts(tv.take(i as int), start)),
            effects_view(out@) == read_facts(tv.take(i as int), start).effects,
            read_facts(tv.take(i as int), start).failed is None,
        decreases texts.len() - i,
    {
        assert(tv.take(i as int + 1).drop_last() =~= tv.take(i as int));
        assert(tv.take(i as int + 1).last() == texts@[i as int]@);
        match read_information(texts[i].as_str()) {
            Some(info) => {
                job.add_information(info, out);
            },
            None => {
                proof {
                    lemma_read_facts_stops(tv, i as int + 1, start);
                }
                return Err(EngineError::InvalidDeviceInfo { text: texts[i].clone() });
            },
        }
        i += 1;
    }
    assert(tv.take(texts.len() as int) =~= tv);
    Ok(())
}

/// A plan with two entries.
fn plan_of_two(
    g1: usize,
    k1: DeviceInformationKind,
    g2: usize,
    k2: DeviceInformationKind,
) -> (r: Vec<(usize, DeviceInformationKind)>)
    ensures
        plan_view(r@) == seq![(g1 as int, k1), (g2 as int, k2)],
{
    let mut v: Vec<(usize, DeviceInformationKind)> = Vec::new();
    v.push((g1, k1));
    v.push((g2, k2));
    assert(plan_view(v@) =~= seq![(g1 as int, k1), (g2 as int, k2)]);
    v
}

/// A plan with three entries.
fn plan_of_three(
    g1: usize,
    k1: DeviceInformationKind,
    g2: usize,
    k2: DeviceInformationKind,
    g3: usize,
    k3: DeviceInformationKind,
) -> (r: Vec<(usize, DeviceInformationKind)>)
    ensures
        plan_view(r@) == seq![(g1 as int, k1), (g2 as int, k2), (g3 as int, k3)],
{
    let mut v: Vec<(usize, DeviceInformationKind)> = Vec::new();
    v.push((g1, k1));
    v.push((g2, k2));
    v.push((g3, k3));
    assert(plan_view(v@) =~= seq![(g1 as int, k1), (g2 as int, k2), (g3 as int, k3)]);
    v
}

impl ProcessFunction {
    /// Runs the routine on the console output `data` and the match `mat`:
    /// records the facts it finds in `job`, and adds to `out` what it asks of
    /// the caller. Fails where a fact written as JSON cannot be read.
    pub fn execute(&self, job: &mut ActiveJob, data: &str, mat: &str, out: &mut Vec<Effect>) -> (r:
        Result<(), EngineError>)
        ensures
            final(job)@ == old(job)@.resumed(
                function_outcome(
                    *self,
                    data@,
                    mat@,
                    old(job)@.progress(effects_view(old(out)@)),
                ),
            ),
            effects_view(final(out)@) == function_outcome(
                *self,
                data@,
                mat@,
                old(job)@.progress(effects_view(old(out)@)),
            ).effects,
            match r {
                Ok(()) => function_outcome(
                    *self,
                    data@,
                    mat@,
                    old(job)@.progress(effects_view(old(out)@)),
                ).failed is None,
                Err(e) => function_outcome(
                    *self,
                    data@,
                    mat@,
                    old(job)@.progress(effects_view(old(out)@)),
                ).failed == Some(e@),
            },
    {
        match self {
            ProcessFunction::ArbitraryDeviceInfo => {
                match regex_capture_all(ARBITRARY_PATTERN, true, true, mat) {
                    None => Err(
                        EngineError::InvalidRegex { pattern: String::from_str(ARBITRARY_PATTERN) },
                    ),
                    Some(caps) => {
                        let texts = collect_group(&caps, 1);
                        record_json_facts(job, &texts, out)
                    },
                }
            },
            ProcessFunction::FixFS => fix_filesystems(job, data, out),
            ProcessFunction::CaptureJunosVersion => {
                let plan = plan_of_two(
                    1,
                    DeviceInformationKind::Model,
                    2,
                    DeviceInformationKind::SoftwareVersion,
                );
                capture_into(job, JUNOS_PATTERN, data, &plan, out)
            },
            ProcessFunction::CaptureChassisOutput => {
                let plan = plan_of_one(1, DeviceInformationKind::SerialNumber);
                capture_into(job, CHASSIS_PATTERN, data, &plan, out)
            },
            ProcessFunction::CaptureAristaVersion => {
                let plan = plan_of_three(
                    1,
                    DeviceInformationKind::Model,
                    2,
                    DeviceInformationKind::SerialNumber,
                    3,
                    DeviceInformationKind::SoftwareVersion,
                );
                capture_into(job, ARISTA_PATTERN, data, &plan, out)
            },
            ProcessFunction::CaptureAristaAbootVersion => {
                let plan = plan_of_one(1, DeviceInformationKind::BootloaderVersion);
                capture_into(job, ABOOT_PATTERN, data, &plan, out)
            },
            ProcessFunction::CaptureArubaAPModel => {
                let plan = plan_of_one(1, DeviceInformationKind::Model);
                capture_into(job, ARUBA_MODEL_PATTERN, data, &plan, out)
            },
            ProcessFunction::CaptureArubaAPSerial => {
                match capture_first_into(
                    job,
                    ARUBA_SERIAL_PATTERN,
                    data,
                    DeviceInformationKind::SerialNumber,
                    out,
                ) {
                    Ok(()) => {},
                    Err(e) => { return Err(e); },
                }
                capture_first_into(
                    job,
                    ARUBA_MAC_PATTERN,
                    data,
                    DeviceInformationKind::MacAddress,
                    out,
                )
            },
        }
    }
}

} // verus!
