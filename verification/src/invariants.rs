//! What every step of a job keeps: the effects asked for are only added to,
//! no fact is recorded twice, and the job stays within its graph.

use crate::action::{run_action, run_actions, run_repeat, ActionView};
use crate::active_job::{first_immediate, first_match, JobView, Outcome, StepEventView};
use crate::builder::fold_fragments;
use crate::data_structure::{FileView, TransitionView};
use crate::devinfo::{facts_distinct, DeviceFact, DeviceInformationKind};
use crate::effect::{Context, EffectView, Progress};
use crate::laws::{law_first_immediate, law_first_match, law_record_keeps_facts_distinct};
use crate::pfunc::{
    captured_facts, captured_into, first_into, first_text, fsck_each, function_outcome,
    group_texts, read_facts, Plan, ProcessFunction, ARBITRARY_PATTERN, FIXFS_PATTERN,
};
use crate::pattern::regex_captures;
use crate::state::{builtin_states, Graph};
use crate::status::JobCommand;
use vstd::prelude::*;

verus! {

/// The account `after` continues the account `before`: the effects of
/// `before` stand first in it, unchanged, and where `before` held no fact
/// twice, `after` holds none twice.
pub open spec fn continues(before: Progress, after: Progress) -> bool {
    &&& before.effects.is_prefix_of(after.effects)
    &&& facts_distinct(before.information) ==> facts_distinct(after.information)
}

proof fn lemma_record_continues(acc: Progress, fact: DeviceFact)
    ensures
        continues(acc, acc.record(fact)),
{
    if facts_distinct(acc.information) {
        law_record_keeps_facts_distinct(acc, fact);
    }
}

proof fn lemma_record_all_continues(acc: Progress, facts: Seq<DeviceFact>)
    ensures
        continues(acc, acc.record_all(facts)),
    decreases facts.len(),
{
    if facts.len() > 0 {
        lemma_record_all_continues(acc, facts.drop_last());
        lemma_record_continues(acc.record_all(facts.drop_last()), facts.last());
    }
}

proof fn lemma_finish_continues(acc: Progress, now: i64, reset: bool)
    ensures
        continues(acc, acc.finish(now, reset)),
{
}

proof fn lemma_fsck_continues(devices: Seq<Seq<char>>, acc: Progress)
    ensures
        continues(acc, fsck_each(devices, acc)),
        fsck_each(devices, acc).information == acc.information,
    decreases devices.len(),
{
    if devices.len() > 0 {
        lemma_fsck_continues(devices.drop_last(), acc);
    }
}

proof fn lemma_read_facts_continues(texts: Seq<Seq<char>>, acc: Progress)
    ensures
        continues(acc, read_facts(texts, acc)),
    decreases texts.len(),
{
    if texts.len() > 0 {
        lemma_read_facts_continues(texts.drop_last(), acc);
        let before = read_facts(texts.drop_last(), acc);
        if before.failed is None {
            match crate::json::fact_in_json(texts.last()) {
                Some(fact) => {
                    lemma_record_continues(before, fact);
                },
                None => {},
            }
        }
    }
}

proof fn lemma_captured_continues(pattern: Seq<char>, text: Seq<char>, plan: Plan, acc: Progress)
    ensures
        continues(acc, captured_into(pattern, text, plan, acc)),
{
    if acc.failed is None {
        match regex_captures(pattern, true, true, text) {
            None => {},
            Some(caps) => {
                lemma_record_all_continues(acc, captured_facts(caps, plan));
            },
        }
    }
}

proof fn lemma_first_continues(
    pattern: Seq<char>,
    text: Seq<char>,
    kind: DeviceInformationKind,
    acc: Progress,
)
    ensures
        continues(acc, first_into(pattern, text, kind, acc)),
{
    if acc.failed is None {
        match regex_captures(pattern, true, true, text) {
            None => {},
            Some(caps) => match first_text(caps, 1) {
                Some(t) => {
                    lemma_record_continues(acc, DeviceFact::of(kind, t));
                },
                None => {},
            },
        }
    }
}

/// A routine adds to the account and keeps the facts distinct.
pub proof fn law_function_continues(
    func: ProcessFunction,
    data: Seq<char>,
    mat: Seq<char>,
    acc: Progress,
)
    ensures
        continues(acc, function_outcome(func, data, mat, acc)),
{
    if acc.failed is None {
        match func {
            ProcessFunction::ArbitraryDeviceInfo => {
                match regex_captures(ARBITRARY_PATTERN@, true, true, mat) {
                    None => {},
                    Some(caps) => {
                        lemma_read_facts_continues(group_texts(caps, 1), acc);
                    },
                }
            },
            ProcessFunction::FixFS => {
                match regex_captures(FIXFS_PATTERN@, true, true, data) {
                    None => {},
                    Some(caps) => {
                        let first = acc.emit(EffectView::ExpectString("#"@));
                        let checked = fsck_each(group_texts(caps, 1), first);
                        lemma_fsck_continues(group_texts(caps, 1), first);
                        let told = checked.emit(EffectView::SendLine("reboot"@));
                        lemma_record_continues(
                            told,
                            DeviceFact::of(
                                DeviceInformationKind::AttemptedToFixFilesystemIssues,
                                Seq::empty(),
                            ),
                        );
                        assert(continues(acc, first));
                        assert(continues(first, checked));
                        assert(continues(checked, told));
                    },
                }
            },
            ProcessFunction::CaptureJunosVersion => {
                lemma_captured_continues(
                    crate::pfunc::JUNOS_PATTERN@,
                    data,
                    seq![
                        (1, DeviceInformationKind::Model),
                        (2, DeviceInformationKind::SoftwareVersion),
                    ],
                    acc,
                );
            },
            ProcessFunction::CaptureChassisOutput => {
                lemma_captured_continues(
                    crate::pfunc::CHASSIS_PATTERN@,
                    data,
                    seq![(1, DeviceInformationKind::SerialNumber)],
                    acc,
                );
            },
            ProcessFunction::CaptureAristaVersion => {
                lemma_captured_continues(
                    crate::pfunc::ARISTA_PATTERN@,
                    data,
                    seq![
                        (1, DeviceInformationKind::Model),
                        (2, DeviceInformationKind::SerialNumber),
                        (3, DeviceInformationKind::SoftwareVersion),
                    ],
                    acc,
                );
            },
            ProcessFunction::CaptureAristaAbootVersion => {
                lemma_captured_continues(
                    crate::pfunc::ABOOT_PATTERN@,
                    data,
                    seq![(1, DeviceInformationKind::BootloaderVersion)],
                    acc,
                );
            },
            ProcessFunction::CaptureArubaAPModel => {
                lemma_captured_continues(
                    crate::pfunc::ARUBA_MODEL_PATTERN@,
                    data,
                    seq![(1, DeviceInformationKind::Model)],
                    acc,
                );
            },
            ProcessFunction::CaptureArubaAPSerial => {
                let serial = first_into(
                    crate::pfunc::ARUBA_SERIAL_PATTERN@,
                    data,
                    DeviceInformationKind::SerialNumber,
                    acc,
                );
                lemma_first_continues(
                    crate::pfunc::ARUBA_SERIAL_PATTERN@,
                    data,
                    DeviceInformationKind::SerialNumber,
                    acc,
                );
                lemma_first_continues(
                    crate::pfunc::ARUBA_MAC_PATTERN@,
                    data,
                    DeviceInformationKind::MacAddress,
                    serial,
                );
            },
        }
    }
}

/// An action adds to the account and keeps the facts distinct.
pub proof fn law_action_continues(a: ActionView, ctx: Context, acc: Progress)
    ensures
        continues(acc, run_action(a, ctx, acc)),
    decreases a, 0int, 0int,
{
    if acc.failed is None {
        match a {
            ActionView::Function { func } => {
                law_function_continues(func, ctx.data, ctx.mat, acc);
            },
            ActionView::Repeat { actions, times } => {
                law_repeat_continues(actions, times, ctx, acc);
            },
            ActionView::AddDeviceInfo(fact) => {
                lemma_record_continues(acc, fact);
            },
            ActionView::FinishJob => {
                lemma_finish_continues(acc, ctx.now, ctx.reset_on_finish);
            },
            _ => {},
        }
    }
}

/// A list of actions adds to the account and keeps the facts distinct.
pub proof fn law_actions_continue(
    actions: Seq<ActionView>,
    from: int,
    ctx: Context,
    acc: Progress,
)
    ensures
        continues(acc, run_actions(actions, from, ctx, acc)),
    decreases actions, 1int, actions.len() - from,
{
    if 0 <= from < actions.len() {
        law_action_continues(actions[from], ctx, acc);
        law_actions_continue(actions, from + 1, ctx, run_action(actions[from], ctx, acc));
    }
}

/// A repetition adds to the account and keeps the facts distinct.
pub proof fn law_repeat_continues(
    actions: Seq<ActionView>,
    times: nat,
    ctx: Context,
    acc: Progress,
)
    ensures
        continues(acc, run_repeat(actions, times, ctx, acc)),
    decreases actions, 2int, times,
{
    if times > 0 {
        law_actions_continue(actions, 0, ctx, acc);
        law_repeat_continues(
            actions,
            (times - 1) as nat,
            ctx,
            run_actions(actions, 0, ctx, acc),
        );
    }
}

/// The job is sound: it is in a state of its graph, the graph has the state
/// `Init`, and none of its facts is recorded twice.
pub open spec fn sound(job: JobView) -> bool {
    &&& job.graph.contains_key(job.current_state)
    &&& job.graph.contains_key("Init"@)
    &&& facts_distinct(job.information)
}

/// The outcome keeps a job sound, leaves its graph and its settings alone,
/// and only adds to the effects.
pub open spec fn steady(job: JobView, sent: Seq<EffectView>, o: Outcome) -> bool {
    &&& sound(o.job)
    &&& o.job.graph == job.graph
    &&& o.job.config == job.config
    &&& o.job.reset_on_finish == job.reset_on_finish
    &&& sent.is_prefix_of(o.effects)
}

proof fn lemma_transition_steady(
    job: JobView,
    t: TransitionView,
    data: Seq<char>,
    mat: Seq<char>,
    now: i64,
    sent: Seq<EffectView>,
)
    requires
        sound(job),
    ensures
        steady(job, sent, job.transition_outcome(t, data, mat, now, sent)),
{
    if job.graph.contains_key(t.target) {
        law_actions_continue(t.actions, 0, job.context(data, mat, now), job.progress(sent));
    }
}

/// Whatever happens, a sound job stays sound: every step leaves it in a
/// state of its graph with no fact recorded twice, changes neither the
/// graph nor the settings, and adds to the effects without touching those
/// that were asked for before.
pub proof fn law_step_keeps_a_job_sound(
    job: JobView,
    event: StepEventView,
    now: i64,
    sent: Seq<EffectView>,
)
    requires
        sound(job),
    ensures
        steady(job, sent, job.step_outcome(event, now, sent)),
{
    let ts = job.graph[job.current_state].transitions;
    match event {
        StepEventView::Tick => {
            law_first_immediate(ts, 0);
            match first_immediate(ts, 0) {
                Some(i) => {
                    lemma_transition_steady(job, ts[i], Seq::empty(), Seq::empty(), now, sent);
                },
                None => {},
            }
        },
        StepEventView::Matched { data, matched } => {
            law_first_immediate(ts, 0);
            law_first_match(ts, matched, 0);
            match first_immediate(ts, 0) {
                Some(i) => {
                    lemma_transition_steady(job, ts[i], Seq::empty(), Seq::empty(), now, sent);
                },
                None => match first_match(ts, matched, 0) {
                    Ok(Some(i)) => {
                        lemma_transition_steady(job, ts[i], data, matched, now, sent);
                    },
                    _ => {},
                },
            }
        },
        StepEventView::Timeout => {},
        StepEventView::Command(cmd) => {
            match cmd {
                JobCommand::ResetJob => {
                    let aborted = DeviceFact::of(DeviceInformationKind::Aborted, Seq::empty());
                    lemma_record_continues(job.progress(sent), aborted);
                    lemma_finish_continues(job.progress(sent).record(aborted), now, false);
                },
            }
        },
    }
}

/// Merging fragments never takes a state away.
pub proof fn law_merging_keeps_states(base: Graph, files: Seq<FileView>, name: Seq<char>)
    requires
        base.contains_key(name),
    ensures
        fold_fragments(base, files).contains_key(name),
    decreases files.len(),
{
    if files.len() > 0 {
        law_merging_keeps_states(base, files.drop_last(), name);
    }
}

/// A job that starts on a graph built from fragments is sound: every such
/// graph has the state `Init`, in which a job starts.
pub proof fn law_a_new_job_is_sound(files: Seq<FileView>, job: JobView)
    requires
        job.graph == fold_fragments(builtin_states(), files),
        job.current_state == "Init"@,
        job.information == Seq::<DeviceFact>::empty(),
    ensures
        sound(job),
{
    assert(builtin_states().contains_key("Init"@));
    law_merging_keeps_states(builtin_states(), files, "Init"@);
}

} // verus!
