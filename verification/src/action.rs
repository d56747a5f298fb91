//! The actions of a transition.

use crate::active_job::{ActiveJob, JobView};
use crate::devinfo::{DeviceFact, DeviceInformation};
use crate::effect::{config_value, effects_view, Context, Effect, EffectView, Progress};
use crate::error::EngineError;
use crate::pfunc::{function_outcome, ProcessFunction};
use crate::status::{JobUpdate, JobUpdateView, PortJobStatus};
use vstd::prelude::*;

verus! {

/// A length of time: whole seconds and the nanoseconds beyond them.
#[derive(Copy, Clone, Debug, PartialEq, Eq, Structural)]
pub struct TimeSpan {
    pub secs: u64,
    pub nanos: u32,
}

/// A fact as a fragment writes it: bare, or under the key `flag`.
#[derive(Debug, PartialEq)]
pub enum DeviceInfoArg {
    WithArgument(DeviceInformation),
    WithoutArgument { flag: DeviceInformation },
}

impl View for DeviceInfoArg {
    type V = DeviceFact;

    open spec fn view(&self) -> DeviceFact {
        match self {
            DeviceInfoArg::WithArgument(e) => e@,
            DeviceInfoArg::WithoutArgument { flag } => flag@,
        }
    }
}

impl Clone for DeviceInfoArg {
    fn clone(&self) -> (r: Self)
        ensures
            r@ == self@,
    {
        match self {
            DeviceInfoArg::WithArgument(e) => DeviceInfoArg::WithArgument(e.clone()),
            DeviceInfoArg::WithoutArgument { flag } => DeviceInfoArg::WithoutArgument {
                flag: flag.clone(),
            },
        }
    }
}

impl From<DeviceInfoArg> for DeviceInformation {
    fn from(value: DeviceInfoArg) -> (r: Self) {
        match value {
            DeviceInfoArg::WithArgument(e) => e,
            DeviceInfoArg::WithoutArgument { flag } => flag,
        }
    }
}

impl vstd::std_specs::convert::FromSpecImpl<DeviceInfoArg> for DeviceInformation {
    open spec fn obeys_from_spec() -> bool {
        true
    }

    open spec fn from_spec(v: DeviceInfoArg) -> Self {
        match v {
            DeviceInfoArg::WithArgument(e) => e,
            DeviceInfoArg::WithoutArgument { flag } => flag,
        }
    }
}

impl DeviceInfoArg {
    /// The fact that the argument names.
    pub fn into_information(self) -> (r: DeviceInformation)
        ensures
            r@ == self@,
    {
        match self {
            DeviceInfoArg::WithArgument(e) => e,
            DeviceInfoArg::WithoutArgument { flag } => flag,
        }
    }
}

/// One effect that a transition asks for.
#[derive(Debug, PartialEq)]
pub enum Action {
    Send { text: String },
    Flush,
    SendLine { line: String },
    SendControl { char: char },
    Function { func: ProcessFunction },
    Repeat { actions: Vec<Action>, times: usize },
    Delay { duration: TimeSpan },
    UpdatePortStatus { status: PortJobStatus },
    AddDeviceInfo(DeviceInfoArg),
    FinishJob,
    SetupJob,
    SendConfigValue { key: String },
}

/// The mathematical value of an `Action`.
pub enum ActionView {
    Send { text: Seq<char> },
    Flush,
    SendLine { line: Seq<char> },
    SendControl { char: char },
    Function { func: ProcessFunction },
    Repeat { actions: Seq<ActionView>, times: nat },
    Delay { duration: TimeSpan },
    UpdatePortStatus { status: PortJobStatus },
    AddDeviceInfo(DeviceFact),
    FinishJob,
    SetupJob,
    SendConfigValue { key: Seq<char> },
}

/// The value of an action.
pub open spec fn action_view(a: Action) -> ActionView
    decreases a,
{
    match a {
        Action::Send { text } => ActionView::Send { text: text@ },
        Action::Flush => ActionView::Flush,
        Action::SendLine { line } => ActionView::SendLine { line: line@ },
        Action::SendControl { char } => ActionView::SendControl { char },
        Action::Function { func } => ActionView::Function { func },
        Action::Repeat { actions, times } => ActionView::Repeat {
            actions: action_list_view(actions),
            times: times as nat,
        },
        Action::Delay { duration } => ActionView::Delay { duration },
        Action::UpdatePortStatus { status } => ActionView::UpdatePortStatus { status },
        Action::AddDeviceInfo(arg) => ActionView::AddDeviceInfo(arg@),
        Action::FinishJob => ActionView::FinishJob,
        Action::SetupJob => ActionView::SetupJob,
        Action::SendConfigValue { key } => ActionView::SendConfigValue { key: key@ },
    }
}

/// The values of the actions that a vector holds, in order.
pub open spec fn action_list_view(v: Vec<Action>) -> Seq<ActionView>
    decreases v,
{
    Seq::new(
        v.len() as nat,
        |i: int|
            if 0 <= i < v.len() {
                action_view(v[i])
            } else {
                ActionView::Flush
            },
    )
}

impl View for Action {
    type V = ActionView;

    open spec fn view(&self) -> ActionView {
        action_view(*self)
    }
}

/// The values of a list of actions, in order.
pub open spec fn actions_view(actions: Seq<Action>) -> Seq<ActionView> {
    Seq::new(actions.len(), |i: int| actions[i]@)
}

/// The value of a repetition holds the values of its actions, in order.
pub proof fn lemma_repeat_view(actions: Vec<Action>, times: usize)
    ensures
        (Action::Repeat { actions, times })@ == (ActionView::Repeat {
            actions: actions_view(actions@),
            times: times as nat,
        }),
{
    assert(action_list_view(actions) =~= actions_view(actions@));
}

/// A copy of a list of actions.
pub fn clone_actions(actions: &Vec<Action>) -> (r: Vec<Action>)
    ensures
        actions_view(r@) == actions_view(actions@),
    decreases actions,
{
    let mut out: Vec<Action> = Vec::new();
    let mut i: usize = 0;
    while i < actions.len()
        invariant
            i <= actions.len(),
            out.len() == i,
            forall|j: int| 0 <= j < i ==> out@[j]@ == actions@[j]@,
        decreases actions.len() - i,
    {
        let a = actions[i].clone();
        out.push(a);
        i += 1;
    }
    assert(actions_view(out@) =~= actions_view(actions@));
    out
}

impl Clone for Action {
    fn clone(&self) -> (r: Self)
        ensures
            r@ == self@,
        decreases self,
    {
        match self {
            Action::Send { text } => Action::Send { text: text.clone() },
            Action::Flush => Action::Flush,
            Action::SendLine { line } => Action::SendLine { line: line.clone() },
            Action::SendControl { char } => Action::SendControl { char: *char },
            Action::Function { func } => Action::Function { func: *func },
            Action::Repeat { actions, times } => {
                let copy = clone_actions(actions);
                proof {
                    lemma_repeat_view(copy, *times);
                    lemma_repeat_view(*actions, *times);
                }
                Action::Repeat { actions: copy, times: *times }
            },
            Action::Delay { duration } => Action::Delay { duration: *duration },
            Action::UpdatePortStatus { status } => Action::UpdatePortStatus { status: *status },
            Action::AddDeviceInfo(arg) => Action::AddDeviceInfo(arg.clone()),
            Action::FinishJob => Action::FinishJob,
            Action::SetupJob => Action::SetupJob,
            Action::SendConfigValue { key } => Action::SendConfigValue { key: key.clone() },
        }
    }
}

/// The account after one action was worked through. Work that has failed is
/// not taken up again.
pub open spec fn run_action(a: ActionView, ctx: Context, acc: Progress) -> Progress
    decreases a, 0int, 0int,
{
    if acc.failed is Some {
        acc
    } else {
        match a {
            ActionView::Send { text } => acc.emit(EffectView::Send(text)),
            ActionView::Flush => acc.emit(EffectView::Flush),
            ActionView::SendLine { line } => acc.emit(EffectView::SendLine(line)),
            ActionView::SendControl { char } => acc.emit(EffectView::SendControl(char)),
            ActionView::Function { func } => function_outcome(func, ctx.data, ctx.mat, acc),
            ActionView::Repeat { actions, times } => run_repeat(actions, times, ctx, acc),
            ActionView::Delay { duration } => acc.emit(EffectView::Delay(duration)),
            ActionView::UpdatePortStatus { status } => acc.emit(
                EffectView::Publish(JobUpdateView::JobStatusUpdate(status)),
            ),
            ActionView::AddDeviceInfo(fact) => acc.record(fact),
            ActionView::FinishJob => acc.finish(ctx.now, ctx.reset_on_finish),
            ActionView::SetupJob => acc.emit(EffectView::SetupJob),
            ActionView::SendConfigValue { key } => match config_value(ctx.config, key) {
                Some(value) => acc.emit(EffectView::Send(value)),
                None => acc,
            },
        }
    }
}

/// The account after the actions from the index `from` on were worked
/// through, one after the other.
pub open spec fn run_actions(actions: Seq<ActionView>, from: int, ctx: Context, acc: Progress) -> Progress
    decreases actions, 1int, actions.len() - from,
{
    if from < 0 || from >= actions.len() {
        acc
    } else {
        run_actions(actions, from + 1, ctx, run_action(actions[from], ctx, acc))
    }
}

/// The account after the actions were worked through `times` times over.
pub open spec fn run_repeat(actions: Seq<ActionView>, times: nat, ctx: Context, acc: Progress) -> Progress
    decreases actions, 2int, times,
{
    if times == 0 {
        acc
    } else {
        run_repeat(actions, (times - 1) as nat, ctx, run_actions(actions, 0, ctx, acc))
    }
}

/// Work that has failed stays as it is, whatever actions follow.
pub proof fn lemma_run_actions_stops(
    actions: Seq<ActionView>,
    from: int,
    ctx: Context,
    acc: Progress,
)
    requires
        acc.failed is Some,
    ensures
        run_actions(actions, from, ctx, acc) == acc,
    decreases actions.len() - from,
{
    if 0 <= from < actions.len() {
        assert(run_action(actions[from], ctx, acc) == acc);
        lemma_run_actions_stops(actions, from + 1, ctx, acc);
    }
}

/// Work that has failed stays as it is, however often the actions are
/// repeated.
pub proof fn lemma_run_repeat_stops(
    actions: Seq<ActionView>,
    times: nat,
    ctx: Context,
    acc: Progress,
)
    requires
        acc.failed is Some,
    ensures
        run_repeat(actions, times, ctx, acc) == acc,
    decreases times,
{
    if times > 0 {
        lemma_run_actions_stops(actions, 0, ctx, acc);
        lemma_run_repeat_stops(actions, (times - 1) as nat, ctx, acc);
    }
}

/// The job `after` and the effects `sent` are what the account `p` says, and
/// `r` is its verdict.
pub open spec fn accounted(
    before: JobView,
    after: JobView,
    sent: Seq<EffectView>,
    r: Result<(), EngineError>,
    p: Progress,
) -> bool {
    &&& after == before.resumed(p)
    &&& sent == p.effects
    &&& match r {
        Ok(()) => p.failed is None,
        Err(e) => p.failed == Some(e@),
    }
}

/// Adds an effect to the list.
fn emit(job: &ActiveJob, out: &mut Vec<Effect>, e: Effect)
    ensures
        effects_view(final(out)@) == job@.progress(effects_view(old(out)@)).emit(e@).effects,
{
    let ghost sent = out@;
    out.push(e);
    assert(effects_view(out@) =~= effects_view(sent).push(e@));
}

/// Works through the actions, one after the other, up to the first that
/// fails: records in `job` what they record, and adds to `out` what they ask
/// of the caller.
pub fn perform_all(
    actions: &Vec<Action>,
    job: &mut ActiveJob,
    data: &str,
    mat: &str,
    now: i64,
    out: &mut Vec<Effect>,
) -> (r: Result<(), EngineError>)
    ensures
        accounted(
            old(job)@,
            final(job)@,
            effects_view(final(out)@),
            r,
            run_actions(
                actions_view(actions@),
                0,
                old(job)@.context(data@, mat@, now),
                old(job)@.progress(effects_view(old(out)@)),
            ),
        ),
    decreases actions,
{
    let ghost av = actions_view(actions@);
    let ghost ctx = job@.context(data@, mat@, now);
    let ghost start = job@.progress(effects_view(out@));
    let ghost goal = run_actions(av, 0, ctx, start);
    let mut i: usize = 0;
    while i < actions.len()
        invariant
            i <= actions.len(),
            av == actions_view(actions@),
            ctx == old(job)@.context(data@, mat@, now),
            ctx == job@.context(data@, mat@, now),
            goal == run_actions(av, 0, ctx, old(job)@.progress(effects_view(old(out)@))),
            goal == run_actions(av, i as int, ctx, job@.progress(effects_view(out@))),
            job@ == old(job)@.resumed(job@.progress(effects_view(out@))),
        decreases actions.len() - i,
    {
        let ghost cur = job@.progress(effects_view(out@));
        assert(av[i as int] == actions@[i as int]@);
        match actions[i].perform(job, data, mat, now, out) {
            Ok(()) => {},
            Err(e) => {
                proof {
                    lemma_run_actions_stops(av, i as int + 1, ctx, run_action(av[i as int], ctx, cur));
                }
                return Err(e);
            },
        }
        i += 1;
    }
    Ok(())
}

impl Action {
    /// Works through the action: records in `job` what it records, and adds
    /// to `out` what it asks of the caller. `data` is the console output since
    /// the last transition, `mat` the part of it that satisfied the trigger,
    /// and `now` the present time in milliseconds since the epoch.
    pub fn perform(
        &self,
        job: &mut ActiveJob,
        data: &str,
        mat: &str,
        now: i64,
        out: &mut Vec<Effect>,
    ) -> (r: Result<(), EngineError>)
        ensures
            accounted(
                old(job)@,
                final(job)@,
                effects_view(final(out)@),
                r,
                run_action(
                    self@,
                    old(job)@.context(data@, mat@, now),
                    old(job)@.progress(effects_view(old(out)@)),
                ),
            ),
        decreases self,
    {
        match self {
            Action::Send { text } => {
                emit(job, out, Effect::Send(text.clone()));
                Ok(())
            },
            Action::Flush => {
                emit(job, out, Effect::Flush);
                Ok(())
            },
            Action::SendLine { line } => {
                emit(job, out, Effect::SendLine(line.clone()));
                Ok(())
            },
            Action::SendControl { char } => {
                emit(job, out, Effect::SendControl(*char));
                Ok(())
            },
            Action::Function { func } => func.execute(job, data, mat, out),
            Action::FinishJob => {
                job.finish_job(now, out);
                Ok(())
            },
            Action::Repeat { actions, times } => {
                proof {
                    lemma_repeat_view(*actions, *times);
                }
                let ghost av = actions_view(actions@);
                let ghost ctx = job@.context(data@, mat@, now);
                let ghost goal = run_repeat(
                    av,
                    *times as nat,
                    ctx,
                    job@.progress(effects_view(out@)),
                );
                let mut k: usize = 0;
                while k < *times
                    invariant
                        k <= *times,
                        av == actions_view(actions@),
                        *self == (Action::Repeat { actions: *actions, times: *times }),
                        self@ == (ActionView::Repeat { actions: av, times: *times as nat }),
                        ctx == old(job)@.context(data@, mat@, now),
                        ctx == job@.context(data@, mat@, now),
                        goal == run_repeat(
                            av,
                            *times as nat,
                            ctx,
                            old(job)@.progress(effects_view(old(out)@)),
                        ),
                        goal == run_repeat(
                            av,
                            (*times - k) as nat,
                            ctx,
                            job@.progress(effects_view(out@)),
                        ),
                        job@ == old(job)@.resumed(job@.progress(effects_view(out@))),
                    decreases *times - k,
                {
                    let ghost cur = job@.progress(effects_view(out@));
                    match perform_all(actions, job, data, mat, now, out) {
                        Ok(()) => {},
                        Err(e) => {
                            proof {
                                let failed = run_actions(av, 0, ctx, cur);
                                lemma_run_repeat_stops(av, (*times - k - 1) as nat, ctx, failed);
                                assert(run_repeat(av, (*times - k) as nat, ctx, cur) == failed);
                            }
                            return Err(e);
                        },
                    }
                    k += 1;
                }
                Ok(())
            },
            Action::Delay { duration } => {
                emit(job, out, Effect::Delay(*duration));
                Ok(())
            },
            Action::UpdatePortStatus { status } => {
                emit(job, out, Effect::Publish(JobUpdate::JobStatusUpdate(*status)));
                Ok(())
            },
            Action::AddDeviceInfo(arg) => {
                job.add_information(arg.clone().into_information(), out);
                Ok(())
            },
            Action::SetupJob => {
                emit(job, out, Effect::SetupJob);
                Ok(())
            },
            Action::SendConfigValue { key } => {
                match job.get_job_config_key(key.as_str()) {
                    Some(value) => {
                        emit(job, out, Effect::Send(value));
                    },
                    None => {},
                }
                Ok(())
            },
        }
    }
}

} // verus!
