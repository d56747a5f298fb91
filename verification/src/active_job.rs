//! A job on one port: the graph it runs on, the state it is in, and the facts
//! it has recorded about the device.

use crate::action::{perform_all, run_actions};
use crate::data_structure::{transitions_view, State, StateMachineTransition, TransitionView};
use crate::error::{EngineError, EngineErrorView};
use crate::status::JobCommand;
use crate::trigger::{Needle, NeedleView};
use crate::devinfo::{
    facts_of, max_information_type, max_severity, DeviceFact, DeviceInformation,
    DeviceInformationKind, DeviceInformationType,
};
use crate::effect::{config_value, effects_view, Context, Effect, EffectView, Progress};
use crate::job::holds_fact;
use crate::state::{Graph, StateMachine};
use crate::status::{JobUpdate, JobUpdateView, PortJobStatus};
use vstd::prelude::*;
use vstd::string::*;

verus! {

/// The settings of a list, as mathematical values.
pub open spec fn settings_view(s: Seq<(String, String)>) -> Seq<(Seq<char>, Seq<char>)> {
    Seq::new(s.len(), |i: int| (s[i].0@, s[i].1@))
}

/// A job on one port.
pub struct ActiveJob {
    state_machine: StateMachine,
    current_state: State,
    information: Vec<DeviceInformation>,
    job_started: i64,
    job_config: Vec<(String, String)>,
    reset_on_finish: bool,
}

/// The mathematical value of an `ActiveJob`.
pub struct JobView {
    /// The graph that the job runs on.
    pub graph: Graph,
    /// The name of the state that the job is in.
    pub current_state: Seq<char>,
    /// The facts recorded about the device, in the order of recording.
    pub information: Seq<DeviceFact>,
    /// When the job started, in milliseconds since the epoch.
    pub job_started: i64,
    /// The settings of the job.
    pub config: Seq<(Seq<char>, Seq<char>)>,
    /// Whether finishing a job at once makes room for the next one.
    pub reset_on_finish: bool,
}

impl JobView {
    /// The account with which the work on a transition begins.
    pub open spec fn progress(self, effects: Seq<EffectView>) -> Progress {
        Progress {
            information: self.information,
            job_started: self.job_started,
            effects,
            failed: None,
        }
    }

    /// What the actions of a transition can read.
    pub open spec fn context(self, data: Seq<char>, mat: Seq<char>, now: i64) -> Context {
        Context {
            config: self.config,
            data,
            mat,
            now,
            reset_on_finish: self.reset_on_finish,
        }
    }

    /// The job after the work that `p` gives account of.
    pub open spec fn resumed(self, p: Progress) -> JobView {
        JobView { information: p.information, job_started: p.job_started, ..self }
    }
}

/// Where a step leaves a job.
pub struct Outcome {
    /// The job after the step.
    pub job: JobView,
    /// The effects asked for, those of earlier steps first.
    pub effects: Seq<EffectView>,
    /// The error that ended the job, if one did.
    pub failed: Option<EngineErrorView>,
}

/// The index of the first transition from `from` on that fires at once.
pub open spec fn first_immediate(ts: Seq<TransitionView>, from: int) -> Option<int>
    decreases ts.len() - from,
{
    if from < 0 || from >= ts.len() {
        None
    } else if ts[from].trigger is Immediate {
        Some(from)
    } else {
        first_immediate(ts, from + 1)
    }
}

/// The index of the first transition from `from` on whose trigger the text
/// `m` satisfies; none where no trigger is satisfied; and the error of the
/// first trigger that cannot be judged, where that one comes first.
pub open spec fn first_match(ts: Seq<TransitionView>, m: Seq<char>, from: int) -> Result<
    Option<int>,
    EngineErrorView,
>
    decreases ts.len() - from,
{
    if from < 0 || from >= ts.len() {
        Ok(None)
    } else {
        match ts[from].trigger.satisfied_by(m) {
            Err(e) => Err(e),
            Ok(true) => Ok(Some(from)),
            Ok(false) => first_match(ts, m, from + 1),
        }
    }
}

/// What a wait for any of the triggers looks for: one needle for each
/// transition that does not fire at once, in their order; the error of the
/// first trigger whose regular expression does not compile.
pub open spec fn needles(ts: Seq<TransitionView>) -> Result<Seq<NeedleView>, EngineErrorView>
    decreases ts.len(),
{
    if ts.len() == 0 {
        Ok(Seq::empty())
    } else {
        match needles(ts.drop_last()) {
            Err(e) => Err(e),
            Ok(ns) => match ts.last().trigger.needle() {
                Err(e) => Err(e),
                Ok(Some(n)) => Ok(ns.push(n)),
                Ok(None) => Ok(ns),
            },
        }
    }
}

/// What a job does next.
#[derive(Debug, PartialEq)]
pub enum StepPlan {
    /// A transition of the state fires at once: step without waiting.
    Fire,
    /// Wait until the console shows one of these, then step with what it
    /// showed.
    Wait(Vec<Needle>),
}

/// The mathematical value of a `StepPlan`.
pub enum StepPlanView {
    Fire,
    Wait(Seq<NeedleView>),
}

/// The needles of a list, as mathematical values.
pub open spec fn needles_view(ns: Seq<Needle>) -> Seq<NeedleView> {
    Seq::new(ns.len(), |i: int| ns[i]@)
}

impl View for StepPlan {
    type V = StepPlanView;

    open spec fn view(&self) -> StepPlanView {
        match self {
            StepPlan::Fire => StepPlanView::Fire,
            StepPlan::Wait(ns) => StepPlanView::Wait(needles_view(ns@)),
        }
    }
}

/// What happened since the last step.
#[derive(Debug, PartialEq)]
pub enum StepEvent {
    /// Nothing: the job may fire a transition that needs no input.
    Tick,
    /// The wait ended: `data` is the console output that it consumed, and
    /// `matched` the part of it that one of the needles matched.
    Matched { data: String, matched: String },
    /// The wait ran out of time.
    Timeout,
    /// A command arrived.
    Command(JobCommand),
}

/// The mathematical value of a `StepEvent`.
pub enum StepEventView {
    Tick,
    Matched { data: Seq<char>, matched: Seq<char> },
    Timeout,
    Command(JobCommand),
}

impl View for StepEvent {
    type V = StepEventView;

    open spec fn view(&self) -> StepEventView {
        match self {
            StepEvent::Tick => StepEventView::Tick,
            StepEvent::Matched { data, matched } => StepEventView::Matched {
                data: data@,
                matched: matched@,
            },
            StepEvent::Timeout => StepEventView::Timeout,
            StepEvent::Command(c) => StepEventView::Command(*c),
        }
    }
}

impl JobView {
    /// The job stays as it is and nothing is asked for.
    pub open spec fn idle(self, sent: Seq<EffectView>) -> Outcome {
        Outcome { job: self, effects: sent, failed: None }
    }

    /// The job ends on an error.
    pub open spec fn broken(self, sent: Seq<EffectView>, e: EngineErrorView) -> Outcome {
        Outcome { job: self, effects: sent, failed: Some(e) }
    }

    /// What the job does next: fire, where a transition of its state fires
    /// at once, whatever stands before it; else wait for the triggers of the
    /// state.
    pub open spec fn plan(self) -> Result<StepPlanView, EngineErrorView> {
        if !self.graph.contains_key(self.current_state) {
            Err(EngineErrorView::UnknownState { state: self.current_state })
        } else {
            let ts = self.graph[self.current_state].transitions;
            if first_immediate(ts, 0) is Some {
                Ok(StepPlanView::Fire)
            } else {
                match needles(ts) {
                    Ok(ns) => Ok(StepPlanView::Wait(ns)),
                    Err(e) => Err(e),
                }
            }
        }
    }

    /// The job starts over: it is in the state `Init`, has recorded nothing,
    /// and starts at `now`; the start and the change of state are published.
    pub open spec fn reset_outcome(self, now: i64, sent: Seq<EffectView>) -> Outcome {
        Outcome {
            job: JobView {
                current_state: "Init"@,
                information: Seq::empty(),
                job_started: now,
                ..self
            },
            effects: sent.push(EffectView::Publish(JobUpdateView::JobStart(now))).push(
                EffectView::Publish(
                    JobUpdateView::JobStageTransition(self.current_state, "Init"@),
                ),
            ),
            failed: None,
        }
    }

    /// The job takes the transition `t`: its actions are worked through, then
    /// the job is in the target state, and the change of state is published.
    /// Where the graph lacks the target, nothing happens but the error; where
    /// an action fails, the job stays in its state.
    pub open spec fn transition_outcome(
        self,
        t: TransitionView,
        data: Seq<char>,
        mat: Seq<char>,
        now: i64,
        sent: Seq<EffectView>,
    ) -> Outcome {
        if !self.graph.contains_key(t.target) {
            self.broken(sent, EngineErrorView::UnknownState { state: t.target })
        } else {
            let p = run_actions(t.actions, 0, self.context(data, mat, now), self.progress(sent));
            if p.failed is Some {
                Outcome { job: self.resumed(p), effects: p.effects, failed: p.failed }
            } else {
                Outcome {
                    job: JobView { current_state: t.target, ..self.resumed(p) },
                    effects: p.effects.push(
                        EffectView::Publish(
                            JobUpdateView::JobStageTransition(self.current_state, t.target),
                        ),
                    ),
                    failed: None,
                }
            }
        }
    }

    /// The job is told to start over: it records that it was aborted,
    /// publishes the outcome, and starts over.
    pub open spec fn command_outcome(self, cmd: JobCommand, now: i64, sent: Seq<EffectView>) -> Outcome {
        match cmd {
            JobCommand::ResetJob => {
                let p = self.progress(sent).record(
                    DeviceFact::of(DeviceInformationKind::Aborted, Seq::empty()),
                ).finish(now, false);
                self.resumed(p).reset_outcome(now, p.effects)
            },
        }
    }

    /// The job steps without input: the first transition of its state that
    /// fires at once is taken; where there is none, nothing happens.
    pub open spec fn tick_outcome(self, now: i64, sent: Seq<EffectView>) -> Outcome {
        if !self.graph.contains_key(self.current_state) {
            self.broken(sent, EngineErrorView::UnknownState { state: self.current_state })
        } else {
            let ts = self.graph[self.current_state].transitions;
            match first_immediate(ts, 0) {
                Some(i) => self.transition_outcome(ts[i], Seq::empty(), Seq::empty(), now, sent),
                None => self.idle(sent),
            }
        }
    }

    /// The job steps after a wait reported the match `m` in the output
    /// `data`. A transition that fires at once is taken before any other;
    /// else the first transition whose trigger `m` satisfies is taken; where
    /// `m` satisfies none, the job ends on an error.
    pub open spec fn match_outcome(
        self,
        data: Seq<char>,
        m: Seq<char>,
        now: i64,
        sent: Seq<EffectView>,
    ) -> Outcome {
        if !self.graph.contains_key(self.current_state) {
            self.broken(sent, EngineErrorView::UnknownState { state: self.current_state })
        } else {
            let ts = self.graph[self.current_state].transitions;
            match first_immediate(ts, 0) {
                Some(i) => self.transition_outcome(ts[i], Seq::empty(), Seq::empty(), now, sent),
                None => match first_match(ts, m, 0) {
                    Err(e) => self.broken(sent, e),
                    Ok(None) => self.broken(sent, EngineErrorView::NoTriggerMatched { text: m }),
                    Ok(Some(i)) => self.transition_outcome(ts[i], data, m, now, sent),
                },
            }
        }
    }

    /// The job steps on an event.
    pub open spec fn step_outcome(self, event: StepEventView, now: i64, sent: Seq<EffectView>) -> Outcome {
        match event {
            StepEventView::Tick => self.tick_outcome(now, sent),
            StepEventView::Matched { data, matched } => self.match_outcome(
                data,
                matched,
                now,
                sent,
            ),
            StepEventView::Timeout => self.idle(sent),
            StepEventView::Command(cmd) => self.command_outcome(cmd, now, sent),
        }
    }
}

/// The job `after` and the effects `sent` are what the outcome says, and `r`
/// is its verdict.
pub open spec fn came_to(
    after: JobView,
    sent: Seq<EffectView>,
    r: Result<(), EngineError>,
    o: Outcome,
) -> bool {
    &&& after == o.job
    &&& sent == o.effects
    &&& match r {
        Ok(()) => o.failed is None,
        Err(e) => o.failed == Some(e@),
    }
}

/// The index of the first transition that fires at once.
pub fn find_immediate(ts: &Vec<StateMachineTransition>) -> (r: Option<usize>)
    ensures
        match r {
            Some(i) => first_immediate(transitions_view(ts@), 0) == Some(i as int) && i
                < ts@.len(),
            None => first_immediate(transitions_view(ts@), 0) is None,
        },
{
    let ghost tv = transitions_view(ts@);
    let mut i: usize = 0;
    while i < ts.len()
        invariant
            i <= ts.len(),
            tv == transitions_view(ts@),
            first_immediate(tv, 0) == first_immediate(tv, i as int),
        decreases ts.len() - i,
    {
        assert(tv[i as int] == ts@[i as int]@);
        if ts[i].trigger.is_immediate() {
            return Some(i);
        }
        i += 1;
    }
    None
}

/// The index of the first transition whose trigger the text `m` satisfies.
pub fn find_match(ts: &Vec<StateMachineTransition>, m: &str) -> (r: Result<
    Option<usize>,
    EngineError,
>)
    ensures
        match r {
            Ok(Some(i)) => first_match(transitions_view(ts@), m@, 0) == Ok::<
                Option<int>,
                EngineErrorView,
            >(Some(i as int)) && i < ts@.len(),
            Ok(None) => first_match(transitions_view(ts@), m@, 0) == Ok::<
                Option<int>,
                EngineErrorView,
            >(None),
            Err(e) => first_match(transitions_view(ts@), m@, 0) == Err::<
                Option<int>,
                EngineErrorView,
            >(e@),
        },
{
    let ghost tv = transitions_view(ts@);
    let mut i: usize = 0;
    while i < ts.len()
        invariant
            i <= ts.len(),
            tv == transitions_view(ts@),
            first_match(tv, m@, 0) == first_match(tv, m@, i as int),
        decreases ts.len() - i,
    {
        assert(tv[i as int] == ts@[i as int]@);
        match ts[i].trigger.matches_result(m) {
            Err(e) => {
                return Err(e);
            },
            Ok(true) => {
                return Ok(Some(i));
            },
            Ok(false) => {},
        }
        i += 1;
    }
    Ok(None)
}

/// What a wait for any of the triggers looks for.
pub fn collect_needles(ts: &Vec<StateMachineTransition>) -> (r: Result<Vec<Needle>, EngineError>)
    ensures
        match r {
            Ok(ns) => needles(transitions_view(ts@)) == Ok::<Seq<NeedleView>, EngineErrorView>(
                needles_view(ns@),
            ),
            Err(e) => needles(transitions_view(ts@)) == Err::<Seq<NeedleView>, EngineErrorView>(
                e@,
            ),
        },
{
    let ghost tv = transitions_view(ts@);
    let mut out: Vec<Needle> = Vec::new();
    let mut i: usize = 0;
    assert(tv.take(0) =~= Seq::<TransitionView>::empty());
    assert(needles_view(out@) =~= Seq::<NeedleView>::empty());
    while i < ts.len()
        invariant
            i <= ts.len(),
            tv == transitions_view(ts@),
            needles(tv.take(i as int)) == Ok::<Seq<NeedleView>, EngineErrorView>(
                needles_view(out@),
            ),
        decreases ts.len() - i,
    {
        assert(tv.take(i as int + 1).drop_last() =~= tv.take(i as int));
        assert(tv.take(i as int + 1).last() == ts@[i as int]@);
        match ts[i].trigger.to_needle() {
            Err(e) => {
                proof {
                    lemma_needles_stop(tv, i as int + 1);
                }
                return Err(e);
            },
            Ok(Some(n)) => {
                let ghost before = out@;
                out.push(n);
                assert(needles_view(out@) =~= needles_view(before).push(n@));
            },
            Ok(None) => {},
        }
        i += 1;
    }
    assert(tv.take(ts.len() as int) =~= tv);
    Ok(out)
}

/// Once a trigger has no needle to give, the triggers behind it are not
/// asked.
pub proof fn lemma_needles_stop(ts: Seq<TransitionView>, k: int)
    requires
        0 <= k <= ts.len(),
        needles(ts.take(k)) is Err,
    ensures
        needles(ts) == needles(ts.take(k)),
    decreases ts.len() - k,
{
    if k < ts.len() {
        assert(ts.take(k + 1).drop_last() =~= ts.take(k));
        lemma_needles_stop(ts, k + 1);
    } else {
        assert(ts.take(k) =~= ts);
    }
}

impl View for ActiveJob {
    type V = JobView;

    closed spec fn view(&self) -> JobView {
        JobView {
            graph: self.state_machine@,
            current_state: self.current_state@,
            information: facts_of(self.information@),
            job_started: self.job_started,
            config: settings_view(self.job_config@),
            reset_on_finish: self.reset_on_finish,
        }
    }
}

impl ActiveJob {
    /// A job in the state `Init` that has recorded nothing.
    pub fn create(
        state_machine: StateMachine,
        job_config: Vec<(String, String)>,
        reset_on_finish: bool,
        now: i64,
    ) -> (r: Self)
        ensures
            r@ == (JobView {
                graph: state_machine@,
                current_state: "Init"@,
                information: Seq::empty(),
                job_started: now,
                config: settings_view(job_config@),
                reset_on_finish,
            }),
    {
        let r = ActiveJob {
            state_machine,
            current_state: String::from_str("Init"),
            information: Vec::new(),
            job_started: now,
            job_config,
            reset_on_finish,
        };
        assert(r@.information =~= Seq::<DeviceFact>::empty());
        r
    }

    /// The name of the state that the job is in.
    pub fn current_state(&self) -> (r: &str)
        ensures
            r@ == self@.current_state,
    {
        self.current_state.as_str()
    }

    /// When the job started, in milliseconds since the epoch.
    pub fn job_started(&self) -> (r: i64)
        ensures
            r == self@.job_started,
    {
        self.job_started
    }

    /// The graph that the job runs on.
    pub fn state_machine(&self) -> (r: &StateMachine)
        ensures
            r@ == self@.graph,
    {
        &self.state_machine
    }

    /// The facts recorded about the device, in the order of recording.
    pub fn get_information(&self) -> (r: &Vec<DeviceInformation>)
        ensures
            facts_of(r@) == self@.information,
    {
        &self.information
    }

    /// The most serious severity among the recorded facts.
    pub fn get_max_information_type(&self) -> (r: Option<DeviceInformationType>)
        ensures
            r == max_severity(self@.information),
    {
        max_information_type(&self.information)
    }

    /// The setting of the name `key`, if the job has one.
    pub fn get_job_config_key(&self, key: &str) -> (r: Option<String>)
        ensures
            match r {
                Some(v) => config_value(self@.config, key@) == Some(v@),
                None => config_value(self@.config, key@) is None,
            },
    {
        let wanted = key.to_owned();
        let ghost all = settings_view(self.job_config@);
        let mut i: usize = 0;
        assert(all.skip(0) =~= all);
        while i < self.job_config.len()
            invariant
                i <= self.job_config.len(),
                wanted@ == key@,
                all == settings_view(self.job_config@),
                config_value(all, key@) == config_value(all.skip(i as int), key@),
            decreases self.job_config.len() - i,
        {
            assert(all.skip(i as int).drop_first() =~= all.skip(i as int + 1));
            assert(all.skip(i as int)[0] == all[i as int]);
            if self.job_config[i].0 == wanted {
                return Some(self.job_config[i].1.clone());
            }
            i += 1;
        }
        None
    }

    /// Records a fact about the device. One that is recorded already changes
    /// nothing; any other is added behind the facts recorded before, which
    /// all stay, and is published.
    pub fn add_information(&mut self, information: DeviceInformation, out: &mut Vec<Effect>)
        ensures
            final(self)@ == old(self)@.resumed(
                old(self)@.progress(effects_view(old(out)@)).record(information@),
            ),
            effects_view(final(out)@) == old(self)@.progress(effects_view(old(out)@)).record(
                information@,
            ).effects,
    {
        if !holds_fact(&self.information, &information) {
            let ghost before = self.information@;
            let ghost sent = out@;
            self.information.push(information.clone());
            assert(facts_of(self.information@) =~= facts_of(before).push(information@));
            out.push(Effect::Publish(JobUpdate::JobNewInfoItem(information)));
            assert(effects_view(out@) =~= effects_view(sent).push(
                EffectView::Publish(JobUpdateView::JobNewInfoItem(information@)),
            ));
        }
    }

    /// Records the facts one after the other.
    pub fn add_all_information(&mut self, items: Vec<DeviceInformation>, out: &mut Vec<Effect>)
        ensures
            final(self)@ == old(self)@.resumed(
                old(self)@.progress(effects_view(old(out)@)).record_all(facts_of(items@)),
            ),
            effects_view(final(out)@) == old(self)@.progress(effects_view(old(out)@)).record_all(
                facts_of(items@),
            ).effects,
    {
        let ghost start = old(self)@.progress(effects_view(old(out)@));
        let ghost all = facts_of(items@);
        let mut i: usize = 0;
        assert(all.take(0) =~= Seq::<DeviceFact>::empty());
        while i < items.len()
            invariant
                i <= items.len(),
                all == facts_of(items@),
                start == old(self)@.progress(effects_view(old(out)@)),
                self@ == old(self)@.resumed(start.record_all(all.take(i as int))),
                effects_view(out@) == start.record_all(all.take(i as int)).effects,
                start.record_all(all.take(i as int)).failed is None,
            decreases items.len() - i,
        {
            assert(all.take(i as int + 1).drop_last() =~= all.take(i as int));
            assert(all.take(i as int + 1).last() == items@[i as int]@);
            self.add_information(items[i].clone(), out);
            i += 1;
        }
        assert(all.take(items.len() as int) =~= all);
    }

    /// Finishes the job: its outcome, which follows from the most serious
    /// fact recorded, is published. Where finishing makes room for the next
    /// job, the facts are then forgotten and a job that starts at `now` is
    /// announced.
    pub fn finish_job(&mut self, now: i64, out: &mut Vec<Effect>)
        ensures
            final(self)@ == old(self)@.resumed(
                old(self)@.progress(effects_view(old(out)@)).finish(
                    now,
                    old(self)@.reset_on_finish,
                ),
            ),
            effects_view(final(out)@) == old(self)@.progress(effects_view(old(out)@)).finish(
                now,
                old(self)@.reset_on_finish,
            ).effects,
    {
        let status = PortJobStatus::from_max_severity(self.get_max_information_type());
        let ghost sent = out@;
        out.push(Effect::Publish(JobUpdate::JobStatusUpdate(status)));
        assert(effects_view(out@) =~= effects_view(sent).push(
            EffectView::Publish(JobUpdateView::JobStatusUpdate(status)),
        ));
        if self.reset_on_finish {
            let ghost told = out@;
            self.information = Vec::new();
            self.job_started = now;
            out.push(Effect::Publish(JobUpdate::JobStart(now)));
            assert(effects_view(out@) =~= effects_view(told).push(
                EffectView::Publish(JobUpdateView::JobStart(now)),
            ));
            assert(self@.information =~= Seq::<DeviceFact>::empty());
        }
    }

    /// Starts the job over: it is in the state `Init`, has recorded nothing,
    /// and starts at `now`; the start and the change of state are published.
    pub fn reset(&mut self, now: i64, out: &mut Vec<Effect>)
        ensures
            came_to(
                final(self)@,
                effects_view(final(out)@),
                Ok(()),
                old(self)@.reset_outcome(now, effects_view(old(out)@)),
            ),
    {
        let ghost sent = out@;
        let old_stage = self.current_state.clone();
        self.current_state = String::from_str("Init");
        self.information = Vec::new();
        self.job_started = now;
        out.push(Effect::Publish(JobUpdate::JobStart(now)));
        out.push(
            Effect::Publish(JobUpdate::JobStageTransition(old_stage, self.current_state.clone())),
        );
        assert(effects_view(out@) =~= effects_view(sent).push(
            EffectView::Publish(JobUpdateView::JobStart(now)),
        ).push(
            EffectView::Publish(
                JobUpdateView::JobStageTransition(old(self)@.current_state, "Init"@),
            ),
        ));
        assert(self@.information =~= Seq::<DeviceFact>::empty());
    }

    /// Starts the first job: what `reset` does, and the port is announced as
    /// idle.
    pub fn start(&mut self, now: i64, out: &mut Vec<Effect>)
        ensures
            final(self)@ == old(self)@.reset_outcome(now, effects_view(old(out)@)).job,
            effects_view(final(out)@) == old(self)@.reset_outcome(
                now,
                effects_view(old(out)@),
            ).effects.push(
                EffectView::Publish(JobUpdateView::JobStatusUpdate(PortJobStatus::Idle)),
            ),
    {
        self.reset(now, out);
        let ghost sent = out@;
        out.push(Effect::Publish(JobUpdate::JobStatusUpdate(PortJobStatus::Idle)));
        assert(effects_view(out@) =~= effects_view(sent).push(
            EffectView::Publish(JobUpdateView::JobStatusUpdate(PortJobStatus::Idle)),
        ));
    }

    /// Takes the transition `t`: works through its actions, goes to its
    /// target, and publishes the change of state. `d` is the console output
    /// since the last transition and `m` the part of it that satisfied the
    /// trigger.
    pub fn transition(
        &mut self,
        t: &StateMachineTransition,
        d: &str,
        m: &str,
        now: i64,
        out: &mut Vec<Effect>,
    ) -> (r: Result<(), EngineError>)
        ensures
            came_to(
                final(self)@,
                effects_view(final(out)@),
                r,
                old(self)@.transition_outcome(t@, d@, m@, now, effects_view(old(out)@)),
            ),
    {
        if !self.state_machine.has_state(t.target.as_str()) {
            return Err(EngineError::UnknownState { state: t.target.clone() });
        }
        match perform_all(&t.actions, self, d, m, now, out) {
            Ok(()) => {},
            Err(e) => {
                return Err(e);
            },
        }
        let ghost sent = out@;
        let old_state = self.current_state.clone();
        self.current_state = t.target.clone();
        out.push(Effect::Publish(JobUpdate::JobStageTransition(old_state, t.target.clone())));
        assert(effects_view(out@) =~= effects_view(sent).push(
            EffectView::Publish(
                JobUpdateView::JobStageTransition(old(self)@.current_state, t@.target),
            ),
        ));
        Ok(())
    }

    /// What the job does next: fire a transition at once, or wait for the
    /// triggers of its state.
    pub fn next_step(&self) -> (r: Result<StepPlan, EngineError>)
        ensures
            match r {
                Ok(plan) => self@.plan() == Ok::<StepPlanView, EngineErrorView>(plan@),
                Err(e) => self@.plan() == Err::<StepPlanView, EngineErrorView>(e@),
            },
    {
        let state = match self.state_machine.state(self.current_state.as_str()) {
            Ok(state) => state,
            Err(e) => {
                return Err(e);
            },
        };
        if find_immediate(&state.transitions).is_some() {
            return Ok(StepPlan::Fire);
        }
        match collect_needles(&state.transitions) {
            Ok(ns) => Ok(StepPlan::Wait(ns)),
            Err(e) => Err(e),
        }
    }

    /// Obeys a command from outside.
    pub fn command(&mut self, cmd: JobCommand, now: i64, out: &mut Vec<Effect>)
        ensures
            came_to(
                final(self)@,
                effects_view(final(out)@),
                Ok(()),
                old(self)@.command_outcome(cmd, now, effects_view(old(out)@)),
            ),
    {
        match cmd {
            JobCommand::ResetJob => {
                self.add_information(DeviceInformation::Aborted, out);
                let status = PortJobStatus::from_max_severity(self.get_max_information_type());
                let ghost sent = out@;
                out.push(Effect::Publish(JobUpdate::JobStatusUpdate(status)));
                assert(effects_view(out@) =~= effects_view(sent).push(
                    EffectView::Publish(JobUpdateView::JobStatusUpdate(status)),
                ));
                self.reset(now, out);
            },
        }
    }

    /// One step of the job on an event. Effects are added to `out` in the
    /// order in which the caller is to carry them out; they stand there also
    /// where the step fails.
    pub fn step(&mut self, event: StepEvent, now: i64, out: &mut Vec<Effect>) -> (r: Result<
        (),
        EngineError,
    >)
        ensures
            came_to(
                final(self)@,
                effects_view(final(out)@),
                r,
                old(self)@.step_outcome(event@, now, effects_view(old(out)@)),
            ),
    {
        proof {
            reveal_strlit("");
            assert(""@ =~= Seq::<char>::empty());
        }
        match event {
            StepEvent::Timeout => Ok(()),
            StepEvent::Command(cmd) => {
                self.command(cmd, now, out);
                Ok(())
            },
            StepEvent::Tick => {
                let state = match self.state_machine.state(self.current_state.as_str()) {
                    Ok(state) => state,
                    Err(e) => {
                        return Err(e);
                    },
                };
                match find_immediate(&state.transitions) {
                    Some(i) => self.transition(&state.transitions[i], "", "", now, out),
                    None => Ok(()),
                }
            },
            StepEvent::Matched { data, matched } => {
                let state = match self.state_machine.state(self.current_state.as_str()) {
                    Ok(state) => state,
                    Err(e) => {
                        return Err(e);
                    },
                };
                match find_immediate(&state.transitions) {
                    Some(i) => self.transition(&state.transitions[i], "", "", now, out),
                    None => match find_match(&state.transitions, matched.as_str()) {
                        Err(e) => Err(e),
                        Ok(None) => Err(EngineError::NoTriggerMatched { text: matched }),
                        Ok(Some(i)) => self.transition(
                            &state.transitions[i],
                            data.as_str(),
                            matched.as_str(),
                            now,
                            out,
                        ),
                    },
                }
            },
        }
    }
}

} // verus!
