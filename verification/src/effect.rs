//! What a job asks of the world around it, and the account that is kept while
//! the actions of a transition are worked through.
//!
//! The engine does no input or output. Working through an action adds to a
//! list of effects, which the caller then carries out in order; the first one
//! that fails ends the job.

use crate::action::TimeSpan;
use crate::devinfo::{max_severity, DeviceFact};
use crate::error::EngineErrorView;
use crate::status::{JobUpdate, JobUpdateView, PortJobStatus};
use vstd::prelude::*;

verus! {

/// One thing for the caller to do.
#[derive(Debug, PartialEq)]
pub enum Effect {
    /// Write the text to the console.
    Send(String),
    /// Write the text and a line ending to the console.
    SendLine(String),
    /// Write the control character that goes with this letter.
    SendControl(char),
    /// Flush what was written.
    Flush,
    /// Pause the job for this long.
    Delay(TimeSpan),
    /// Wait until the console shows this text.
    ExpectString(String),
    /// Prepare what the job needs outside the engine, such as its log files.
    SetupJob,
    /// Send this news to whoever watches the job.
    Publish(JobUpdate),
}

/// The mathematical value of an `Effect`.
pub enum EffectView {
    Send(Seq<char>),
    SendLine(Seq<char>),
    SendControl(char),
    Flush,
    Delay(TimeSpan),
    ExpectString(Seq<char>),
    SetupJob,
    Publish(JobUpdateView),
}

impl View for Effect {
    type V = EffectView;

    open spec fn view(&self) -> EffectView {
        match self {
            Effect::Send(s) => EffectView::Send(s@),
            Effect::SendLine(s) => EffectView::SendLine(s@),
            Effect::SendControl(c) => EffectView::SendControl(*c),
            Effect::Flush => EffectView::Flush,
            Effect::Delay(d) => EffectView::Delay(*d),
            Effect::ExpectString(s) => EffectView::ExpectString(s@),
            Effect::SetupJob => EffectView::SetupJob,
            Effect::Publish(u) => EffectView::Publish(u@),
        }
    }
}

impl Clone for Effect {
    fn clone(&self) -> (r: Self)
        ensures
            r@ == self@,
    {
        match self {
            Effect::Send(s) => Effect::Send(s.clone()),
            Effect::SendLine(s) => Effect::SendLine(s.clone()),
            Effect::SendControl(c) => Effect::SendControl(*c),
            Effect::Flush => Effect::Flush,
            Effect::Delay(d) => Effect::Delay(*d),
            Effect::ExpectString(s) => Effect::ExpectString(s.clone()),
            Effect::SetupJob => Effect::SetupJob,
            Effect::Publish(u) => Effect::Publish(u.clone()),
        }
    }
}

/// The values of a list of effects, in order.
pub open spec fn effects_view(es: Seq<Effect>) -> Seq<EffectView> {
    Seq::new(es.len(), |i: int| es[i]@)
}

/// The value bound to `key` in a list of settings: that of the first binding.
pub open spec fn config_value(config: Seq<(Seq<char>, Seq<char>)>, key: Seq<char>) -> Option<
    Seq<char>,
>
    decreases config.len(),
{
    if config.len() == 0 {
        None
    } else if config[0].0 == key {
        Some(config[0].1)
    } else {
        config_value(config.drop_first(), key)
    }
}

/// What the actions of a transition can read but not change.
pub struct Context {
    /// The settings of the job.
    pub config: Seq<(Seq<char>, Seq<char>)>,
    /// The console output since the last transition.
    pub data: Seq<char>,
    /// The part of it that satisfied the trigger.
    pub mat: Seq<char>,
    /// The present time, in milliseconds since the epoch.
    pub now: i64,
    /// Whether finishing a job at once makes room for the next one.
    pub reset_on_finish: bool,
}

/// The account kept while actions are worked through.
pub struct Progress {
    /// The facts recorded about the device, in the order of recording, none
    /// of them twice.
    pub information: Seq<DeviceFact>,
    /// When the job started, in milliseconds since the epoch.
    pub job_started: i64,
    /// The effects asked for so far.
    pub effects: Seq<EffectView>,
    /// The error that stopped the work, if one did.
    pub failed: Option<EngineErrorView>,
}

impl Progress {
    /// One more effect is asked for.
    pub open spec fn emit(self, e: EffectView) -> Progress {
        Progress { effects: self.effects.push(e), ..self }
    }

    /// A fact is recorded. One that is recorded already changes nothing; any
    /// other is added behind the facts recorded before, which all stay, and
    /// is published.
    pub open spec fn record(self, fact: DeviceFact) -> Progress {
        if self.information.contains(fact) {
            self
        } else {
            Progress {
                information: self.information.push(fact),
                effects: self.effects.push(
                    EffectView::Publish(JobUpdateView::JobNewInfoItem(fact)),
                ),
                ..self
            }
        }
    }

    /// The facts are recorded one after the other.
    pub open spec fn record_all(self, facts: Seq<DeviceFact>) -> Progress
        decreases facts.len(),
    {
        if facts.len() == 0 {
            self
        } else {
            self.record_all(facts.drop_last()).record(facts.last())
        }
    }

    /// The job finishes: its outcome, which follows from the most serious fact
    /// recorded, is published. Where finishing makes room for the next job,
    /// the facts are then forgotten and a job that starts now is announced.
    pub open spec fn finish(self, now: i64, reset: bool) -> Progress {
        let told = self.emit(
            EffectView::Publish(
                JobUpdateView::JobStatusUpdate(
                    PortJobStatus::at_finish(max_severity(self.information)),
                ),
            ),
        );
        if reset {
            Progress {
                information: Seq::empty(),
                job_started: now,
                effects: told.effects.push(EffectView::Publish(JobUpdateView::JobStart(now))),
                ..told
            }
        } else {
            told
        }
    }

    /// The work stops on an error.
    pub open spec fn fail(self, e: EngineErrorView) -> Progress {
        Progress { failed: Some(e), ..self }
    }
}

} // verus!
