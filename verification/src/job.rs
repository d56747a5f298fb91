//! What an observer knows of a job: its history, its facts, and the status
//! that follows from them.

use crate::devinfo::{
    facts_of, kinds_distinct, max_information_type, max_severity, DeviceFact, DeviceInformation,
    DeviceInformationKind, DeviceInformationType,
};
use crate::status::{JobUpdate, JobUpdateView, PortJobStatus};
use vstd::prelude::*;
use vstd::string::*;

verus! {

/// After this many milliseconds without news, a running job counts as
/// running long: fifteen minutes.
pub const STALE_AFTER_MS: i64 = 900000;

/// The status of a job, as derived from what is known of it.
#[derive(Copy, Clone, Debug, PartialEq, Eq, PartialOrd, Ord, Structural)]
pub enum JobStatus {
    /// Initial state
    Idle,
    /// Waiting for new switch; previous success
    FinishSuccess,
    /// Waiting for new switch; previous warning
    FinishWarning,
    /// Waiting for new switch; previous error
    FinishError,
    /// Working on a switch.
    Busy,
    /// This job is taking too long.
    RunningLong,
    /// The job loop has stopped on a fatal error.
    Fatal,
}

impl Default for JobStatus {
    fn default() -> (r: Self)
        ensures
            r == JobStatus::Idle,
    {
        JobStatus::Idle
    }
}

impl JobStatus {
    /// The status is one that ends a job.
    pub open spec fn finished(self) -> bool {
        self == JobStatus::FinishSuccess || self == JobStatus::FinishWarning || self
            == JobStatus::FinishError
    }

    /// The status is one in which the port waits for a device.
    pub open spec fn idle(self) -> bool {
        self == JobStatus::Idle || self.finished()
    }

    pub fn is_idle(&self) -> (b: bool)
        ensures
            b == self.idle(),
    {
        match self {
            JobStatus::Idle => true,
            JobStatus::FinishSuccess => true,
            JobStatus::FinishWarning => true,
            JobStatus::FinishError => true,
            _ => false,
        }
    }

    pub fn is_finished(&self) -> (b: bool)
        ensures
            b == self.finished(),
    {
        match self {
            JobStatus::FinishSuccess => true,
            JobStatus::FinishWarning => true,
            JobStatus::FinishError => true,
            _ => false,
        }
    }

    /// The same status as a status of the port.
    pub open spec fn as_port_status(self) -> PortJobStatus {
        match self {
            JobStatus::Idle => PortJobStatus::Idle,
            JobStatus::FinishSuccess => PortJobStatus::FinishSuccess,
            JobStatus::FinishWarning => PortJobStatus::FinishWarning,
            JobStatus::FinishError => PortJobStatus::FinishError,
            JobStatus::Busy => PortJobStatus::Busy,
            JobStatus::RunningLong => PortJobStatus::RunningLong,
            JobStatus::Fatal => PortJobStatus::Fatal,
        }
    }

    /// The same status as a status of the port.
    pub fn to_port_status(&self) -> (s: PortJobStatus)
        ensures
            s == self.as_port_status(),
    {
        match self {
            JobStatus::Idle => PortJobStatus::Idle,
            JobStatus::FinishSuccess => PortJobStatus::FinishSuccess,
            JobStatus::FinishWarning => PortJobStatus::FinishWarning,
            JobStatus::FinishError => PortJobStatus::FinishError,
            JobStatus::Busy => PortJobStatus::Busy,
            JobStatus::RunningLong => PortJobStatus::RunningLong,
            JobStatus::Fatal => PortJobStatus::Fatal,
        }
    }

    /// The sign that stands for the status where space is short.
    pub fn symbol(&self) -> (c: String)
        ensures
            c@ == self.as_port_status().sign(),
    {
        self.to_port_status().symbol()
    }

    /// The colour that stands for the status on a dashboard.
    pub fn get_css_backgroundcolor(&self) -> (c: String)
        ensures
            c@ == self.as_port_status().css_color(),
    {
        self.to_port_status().get_css_backgroundcolor()
    }
}

/// Current and historical data of a job.
#[derive(Debug, PartialEq)]
pub struct JobData {
    /// Port label
    pub label: String,
    /// When the job started, in milliseconds since the epoch.
    pub job_started: Option<i64>,
    /// When the job ended, in milliseconds since the epoch.
    pub job_ended: Option<i64>,
    /// History of states with the time at which each was entered,
    /// 0 == oldest, n == newest
    pub state_history: Vec<(i64, String)>,
    /// The facts known of the device, at most one of each kind.
    pub info_items: Vec<DeviceInformation>,
}

/// The mathematical value of a `JobData`.
pub struct JobDataView {
    pub label: Seq<char>,
    pub job_started: Option<i64>,
    pub job_ended: Option<i64>,
    pub state_history: Seq<(i64, Seq<char>)>,
    pub info_items: Seq<DeviceFact>,
}

/// The values of a history, in order.
pub open spec fn history_view(h: Seq<(i64, String)>) -> Seq<(i64, Seq<char>)> {
    Seq::new(h.len(), |i: int| (h[i].0, h[i].1@))
}

impl View for JobData {
    type V = JobDataView;

    open spec fn view(&self) -> JobDataView {
        JobDataView {
            label: self.label@,
            job_started: self.job_started,
            job_ended: self.job_ended,
            state_history: history_view(self.state_history@),
            info_items: facts_of(self.info_items@),
        }
    }
}

/// The facts of `facts` that are not of the kind `kind`, in their order.
pub open spec fn without_kind(facts: Seq<DeviceFact>, kind: DeviceInformationKind) -> Seq<
    DeviceFact,
>
    decreases facts.len(),
{
    if facts.len() == 0 {
        Seq::empty()
    } else if facts.last().kind == kind {
        without_kind(facts.drop_last(), kind)
    } else {
        without_kind(facts.drop_last(), kind).push(facts.last())
    }
}

/// The facts after `fact` was recorded: it takes the place of any fact of its
/// kind, at the end of the list.
pub open spec fn with_fact(facts: Seq<DeviceFact>, fact: DeviceFact) -> Seq<DeviceFact> {
    without_kind(facts, fact.kind).push(fact)
}

/// Removing a kind leaves only facts that were there, none of that kind, and
/// keeps the kinds distinct where they were.
pub proof fn lemma_without_kind(facts: Seq<DeviceFact>, kind: DeviceInformationKind)
    ensures
        forall|i: int|
            0 <= i < without_kind(facts, kind).len() ==> (#[trigger] without_kind(
                facts,
                kind,
            )[i]).kind != kind && facts.contains(without_kind(facts, kind)[i]),
        forall|i: int|
            0 <= i < facts.len() && facts[i].kind != kind ==> without_kind(facts, kind).contains(
                #[trigger] facts[i],
            ),
        kinds_distinct(facts) ==> kinds_distinct(without_kind(facts, kind)),
        without_kind(facts, kind).len() <= facts.len(),
    decreases facts.len(),
{
    if facts.len() > 0 {
        let front = facts.drop_last();
        let rest = without_kind(front, kind);
        let out = without_kind(facts, kind);
        lemma_without_kind(front, kind);
        assert forall|i: int| 0 <= i < out.len() implies (#[trigger] out[i]).kind != kind
            && facts.contains(out[i]) by {
            if i < rest.len() {
                assert(front.contains(rest[i]));
                let j = choose|j: int| 0 <= j < front.len() && front[j] == rest[i];
                assert(facts[j] == out[i]);
            } else {
                assert(facts[facts.len() - 1] == out[i]);
            }
        }
        assert forall|i: int| 0 <= i < facts.len() && facts[i].kind != kind implies out.contains(
            #[trigger] facts[i],
        ) by {
            if i < front.len() {
                assert(front[i] == facts[i]);
                assert(rest.contains(front[i]));
                let j = choose|j: int| 0 <= j < rest.len() && rest[j] == front[i];
                assert(out[j] == facts[i]);
            } else {
                assert(out[out.len() - 1] == facts[i]);
            }
        }
        if kinds_distinct(facts) {
            assert(kinds_distinct(front)) by {
                assert forall|i: int, j: int| 0 <= i < j < front.len() implies front[i].kind
                    != front[j].kind by {
                    assert(front[i] == facts[i] && front[j] == facts[j]);
                }
            }
            assert forall|i: int, j: int| 0 <= i < j < out.len() implies out[i].kind
                != out[j].kind by {
                if j < rest.len() {
                    assert(out[i] == rest[i] && out[j] == rest[j]);
                } else {
                    assert(front.contains(rest[i]));
                    let p = choose|p: int| 0 <= p < front.len() && front[p] == rest[i];
                    assert(facts[p].kind != facts[facts.len() - 1].kind);
                }
            }
        }
    }
}

/// Recording a fact keeps the kinds distinct, and the fact is then the only
/// one of its kind.
pub proof fn lemma_with_fact(facts: Seq<DeviceFact>, fact: DeviceFact)
    requires
        kinds_distinct(facts),
    ensures
        kinds_distinct(with_fact(facts, fact)),
        with_fact(facts, fact).contains(fact),
        forall|i: int|
            0 <= i < with_fact(facts, fact).len() && (#[trigger] with_fact(facts, fact)[i]).kind
                == fact.kind ==> with_fact(facts, fact)[i] == fact,
{
    lemma_without_kind(facts, fact.kind);
    let out = with_fact(facts, fact);
    assert(out[out.len() - 1] == fact);
    assert forall|i: int, j: int| 0 <= i < j < out.len() implies out[i].kind != out[j].kind by {
        let rest = without_kind(facts, fact.kind);
        if j < rest.len() {
            assert(out[i] == rest[i] && out[j] == rest[j]);
        } else {
            assert(out[i] == rest[i]);
        }
    }
}

/// The facts of `items` that are not of the kind of `item`.
pub fn remove_kind(items: &Vec<DeviceInformation>, item: &DeviceInformation) -> (r: Vec<
    DeviceInformation,
>)
    ensures
        facts_of(r@) == without_kind(facts_of(items@), item@.kind),
{
    let mut out: Vec<DeviceInformation> = Vec::new();
    let mut i: usize = 0;
    assert(facts_of(items@).take(0) =~= Seq::<DeviceFact>::empty());
    assert(facts_of(out@) =~= Seq::<DeviceFact>::empty());
    while i < items.len()
        invariant
            i <= items.len(),
            facts_of(out@) == without_kind(facts_of(items@).take(i as int), item@.kind),
        decreases items.len() - i,
    {
        let ghost all = facts_of(items@);
        assert(all.take(i as int + 1).drop_last() =~= all.take(i as int));
        assert(all.take(i as int + 1).last() == items@[i as int]@);
        if !items[i].same_kind(item) {
            let ghost before = out@;
            out.push(items[i].clone());
            assert(facts_of(out@) =~= facts_of(before).push(items@[i as int]@));
        }
        i += 1;
    }
    assert(facts_of(items@).take(items.len() as int) =~= facts_of(items@));
    out
}

/// Whether `items` holds exactly the fact `item`.
pub fn holds_fact(items: &Vec<DeviceInformation>, item: &DeviceInformation) -> (b: bool)
    ensures
        b == facts_of(items@).contains(item@),
{
    let mut i: usize = 0;
    while i < items.len()
        invariant
            i <= items.len(),
            forall|j: int| 0 <= j < i ==> facts_of(items@)[j] != item@,
        decreases items.len() - i,
    {
        if items[i].same_as(item) {
            assert(facts_of(items@)[i as int] == item@);
            return true;
        }
        i += 1;
    }
    false
}

/// A copy of a list of facts.
pub fn clone_facts(items: &Vec<DeviceInformation>) -> (r: Vec<DeviceInformation>)
    ensures
        facts_of(r@) == facts_of(items@),
{
    let mut out: Vec<DeviceInformation> = Vec::new();
    let mut i: usize = 0;
    while i < items.len()
        invariant
            i <= items.len(),
            out.len() == i,
            forall|j: int| 0 <= j < i ==> out@[j]@ == items@[j]@,
        decreases items.len() - i,
    {
        out.push(items[i].clone());
        i += 1;
    }
    assert(facts_of(out@) =~= facts_of(items@));
    out
}

impl Clone for JobData {
    fn clone(&self) -> (r: Self)
        ensures
            r@ == self@,
    {
        let mut history: Vec<(i64, String)> = Vec::new();
        let mut i: usize = 0;
        while i < self.state_history.len()
            invariant
                i <= self.state_history.len(),
                history.len() == i,
                forall|j: int|
                    0 <= j < i ==> history@[j].0 == self.state_history@[j].0 && history@[j].1@
                        == self.state_history@[j].1@,
            decreases self.state_history.len() - i,
        {
            history.push((self.state_history[i].0, self.state_history[i].1.clone()));
            i += 1;
        }
        assert(history_view(history@) =~= history_view(self.state_history@));
        JobData {
            label: self.label.clone(),
            job_started: self.job_started,
            job_ended: self.job_ended,
            state_history: history,
            info_items: clone_facts(&self.info_items),
        }
    }
}

impl JobDataView {
    /// The data of a port on which no job has run yet.
    pub open spec fn fresh(label: Seq<char>) -> JobDataView {
        JobDataView {
            label,
            job_started: None,
            job_ended: None,
            state_history: Seq::empty(),
            info_items: Seq::empty(),
        }
    }

    /// The state entered last, if any was.
    pub open spec fn current_stage(self) -> Option<Seq<char>> {
        if self.state_history.len() == 0 {
            None
        } else {
            Some(self.state_history.last().1)
        }
    }

    /// When the last state was entered, if any was.
    pub open spec fn last_updated(self) -> Option<i64> {
        if self.state_history.len() == 0 {
            None
        } else {
            Some(self.state_history.last().0)
        }
    }

    /// The most serious severity among the facts; `Warning` where there are
    /// none.
    pub open spec fn max_information_type(self) -> DeviceInformationType {
        match max_severity(self.info_items) {
            Some(m) => m,
            None => DeviceInformationType::Warning,
        }
    }

    /// The status at the time `now`: idle before a device is detected; once
    /// the job has finished, the outcome that the most serious fact gives, and
    /// idle where there is no fact; otherwise busy, or running long when the
    /// last state was entered more than fifteen minutes ago.
    pub open spec fn status(self, now: i64) -> JobStatus {
        match self.current_stage() {
            None => JobStatus::Idle,
            Some(stage) => if stage == "Init"@ || stage == "SwitchDetect"@ {
                JobStatus::Idle
            } else if stage == "JobFinished"@ {
                match max_severity(self.info_items) {
                    None => JobStatus::Idle,
                    Some(DeviceInformationType::Info) => JobStatus::FinishSuccess,
                    Some(DeviceInformationType::Warning) => JobStatus::FinishWarning,
                    Some(DeviceInformationType::Error) => JobStatus::FinishError,
                }
            } else if self.state_history.last().0 + STALE_AFTER_MS < now {
                JobStatus::RunningLong
            } else {
                JobStatus::Busy
            },
        }
    }

    /// The data after an update arrived at the time `now`.
    pub open spec fn updated(self, update: JobUpdateView, now: i64) -> JobDataView {
        match update {
            JobUpdateView::JobStageTransition(_, new) => JobDataView {
                state_history: self.state_history.push((now, new)),
                ..self
            },
            JobUpdateView::JobStatusUpdate(_) => self,
            JobUpdateView::JobStart(at) => JobDataView {
                job_started: Some(at),
                ..JobDataView::fresh(self.label)
            },
            JobUpdateView::JobEnd(at) => JobDataView { job_ended: Some(at), ..self },
            JobUpdateView::JobNewInfoItem(fact) => JobDataView {
                info_items: with_fact(self.info_items, fact),
                ..self
            },
            JobUpdateView::JobFullData(data) => data,
        }
    }
}

impl JobData {
    /// The data of a port on which no job has run yet.
    pub fn with_label(label: &str) -> (r: Self)
        ensures
            r@ == JobDataView::fresh(label@),
    {
        let r = JobData {
            label: String::from_str(label),
            job_started: None,
            job_ended: None,
            state_history: Vec::new(),
            info_items: Vec::new(),
        };
        assert(r@.state_history =~= Seq::empty());
        assert(r@.info_items =~= Seq::empty());
        r
    }

    /// Forgets everything but the label.
    pub fn reset(&mut self)
        ensures
            final(self)@ == JobDataView::fresh(old(self)@.label),
    {
        self.job_started = None;
        self.job_ended = None;
        self.state_history = Vec::new();
        self.info_items = Vec::new();
        assert(self@.state_history =~= Seq::empty());
        assert(self@.info_items =~= Seq::empty());
    }

    /// Records a fact, in place of any fact of the same kind.
    pub fn add_info_item(&mut self, i: DeviceInformation)
        ensures
            final(self)@ == (JobDataView {
                info_items: with_fact(old(self)@.info_items, i@),
                ..old(self)@
            }),
    {
        let mut kept = remove_kind(&self.info_items, &i);
        let ghost before = kept@;
        kept.push(i);
        assert(facts_of(kept@) =~= facts_of(before).push(i@));
        self.info_items = kept;
    }

    /// Applies an update that arrived at the time `now`.
    pub fn update(&mut self, update: JobUpdate, now: i64)
        ensures
            final(self)@ == old(self)@.updated(update@, now),
    {
        match update {
            JobUpdate::JobStageTransition(_old, new) => {
                let ghost before = self.state_history@;
                self.state_history.push((now, new));
                assert(history_view(self.state_history@) =~= history_view(before).push(
                    (now, new@),
                ));
            },
            JobUpdate::JobStatusUpdate(_) => {},
            JobUpdate::JobStart(d) => {
                self.reset();
                self.job_started = Some(d);
            },
            JobUpdate::JobEnd(d) => {
                self.job_ended = Some(d);
            },
            JobUpdate::JobNewInfoItem(i) => {
                self.add_info_item(i);
            },
            JobUpdate::JobFullData(d) => {
                *self = d;
            },
        }
    }

    /// The state entered last, if any was.
    pub fn get_current_stage(&self) -> (r: Option<&str>)
        ensures
            match r {
                Some(s) => self@.current_stage() == Some(s@),
                None => self@.current_stage() is None,
            },
    {
        let n = self.state_history.len();
        if n == 0 {
            None
        } else {
            Some(self.state_history[n - 1].1.as_str())
        }
    }

    /// When the last state was entered, if any was.
    pub fn get_last_updated(&self) -> (r: Option<i64>)
        ensures
            r == self@.last_updated(),
    {
        let n = self.state_history.len();
        if n == 0 {
            None
        } else {
            Some(self.state_history[n - 1].0)
        }
    }

    /// The most serious severity among the facts; `Warning` where there are
    /// none.
    pub fn get_max_information_type(&self) -> (r: DeviceInformationType)
        ensures
            r == self@.max_information_type(),
    {
        match max_information_type(&self.info_items) {
            Some(m) => m,
            None => DeviceInformationType::Warning,
        }
    }

    /// The status of the job at the time `now`.
    pub fn get_status(&self, now: i64) -> (r: JobStatus)
        ensures
            r == self@.status(now),
    {
        let n = self.state_history.len();
        if n == 0 {
            return JobStatus::Idle;
        }
        let stage = &self.state_history[n - 1].1;
        let entered = self.state_history[n - 1].0;
        if *stage == String::from_str("Init") || *stage == String::from_str("SwitchDetect") {
            JobStatus::Idle
        } else if *stage == String::from_str("JobFinished") {
            match max_information_type(&self.info_items) {
                None => JobStatus::Idle,
                Some(DeviceInformationType::Info) => JobStatus::FinishSuccess,
                Some(DeviceInformationType::Warning) => JobStatus::FinishWarning,
                Some(DeviceInformationType::Error) => JobStatus::FinishError,
            }
        } else if is_stale(entered, now) {
            JobStatus::RunningLong
        } else {
            JobStatus::Busy
        }
    }
}

/// Whether a state entered at `entered` is stale at `now`.
pub fn is_stale(entered: i64, now: i64) -> (b: bool)
    ensures
        b == (entered + STALE_AFTER_MS < now),
{
    match entered.checked_add(STALE_AFTER_MS) {
        Some(limit) => limit < now,
        None => false,
    }
}

} // verus!
