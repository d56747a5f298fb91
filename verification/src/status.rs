//! Status of a job on one port, and the commands a job accepts.

use crate::devinfo::{DeviceFact, DeviceInformation, DeviceInformationType};
use crate::job::{JobData, JobDataView};
use vstd::prelude::*;
use vstd::string::*;

verus! {

/// What a port is doing, as shown to an operator.
#[derive(Copy, Clone, Debug, PartialEq, Eq, PartialOrd, Ord, Structural)]
pub enum PortJobStatus {
    /// Initial state
    Idle,
    /// Waiting for new switch; previous success
    FinishSuccess,
    /// Waiting for new switch; previous warning
    FinishWarning,
    /// Waiting for new switch; previous error
    FinishError,
    /// Working on a switch.
    Busy,
    /// This job is taking too long.
    RunningLong,
    /// The job loop has stopped on a fatal error.
    Fatal,
}

impl Default for PortJobStatus {
    fn default() -> (r: Self)
        ensures
            r == PortJobStatus::Idle,
    {
        PortJobStatus::Idle
    }
}

impl PortJobStatus {
    /// The status is one in which the port waits for a device.
    pub open spec fn idle(self) -> bool {
        self == PortJobStatus::Idle || self.finished()
    }

    /// The status is one that ends a job.
    pub open spec fn finished(self) -> bool {
        self == PortJobStatus::FinishSuccess || self == PortJobStatus::FinishWarning || self
            == PortJobStatus::FinishError
    }

    /// The status with which a job ends whose most serious fact has the given
    /// severity; `Idle` where nothing was recorded.
    pub open spec fn at_finish(max: Option<DeviceInformationType>) -> PortJobStatus {
        match max {
            Some(DeviceInformationType::Info) => PortJobStatus::FinishSuccess,
            Some(DeviceInformationType::Warning) => PortJobStatus::FinishWarning,
            Some(DeviceInformationType::Error) => PortJobStatus::FinishError,
            None => PortJobStatus::Idle,
        }
    }

    /// The sign that stands for the status where space is short.
    pub open spec fn sign(self) -> Seq<char> {
        match self {
            PortJobStatus::Idle => "😴"@,
            PortJobStatus::FinishSuccess => "✅"@,
            PortJobStatus::FinishWarning => "⚠️"@,
            PortJobStatus::FinishError => "❗"@,
            PortJobStatus::Busy => "⏳"@,
            PortJobStatus::RunningLong => "⏰"@,
            PortJobStatus::Fatal => "😵"@,
        }
    }

    /// The colour that stands for the status on a dashboard.
    pub open spec fn css_color(self) -> Seq<char> {
        match self {
            PortJobStatus::Idle => "#ffffff"@,
            PortJobStatus::FinishSuccess => "#00ff00"@,
            PortJobStatus::FinishWarning => "#ff9933"@,
            PortJobStatus::FinishError => "#ff0000"@,
            PortJobStatus::Busy => "#33bbff"@,
            PortJobStatus::RunningLong => "#bb33ff"@,
            PortJobStatus::Fatal => "#ff33dd"@,
        }
    }

    pub fn is_idle(&self) -> (b: bool)
        ensures
            b == self.idle(),
    {
        match self {
            PortJobStatus::Idle => true,
            PortJobStatus::FinishSuccess => true,
            PortJobStatus::FinishWarning => true,
            PortJobStatus::FinishError => true,
            _ => false,
        }
    }

    pub fn is_finished(&self) -> (b: bool)
        ensures
            b == self.finished(),
    {
        match self {
            PortJobStatus::FinishSuccess => true,
            PortJobStatus::FinishWarning => true,
            PortJobStatus::FinishError => true,
            _ => false,
        }
    }

    /// The status with which a job ends, from its most serious fact.
    pub fn from_max_severity(max: Option<DeviceInformationType>) -> (s: PortJobStatus)
        ensures
            s == PortJobStatus::at_finish(max),
    {
        match max {
            Some(DeviceInformationType::Info) => PortJobStatus::FinishSuccess,
            Some(DeviceInformationType::Warning) => PortJobStatus::FinishWarning,
            Some(DeviceInformationType::Error) => PortJobStatus::FinishError,
            None => PortJobStatus::Idle,
        }
    }

    /// The sign that stands for the status where space is short.
    pub fn symbol(&self) -> (c: String)
        ensures
            c@ == self.sign(),
    {
        match self {
            PortJobStatus::Idle => String::from_str("😴"),
            PortJobStatus::FinishSuccess => String::from_str("✅"),
            PortJobStatus::FinishWarning => String::from_str("⚠️"),
            PortJobStatus::FinishError => String::from_str("❗"),
            PortJobStatus::Busy => String::from_str("⏳"),
            PortJobStatus::RunningLong => String::from_str("⏰"),
            PortJobStatus::Fatal => String::from_str("😵"),
        }
    }

    pub fn get_css_backgroundcolor(&self) -> (c: String)
        ensures
            c@ == self.css_color(),
    {
        match self {
            PortJobStatus::Idle => String::from_str("#ffffff"),
            PortJobStatus::FinishSuccess => String::from_str("#00ff00"),
            PortJobStatus::FinishWarning => String::from_str("#ff9933"),
            PortJobStatus::FinishError => String::from_str("#ff0000"),
            PortJobStatus::Busy => String::from_str("#33bbff"),
            PortJobStatus::RunningLong => String::from_str("#bb33ff"),
            PortJobStatus::Fatal => String::from_str("#ff33dd"),
        }
    }
}

/// The status of a port, with the outcomes of a finished job named as kinds
/// of idleness.
#[derive(Copy, Clone, Debug, PartialEq, Eq, PartialOrd, Ord, Structural)]
pub enum PortStatus {
    /// Initial state
    Idle,
    /// Waiting for new switch; previous success
    IdleSuccess,
    /// Waiting for new switch; previous warning
    IdleWarning,
    /// Waiting for new switch; previous error
    IdleError,
    /// Working on a switch.
    Busy,
    /// This job is taking too long.
    RunningLong,
    /// This thread has crashed.
    Fatal,
}

impl Default for PortStatus {
    fn default() -> (r: Self)
        ensures
            r == PortStatus::Idle,
    {
        PortStatus::Idle
    }
}

impl PortStatus {
    /// The same status under the name that `PortJobStatus` gives it.
    pub open spec fn as_job_status(self) -> PortJobStatus {
        match self {
            PortStatus::Idle => PortJobStatus::Idle,
            PortStatus::IdleSuccess => PortJobStatus::FinishSuccess,
            PortStatus::IdleWarning => PortJobStatus::FinishWarning,
            PortStatus::IdleError => PortJobStatus::FinishError,
            PortStatus::Busy => PortJobStatus::Busy,
            PortStatus::RunningLong => PortJobStatus::RunningLong,
            PortStatus::Fatal => PortJobStatus::Fatal,
        }
    }

    pub fn is_idle(&self) -> (b: bool)
        ensures
            b == self.as_job_status().idle(),
    {
        match self {
            PortStatus::Idle => true,
            PortStatus::IdleSuccess => true,
            PortStatus::IdleWarning => true,
            PortStatus::IdleError => true,
            _ => false,
        }
    }

    pub fn get_css_backgroundcolor(&self) -> (c: String)
        ensures
            c@ == self.as_job_status().css_color(),
    {
        match self {
            PortStatus::Idle => String::from_str("#ffffff"),
            PortStatus::IdleSuccess => String::from_str("#00ff00"),
            PortStatus::IdleWarning => String::from_str("#ff9933"),
            PortStatus::IdleError => String::from_str("#ff0000"),
            PortStatus::Busy => String::from_str("#33bbff"),
            PortStatus::RunningLong => String::from_str("#bb33ff"),
            PortStatus::Fatal => String::from_str("#ff33dd"),
        }
    }

    /// The sign that stands for the status where space is short.
    pub fn symbol(&self) -> (c: String)
        ensures
            c@ == self.as_job_status().sign(),
    {
        self.to_job_status().symbol()
    }

    /// The same status under the name that `PortJobStatus` gives it.
    pub fn to_job_status(&self) -> (s: PortJobStatus)
        ensures
            s == self.as_job_status(),
    {
        match self {
            PortStatus::Idle => PortJobStatus::Idle,
            PortStatus::IdleSuccess => PortJobStatus::FinishSuccess,
            PortStatus::IdleWarning => PortJobStatus::FinishWarning,
            PortStatus::IdleError => PortJobStatus::FinishError,
            PortStatus::Busy => PortJobStatus::Busy,
            PortStatus::RunningLong => PortJobStatus::RunningLong,
            PortStatus::Fatal => PortJobStatus::Fatal,
        }
    }
}

/// News of a job, as sent to whoever watches it.
#[derive(Debug, PartialEq)]
pub enum JobUpdate {
    /// The job went from the first state to the second.
    JobStageTransition(String, String),
    /// The status of the port changed.
    JobStatusUpdate(PortJobStatus),
    /// A job started at this time, in milliseconds since the epoch.
    JobStart(i64),
    /// The job ended at this time, in milliseconds since the epoch.
    JobEnd(i64),
    /// A fact about the device was recorded.
    JobNewInfoItem(DeviceInformation),
    /// All that is known of the job.
    JobFullData(JobData),
}

/// The mathematical value of a `JobUpdate`.
pub enum JobUpdateView {
    JobStageTransition(Seq<char>, Seq<char>),
    JobStatusUpdate(PortJobStatus),
    JobStart(i64),
    JobEnd(i64),
    JobNewInfoItem(DeviceFact),
    JobFullData(JobDataView),
}

impl View for JobUpdate {
    type V = JobUpdateView;

    open spec fn view(&self) -> JobUpdateView {
        match self {
            JobUpdate::JobStageTransition(old, new) => JobUpdateView::JobStageTransition(
                old@,
                new@,
            ),
            JobUpdate::JobStatusUpdate(s) => JobUpdateView::JobStatusUpdate(*s),
            JobUpdate::JobStart(at) => JobUpdateView::JobStart(*at),
            JobUpdate::JobEnd(at) => JobUpdateView::JobEnd(*at),
            JobUpdate::JobNewInfoItem(i) => JobUpdateView::JobNewInfoItem(i@),
            JobUpdate::JobFullData(d) => JobUpdateView::JobFullData(d@),
        }
    }
}

impl Clone for JobUpdate {
    fn clone(&self) -> (r: Self)
        ensures
            r@ == self@,
    {
        match self {
            JobUpdate::JobStageTransition(old, new) => JobUpdate::JobStageTransition(
                old.clone(),
                new.clone(),
            ),
            JobUpdate::JobStatusUpdate(s) => JobUpdate::JobStatusUpdate(*s),
            JobUpdate::JobStart(at) => JobUpdate::JobStart(*at),
            JobUpdate::JobEnd(at) => JobUpdate::JobEnd(*at),
            JobUpdate::JobNewInfoItem(i) => JobUpdate::JobNewInfoItem(i.clone()),
            JobUpdate::JobFullData(d) => JobUpdate::JobFullData(d.clone()),
        }
    }
}

/// A command sent to a running job from outside.
#[derive(Copy, Clone, Debug, PartialEq, Eq, Structural)]
pub enum JobCommand {
    /// Abort the job and start over.
    ResetJob,
}

/// A command sent to a port worker from outside.
#[derive(Copy, Clone, Debug, PartialEq, Eq, Structural)]
pub enum PortCommand {
    /// Abort the job and start over.
    ResetJob,
}

} // verus!
