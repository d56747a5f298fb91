//! Facts recorded about a device during a job, and their severity.
//!
//! A fact is modelled by its kind and the text it carries (empty for a flag).
//! A job keeps every fact that it records, once, in the order of recording.
//! Those who watch the jobs keep one fact of each kind: a later report of a
//! kind takes the place of an earlier one.

use vstd::prelude::*;
use vstd::string::*;

verus! {

/// How serious a recorded fact is. `Info < Warning < Error`.
#[derive(Copy, Clone, Debug, PartialEq, Eq, PartialOrd, Ord, Hash, Structural)]
pub enum DeviceInformationType {
    Info,
    Warning,
    Error,
}

impl DeviceInformationType {
    /// Position of the severity in the order `Info < Warning < Error`.
    pub open spec fn rank(self) -> nat {
        match self {
            DeviceInformationType::Info => 0,
            DeviceInformationType::Warning => 1,
            DeviceInformationType::Error => 2,
        }
    }

    /// The more serious of two severities.
    pub open spec fn join(self, other: DeviceInformationType) -> DeviceInformationType {
        if self.rank() >= other.rank() {
            self
        } else {
            other
        }
    }

    /// The more serious of two severities.
    pub fn max_of(self, other: DeviceInformationType) -> (r: DeviceInformationType)
        ensures
            r == self.join(other),
    {
        match (self, other) {
            (DeviceInformationType::Error, _) => DeviceInformationType::Error,
            (DeviceInformationType::Warning, DeviceInformationType::Error) => {
                DeviceInformationType::Error
            },
            (DeviceInformationType::Warning, _) => DeviceInformationType::Warning,
            (DeviceInformationType::Info, o) => o,
        }
    }
}

/// Which fact a `DeviceInformation` states, without the text it carries.
#[derive(Copy, Clone, Debug, PartialEq, Eq, Hash, Structural)]
pub enum DeviceInformationKind {
    SerialNumber,
    SoftwareVersion,
    Model,
    Vendor,
    AttemptedToFixFilesystemIssues,
    FailedToEnterSingleUserMode,
    ReadonlyFlash,
    SCSIErrors,
    KeptHostname,
    Aborted,
    BootLoop,
    UnableToLoadAKernel,
    AlternateImage,
    StrangeCLIPrompt,
    BootloaderVersion,
    MacAddress,
}

impl DeviceInformationKind {
    /// The severity that a fact of this kind carries.
    pub open spec fn severity(self) -> DeviceInformationType {
        match self {
            DeviceInformationKind::SerialNumber => DeviceInformationType::Info,
            DeviceInformationKind::SoftwareVersion => DeviceInformationType::Info,
            DeviceInformationKind::Model => DeviceInformationType::Info,
            DeviceInformationKind::Vendor => DeviceInformationType::Info,
            DeviceInformationKind::BootloaderVersion => DeviceInformationType::Info,
            DeviceInformationKind::MacAddress => DeviceInformationType::Info,
            DeviceInformationKind::AttemptedToFixFilesystemIssues => DeviceInformationType::Warning,
            DeviceInformationKind::KeptHostname => DeviceInformationType::Warning,
            DeviceInformationKind::BootLoop => DeviceInformationType::Warning,
            DeviceInformationKind::UnableToLoadAKernel => DeviceInformationType::Warning,
            DeviceInformationKind::AlternateImage => DeviceInformationType::Warning,
            DeviceInformationKind::StrangeCLIPrompt => DeviceInformationType::Warning,
            DeviceInformationKind::ReadonlyFlash => DeviceInformationType::Error,
            DeviceInformationKind::SCSIErrors => DeviceInformationType::Error,
            DeviceInformationKind::Aborted => DeviceInformationType::Error,
            DeviceInformationKind::FailedToEnterSingleUserMode => DeviceInformationType::Error,
        }
    }

    /// Whether a fact of this kind carries text.
    pub open spec fn has_text(self) -> bool {
        match self {
            DeviceInformationKind::SerialNumber => true,
            DeviceInformationKind::SoftwareVersion => true,
            DeviceInformationKind::Model => true,
            DeviceInformationKind::Vendor => true,
            DeviceInformationKind::BootloaderVersion => true,
            DeviceInformationKind::MacAddress => true,
            _ => false,
        }
    }
}

/// One fact about a device.
#[derive(Debug, PartialEq, Eq, PartialOrd, Ord, Hash)]
pub enum DeviceInformation {
    SerialNumber(String),
    SoftwareVersion(String),
    Model(String),
    Vendor(String),
    AttemptedToFixFilesystemIssues,
    FailedToEnterSingleUserMode,
    ReadonlyFlash,
    SCSIErrors,
    KeptHostname,
    Aborted,
    BootLoop,
    UnableToLoadAKernel,
    AlternateImage,
    StrangeCLIPrompt,
    BootloaderVersion(String),
    MacAddress(String),
}

/// The mathematical value of a `DeviceInformation`.
pub struct DeviceFact {
    pub kind: DeviceInformationKind,
    /// The text carried; empty for a flag.
    pub text: Seq<char>,
}

impl DeviceFact {
    /// The severity of the fact.
    pub open spec fn severity(self) -> DeviceInformationType {
        self.kind.severity()
    }
}

impl View for DeviceInformation {
    type V = DeviceFact;

    open spec fn view(&self) -> DeviceFact {
        match self {
            DeviceInformation::SerialNumber(s) => DeviceFact {
                kind: DeviceInformationKind::SerialNumber,
                text: s@,
            },
            DeviceInformation::SoftwareVersion(s) => DeviceFact {
                kind: DeviceInformationKind::SoftwareVersion,
                text: s@,
            },
            DeviceInformation::Model(s) => DeviceFact {
                kind: DeviceInformationKind::Model,
                text: s@,
            },
            DeviceInformation::Vendor(s) => DeviceFact {
                kind: DeviceInformationKind::Vendor,
                text: s@,
            },
            DeviceInformation::BootloaderVersion(s) => DeviceFact {
                kind: DeviceInformationKind::BootloaderVersion,
                text: s@,
            },
            DeviceInformation::MacAddress(s) => DeviceFact {
                kind: DeviceInformationKind::MacAddress,
                text: s@,
            },
            DeviceInformation::AttemptedToFixFilesystemIssues => DeviceFact {
                kind: DeviceInformationKind::AttemptedToFixFilesystemIssues,
                text: Seq::empty(),
            },
            DeviceInformation::FailedToEnterSingleUserMode => DeviceFact {
                kind: DeviceInformationKind::FailedToEnterSingleUserMode,
                text: Seq::empty(),
            },
            DeviceInformation::ReadonlyFlash => DeviceFact {
                kind: DeviceInformationKind::ReadonlyFlash,
                text: Seq::empty(),
            },
            DeviceInformation::SCSIErrors => DeviceFact {
                kind: DeviceInformationKind::SCSIErrors,
                text: Seq::empty(),
            },
            DeviceInformation::KeptHostname => DeviceFact {
                kind: DeviceInformationKind::KeptHostname,
                text: Seq::empty(),
            },
            DeviceInformation::Aborted => DeviceFact {
                kind: DeviceInformationKind::Aborted,
                text: Seq::empty(),
            },
            DeviceInformation::BootLoop => DeviceFact {
                kind: DeviceInformationKind::BootLoop,
                text: Seq::empty(),
            },
            DeviceInformation::UnableToLoadAKernel => DeviceFact {
                kind: DeviceInformationKind::UnableToLoadAKernel,
                text: Seq::empty(),
            },
            DeviceInformation::AlternateImage => DeviceFact {
                kind: DeviceInformationKind::AlternateImage,
                text: Seq::empty(),
            },
            DeviceInformation::StrangeCLIPrompt => DeviceFact {
                kind: DeviceInformationKind::StrangeCLIPrompt,
                text: Seq::empty(),
            },
        }
    }
}

impl Clone for DeviceInformation {
    fn clone(&self) -> (r: Self)
        ensures
            r@ == self@,
    {
        match self {
            DeviceInformation::SerialNumber(s) => DeviceInformation::SerialNumber(s.clone()),
            DeviceInformation::SoftwareVersion(s) => DeviceInformation::SoftwareVersion(s.clone()),
            DeviceInformation::Model(s) => DeviceInformation::Model(s.clone()),
            DeviceInformation::Vendor(s) => DeviceInformation::Vendor(s.clone()),
            DeviceInformation::BootloaderVersion(s) => DeviceInformation::BootloaderVersion(
                s.clone(),
            ),
            DeviceInformation::MacAddress(s) => DeviceInformation::MacAddress(s.clone()),
            DeviceInformation::AttemptedToFixFilesystemIssues => {
                DeviceInformation::AttemptedToFixFilesystemIssues
            },
            DeviceInformation::FailedToEnterSingleUserMode => {
                DeviceInformation::FailedToEnterSingleUserMode
            },
            DeviceInformation::ReadonlyFlash => DeviceInformation::ReadonlyFlash,
            DeviceInformation::SCSIErrors => DeviceInformation::SCSIErrors,
            DeviceInformation::KeptHostname => DeviceInformation::KeptHostname,
            DeviceInformation::Aborted => DeviceInformation::Aborted,
            DeviceInformation::BootLoop => DeviceInformation::BootLoop,
            DeviceInformation::UnableToLoadAKernel => DeviceInformation::UnableToLoadAKernel,
            DeviceInformation::AlternateImage => DeviceInformation::AlternateImage,
            DeviceInformation::StrangeCLIPrompt => DeviceInformation::StrangeCLIPrompt,
        }
    }
}

/// The kind that goes by the name `name`, if one does.
pub open spec fn kind_named(name: Seq<char>) -> Option<DeviceInformationKind> {
    if name == "SerialNumber"@ {
        Some(DeviceInformationKind::SerialNumber)
    } else if name == "SoftwareVersion"@ {
        Some(DeviceInformationKind::SoftwareVersion)
    } else if name == "Model"@ {
        Some(DeviceInformationKind::Model)
    } else if name == "Vendor"@ {
        Some(DeviceInformationKind::Vendor)
    } else if name == "AttemptedToFixFilesystemIssues"@ {
        Some(DeviceInformationKind::AttemptedToFixFilesystemIssues)
    } else if name == "FailedToEnterSingleUserMode"@ {
        Some(DeviceInformationKind::FailedToEnterSingleUserMode)
    } else if name == "ReadonlyFlash"@ {
        Some(DeviceInformationKind::ReadonlyFlash)
    } else if name == "SCSIErrors"@ {
        Some(DeviceInformationKind::SCSIErrors)
    } else if name == "KeptHostname"@ {
        Some(DeviceInformationKind::KeptHostname)
    } else if name == "Aborted"@ {
        Some(DeviceInformationKind::Aborted)
    } else if name == "BootLoop"@ {
        Some(DeviceInformationKind::BootLoop)
    } else if name == "UnableToLoadAKernel"@ {
        Some(DeviceInformationKind::UnableToLoadAKernel)
    } else if name == "AlternateImage"@ {
        Some(DeviceInformationKind::AlternateImage)
    } else if name == "StrangeCLIPrompt"@ {
        Some(DeviceInformationKind::StrangeCLIPrompt)
    } else if name == "BootloaderVersion"@ {
        Some(DeviceInformationKind::BootloaderVersion)
    } else if name == "MacAddress"@ {
        Some(DeviceInformationKind::MacAddress)
    } else {
        None
    }
}

impl DeviceFact {
    /// The fact of the kind `kind` with the text `text`; a flag carries none.
    pub open spec fn of(kind: DeviceInformationKind, text: Seq<char>) -> DeviceFact {
        DeviceFact {
            kind,
            text: if kind.has_text() {
                text
            } else {
                Seq::empty()
            },
        }
    }
}

impl DeviceInformationKind {
    /// The kind that goes by the name `name`, if one does.
    pub fn from_name(name: &String) -> (r: Option<DeviceInformationKind>)
        ensures
            r == kind_named(name@),
    {
        if *name == String::from_str("SerialNumber") {
            Some(DeviceInformationKind::SerialNumber)
        } else if *name == String::from_str("SoftwareVersion") {
            Some(DeviceInformationKind::SoftwareVersion)
        } else if *name == String::from_str("Model") {
            Some(DeviceInformationKind::Model)
        } else if *name == String::from_str("Vendor") {
            Some(DeviceInformationKind::Vendor)
        } else if *name == String::from_str("AttemptedToFixFilesystemIssues") {
            Some(DeviceInformationKind::AttemptedToFixFilesystemIssues)
        } else if *name == String::from_str("FailedToEnterSingleUserMode") {
            Some(DeviceInformationKind::FailedToEnterSingleUserMode)
        } else if *name == String::from_str("ReadonlyFlash") {
            Some(DeviceInformationKind::ReadonlyFlash)
        } else if *name == String::from_str("SCSIErrors") {
            Some(DeviceInformationKind::SCSIErrors)
        } else if *name == String::from_str("KeptHostname") {
            Some(DeviceInformationKind::KeptHostname)
        } else if *name == String::from_str("Aborted") {
            Some(DeviceInformationKind::Aborted)
        } else if *name == String::from_str("BootLoop") {
            Some(DeviceInformationKind::BootLoop)
        } else if *name == String::from_str("UnableToLoadAKernel") {
            Some(DeviceInformationKind::UnableToLoadAKernel)
        } else if *name == String::from_str("AlternateImage") {
            Some(DeviceInformationKind::AlternateImage)
        } else if *name == String::from_str("StrangeCLIPrompt") {
            Some(DeviceInformationKind::StrangeCLIPrompt)
        } else if *name == String::from_str("BootloaderVersion") {
            Some(DeviceInformationKind::BootloaderVersion)
        } else if *name == String::from_str("MacAddress") {
            Some(DeviceInformationKind::MacAddress)
        } else {
            None
        }
    }

    /// Whether a fact of this kind carries text.
    pub fn carries_text(&self) -> (b: bool)
        ensures
            b == self.has_text(),
    {
        match self {
            DeviceInformationKind::SerialNumber => true,
            DeviceInformationKind::SoftwareVersion => true,
            DeviceInformationKind::Model => true,
            DeviceInformationKind::Vendor => true,
            DeviceInformationKind::BootloaderVersion => true,
            DeviceInformationKind::MacAddress => true,
            _ => false,
        }
    }
}

impl DeviceInformation {
    /// The fact of the kind `kind` with the text `text`; a flag carries none.
    pub fn from_kind(kind: DeviceInformationKind, text: String) -> (r: DeviceInformation)
        ensures
            r@ == DeviceFact::of(kind, text@),
    {
        match kind {
            DeviceInformationKind::SerialNumber => DeviceInformation::SerialNumber(text),
            DeviceInformationKind::SoftwareVersion => DeviceInformation::SoftwareVersion(text),
            DeviceInformationKind::Model => DeviceInformation::Model(text),
            DeviceInformationKind::Vendor => DeviceInformation::Vendor(text),
            DeviceInformationKind::BootloaderVersion => DeviceInformation::BootloaderVersion(text),
            DeviceInformationKind::MacAddress => DeviceInformation::MacAddress(text),
            DeviceInformationKind::AttemptedToFixFilesystemIssues => {
                DeviceInformation::AttemptedToFixFilesystemIssues
            },
            DeviceInformationKind::FailedToEnterSingleUserMode => {
                DeviceInformation::FailedToEnterSingleUserMode
            },
            DeviceInformationKind::ReadonlyFlash => DeviceInformation::ReadonlyFlash,
            DeviceInformationKind::SCSIErrors => DeviceInformation::SCSIErrors,
            DeviceInformationKind::KeptHostname => DeviceInformation::KeptHostname,
            DeviceInformationKind::Aborted => DeviceInformation::Aborted,
            DeviceInformationKind::BootLoop => DeviceInformation::BootLoop,
            DeviceInformationKind::UnableToLoadAKernel => DeviceInformation::UnableToLoadAKernel,
            DeviceInformationKind::AlternateImage => DeviceInformation::AlternateImage,
            DeviceInformationKind::StrangeCLIPrompt => DeviceInformation::StrangeCLIPrompt,
        }
    }

    /// Which fact this is.
    pub fn kind(&self) -> (k: DeviceInformationKind)
        ensures
            k == self@.kind,
    {
        match self {
            DeviceInformation::SerialNumber(_) => DeviceInformationKind::SerialNumber,
            DeviceInformation::SoftwareVersion(_) => DeviceInformationKind::SoftwareVersion,
            DeviceInformation::Model(_) => DeviceInformationKind::Model,
            DeviceInformation::Vendor(_) => DeviceInformationKind::Vendor,
            DeviceInformation::BootloaderVersion(_) => DeviceInformationKind::BootloaderVersion,
            DeviceInformation::MacAddress(_) => DeviceInformationKind::MacAddress,
            DeviceInformation::AttemptedToFixFilesystemIssues => {
                DeviceInformationKind::AttemptedToFixFilesystemIssues
            },
            DeviceInformation::FailedToEnterSingleUserMode => {
                DeviceInformationKind::FailedToEnterSingleUserMode
            },
            DeviceInformation::ReadonlyFlash => DeviceInformationKind::ReadonlyFlash,
            DeviceInformation::SCSIErrors => DeviceInformationKind::SCSIErrors,
            DeviceInformation::KeptHostname => DeviceInformationKind::KeptHostname,
            DeviceInformation::Aborted => DeviceInformationKind::Aborted,
            DeviceInformation::BootLoop => DeviceInformationKind::BootLoop,
            DeviceInformation::UnableToLoadAKernel => DeviceInformationKind::UnableToLoadAKernel,
            DeviceInformation::AlternateImage => DeviceInformationKind::AlternateImage,
            DeviceInformation::StrangeCLIPrompt => DeviceInformationKind::StrangeCLIPrompt,
        }
    }

    /// The severity of the fact.
    pub fn get_type(&self) -> (t: DeviceInformationType)
        ensures
            t == self@.severity(),
    {
        match self {
            DeviceInformation::SerialNumber(_) => DeviceInformationType::Info,
            DeviceInformation::SoftwareVersion(_) => DeviceInformationType::Info,
            DeviceInformation::Model(_) => DeviceInformationType::Info,
            DeviceInformation::Vendor(_) => DeviceInformationType::Info,
            DeviceInformation::BootloaderVersion(_) => DeviceInformationType::Info,
            DeviceInformation::MacAddress(_) => DeviceInformationType::Info,
            DeviceInformation::AttemptedToFixFilesystemIssues => DeviceInformationType::Warning,
            DeviceInformation::ReadonlyFlash => DeviceInformationType::Error,
            DeviceInformation::SCSIErrors => DeviceInformationType::Error,
            DeviceInformation::KeptHostname => DeviceInformationType::Warning,
            DeviceInformation::Aborted => DeviceInformationType::Error,
            DeviceInformation::BootLoop => DeviceInformationType::Warning,
            DeviceInformation::FailedToEnterSingleUserMode => DeviceInformationType::Error,
            DeviceInformation::UnableToLoadAKernel => DeviceInformationType::Warning,
            DeviceInformation::AlternateImage => DeviceInformationType::Warning,
            DeviceInformation::StrangeCLIPrompt => DeviceInformationType::Warning,
        }
    }

    /// Whether two facts are of the same kind, whatever text they carry.
    pub fn same_kind(&self, other: &DeviceInformation) -> (b: bool)
        ensures
            b == (self@.kind == other@.kind),
    {
        self.kind() == other.kind()
    }

    /// Whether two facts are the same: same kind and same text.
    pub fn same_as(&self, other: &DeviceInformation) -> (b: bool)
        ensures
            b == (self@ == other@),
    {
        match (self, other) {
            (DeviceInformation::SerialNumber(a), DeviceInformation::SerialNumber(b)) => *a == *b,
            (DeviceInformation::SoftwareVersion(a), DeviceInformation::SoftwareVersion(b)) => {
                *a == *b
            },
            (DeviceInformation::Model(a), DeviceInformation::Model(b)) => *a == *b,
            (DeviceInformation::Vendor(a), DeviceInformation::Vendor(b)) => *a == *b,
            (DeviceInformation::BootloaderVersion(a), DeviceInformation::BootloaderVersion(b)) => {
                *a == *b
            },
            (DeviceInformation::MacAddress(a), DeviceInformation::MacAddress(b)) => *a == *b,
            _ => self.kind() == other.kind(),
        }
    }
}

/// The most serious severity among the facts, or `None` where there are none.
pub open spec fn max_severity(facts: Seq<DeviceFact>) -> Option<DeviceInformationType>
    decreases facts.len(),
{
    if facts.len() == 0 {
        None
    } else {
        match max_severity(facts.drop_last()) {
            None => Some(facts.last().severity()),
            Some(m) => Some(m.join(facts.last().severity())),
        }
    }
}

/// The facts of a list, as mathematical values.
pub open spec fn facts_of(items: Seq<DeviceInformation>) -> Seq<DeviceFact> {
    Seq::new(items.len(), |i: int| items[i]@)
}

/// No fact stands twice in the sequence.
pub open spec fn facts_distinct(facts: Seq<DeviceFact>) -> bool {
    forall|i: int, j: int| 0 <= i < j < facts.len() ==> facts[i] != facts[j]
}

/// No two facts of the sequence are of the same kind.
pub open spec fn kinds_distinct(facts: Seq<DeviceFact>) -> bool {
    forall|i: int, j: int| 0 <= i < j < facts.len() ==> facts[i].kind != facts[j].kind
}

/// The most serious severity among `items`, or `None` where there are none.
pub fn max_information_type(items: &Vec<DeviceInformation>) -> (r: Option<DeviceInformationType>)
    ensures
        r == max_severity(facts_of(items@)),
{
    let mut best: Option<DeviceInformationType> = None;
    let mut i: usize = 0;
    while i < items.len()
        invariant
            i <= items.len(),
            best == max_severity(facts_of(items@).take(i as int)),
        decreases items.len() - i,
    {
        let t = items[i].get_type();
        proof {
            let all = facts_of(items@);
            assert(all.take(i as int + 1).drop_last() =~= all.take(i as int));
            assert(all.take(i as int + 1).last() == items@[i as int]@);
        }
        best = match best {
            None => Some(t),
            Some(m) => Some(m.max_of(t)),
        };
        i += 1;
    }
    proof {
        assert(facts_of(items@).take(items.len() as int) =~= facts_of(items@));
    }
    best
}

/// The maximum is the severity of one of the facts, and no fact is more
/// serious; there is none exactly when there are no facts.
pub proof fn lemma_max_severity(facts: Seq<DeviceFact>)
    ensures
        facts.len() == 0 <==> max_severity(facts) is None,
        max_severity(facts) matches Some(m) ==> {
            &&& exists|i: int| 0 <= i < facts.len() && facts[i].severity() == m
            &&& forall|i: int| 0 <= i < facts.len() ==> facts[i].severity().rank() <= m.rank()
        },
    decreases facts.len(),
{
    if facts.len() > 0 {
        let front = facts.drop_last();
        lemma_max_severity(front);
        let m = max_severity(facts).unwrap();
        match max_severity(front) {
            None => {
                assert(facts[facts.len() - 1].severity() == m);
            },
            Some(p) => {
                if p.rank() >= facts.last().severity().rank() {
                    let i = choose|i: int| 0 <= i < front.len() && front[i].severity() == p;
                    assert(facts[i].severity() == m);
                } else {
                    assert(facts[facts.len() - 1].severity() == m);
                }
                assert forall|i: int| 0 <= i < facts.len() implies facts[i].severity().rank()
                    <= m.rank() by {
                    if i < front.len() {
                        assert(front[i] == facts[i]);
                    }
                }
            },
        }
    }
}

} // verus!
