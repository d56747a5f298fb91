//! What those who watch the jobs derive from the news they get: the picture
//! of a port on a dashboard, the colour of its lamp, the entry in a journal.

use crate::devinfo::{
    facts_of, DeviceFact, DeviceInformation, DeviceInformationKind, DeviceInformationType,
};
use crate::job::{clone_facts, is_stale, JobStatus, STALE_AFTER_MS};
use crate::status::{JobUpdate, JobUpdateView, PortJobStatus};
use vstd::prelude::*;
use vstd::string::*;

verus! {

/// The kind of an entry in the journal of a device.
#[derive(Copy, Clone, Debug, PartialEq, Eq, PartialOrd, Ord, Hash, Structural)]
pub enum NetboxJournalEntryKind {
    Info,
    Success,
    Warning,
    Danger,
}

impl NetboxJournalEntryKind {
    /// The kind of the entry that reports a job whose most serious fact has
    /// the given severity.
    pub open spec fn reporting(severity: DeviceInformationType) -> NetboxJournalEntryKind {
        match severity {
            DeviceInformationType::Info => NetboxJournalEntryKind::Success,
            DeviceInformationType::Warning => NetboxJournalEntryKind::Warning,
            DeviceInformationType::Error => NetboxJournalEntryKind::Danger,
        }
    }

    /// The kind of the entry that reports a job whose most serious fact has
    /// the given severity.
    pub fn for_severity(severity: DeviceInformationType) -> (k: NetboxJournalEntryKind)
        ensures
            k == NetboxJournalEntryKind::reporting(severity),
    {
        match severity {
            DeviceInformationType::Info => NetboxJournalEntryKind::Success,
            DeviceInformationType::Warning => NetboxJournalEntryKind::Warning,
            DeviceInformationType::Error => NetboxJournalEntryKind::Danger,
        }
    }
}

/// The text of the first fact of the kind `kind`, if there is one.
pub open spec fn first_of_kind(facts: Seq<DeviceFact>, kind: DeviceInformationKind) -> Option<
    Seq<char>,
>
    decreases facts.len(),
{
    if facts.len() == 0 {
        None
    } else if facts[0].kind == kind {
        Some(facts[0].text)
    } else {
        first_of_kind(facts.drop_first(), kind)
    }
}

/// The text of a fact; empty for a flag.
pub fn text_of(item: &DeviceInformation) -> (r: String)
    ensures
        r@ == item@.text,
{
    match item {
        DeviceInformation::SerialNumber(s) => s.clone(),
        DeviceInformation::SoftwareVersion(s) => s.clone(),
        DeviceInformation::Model(s) => s.clone(),
        DeviceInformation::Vendor(s) => s.clone(),
        DeviceInformation::BootloaderVersion(s) => s.clone(),
        DeviceInformation::MacAddress(s) => s.clone(),
        _ => String::new(),
    }
}

/// The text of the first fact of the kind `kind` among `items`: the serial
/// number of a device, its model, its vendor.
pub fn find_text(items: &Vec<DeviceInformation>, kind: DeviceInformationKind) -> (r: Option<String>)
    ensures
        match r {
            Some(s) => first_of_kind(facts_of(items@), kind) == Some(s@),
            None => first_of_kind(facts_of(items@), kind) is None,
        },
{
    let ghost all = facts_of(items@);
    let mut i: usize = 0;
    assert(all.skip(0) =~= all);
    while i < items.len()
        invariant
            i <= items.len(),
            all == facts_of(items@),
            first_of_kind(all, kind) == first_of_kind(all.skip(i as int), kind),
        decreases items.len() - i,
    {
        assert(all.skip(i as int).drop_first() =~= all.skip(i as int + 1));
        assert(all.skip(i as int)[0] == items@[i as int]@);
        if items[i].kind() == kind {
            return Some(text_of(&items[i]));
        }
        i += 1;
    }
    None
}

/// The text of the first fact of the kind `kind` among `items`, or `UNKN`.
pub fn find_text_or_unknown(items: &Vec<DeviceInformation>, kind: DeviceInformationKind) -> (r:
    String)
    ensures
        r@ == match first_of_kind(facts_of(items@), kind) {
            Some(s) => s,
            None => "UNKN"@,
        },
{
    match find_text(items, kind) {
        Some(s) => s,
        None => String::from_str("UNKN"),
    }
}

/// The colour of the lamp of a port: that of its status while a switch and
/// its module are plugged in, and one colour for all the rest.
pub open spec fn lamp(status: JobStatus, switch_present: Option<bool>, module_present: Option<bool>) -> (
    u8,
    u8,
    u8,
) {
    if switch_present == Some(true) && module_present == Some(true) {
        match status {
            JobStatus::Idle => (127u8, 127u8, 127u8),
            JobStatus::FinishSuccess => (0u8, 255u8, 0u8),
            JobStatus::FinishWarning => (0xffu8, 0x99u8, 0x33u8),
            JobStatus::FinishError => (255u8, 0u8, 0u8),
            JobStatus::Busy => (0u8, 0u8, 0xffu8),
            JobStatus::RunningLong => (0xbbu8, 0x33u8, 0xffu8),
            JobStatus::Fatal => (0xffu8, 0x33u8, 0xddu8),
        }
    } else {
        (0xc7u8, 0x15u8, 0x85u8)
    }
}

/// The colour of the lamp of a port.
pub fn led_color(status: JobStatus, switch_present: Option<bool>, module_present: Option<bool>) -> (c:
    (u8, u8, u8))
    ensures
        c == lamp(status, switch_present, module_present),
{
    let switch = match switch_present {
        Some(b) => b,
        None => false,
    };
    let module = match module_present {
        Some(b) => b,
        None => false,
    };
    if switch && module {
        match status {
            JobStatus::Idle => (127, 127, 127),
            JobStatus::FinishSuccess => (0, 255, 0),
            JobStatus::FinishWarning => (0xff, 0x99, 0x33),
            JobStatus::FinishError => (255, 0, 0),
            JobStatus::Busy => (0x0, 0x0, 0xff),
            JobStatus::RunningLong => (0xbb, 0x33, 0xff),
            JobStatus::Fatal => (0xff, 0x33, 0xdd),
        }
    } else {
        (0xc7, 0x15, 0x85)
    }
}

/// Whether news of the switch of a port calls for a new job: the switch was
/// known to be absent and is now present, and the module of the port is
/// plugged in.
pub fn presence_calls_for_reset(old: Option<bool>, now_present: bool, module_present: Option<bool>) -> (b:
    bool)
    ensures
        b == (old == Some(false) && now_present && module_present == Some(true)),
{
    match (old, module_present) {
        (Some(was), Some(true)) => now_present && !was,
        _ => false,
    }
}

/// What a dashboard holds of one port.
#[derive(Debug, PartialEq)]
pub struct PortManagerEntry {
    pub label: String,
    /// When news of the port last arrived, in milliseconds since the epoch.
    pub last_update: i64,
    /// When the job started, in milliseconds since the epoch.
    pub job_started: i64,
    /// The name of the state that the job is in.
    pub current_stage: String,
    pub status: PortJobStatus,
    pub info_items: Vec<DeviceInformation>,
    /// What the console has shown since the job started.
    pub log_buffer: Vec<u8>,
}

/// The mathematical value of a `PortManagerEntry`.
pub struct PortEntryView {
    pub label: Seq<char>,
    pub last_update: i64,
    pub job_started: i64,
    pub current_stage: Seq<char>,
    pub status: PortJobStatus,
    pub info_items: Seq<DeviceFact>,
    pub log_buffer: Seq<u8>,
}

impl View for PortManagerEntry {
    type V = PortEntryView;

    open spec fn view(&self) -> PortEntryView {
        PortEntryView {
            label: self.label@,
            last_update: self.last_update,
            job_started: self.job_started,
            current_stage: self.current_stage@,
            status: self.status,
            info_items: facts_of(self.info_items@),
            log_buffer: self.log_buffer@,
        }
    }
}

impl Clone for PortManagerEntry {
    fn clone(&self) -> (r: Self)
        ensures
            r@ == self@,
    {
        let mut log: Vec<u8> = Vec::new();
        let mut i: usize = 0;
        while i < self.log_buffer.len()
            invariant
                i <= self.log_buffer.len(),
                log@ == self.log_buffer@.take(i as int),
            decreases self.log_buffer.len() - i,
        {
            log.push(self.log_buffer[i]);
            assert(log@ =~= self.log_buffer@.take(i as int + 1));
            i += 1;
        }
        assert(self.log_buffer@.take(self.log_buffer.len() as int) =~= self.log_buffer@);
        PortManagerEntry {
            label: self.label.clone(),
            last_update: self.last_update,
            job_started: self.job_started,
            current_stage: self.current_stage.clone(),
            status: self.status,
            info_items: clone_facts(&self.info_items),
            log_buffer: log,
        }
    }
}

impl PortEntryView {
    /// The entry of a port of which nothing is known yet.
    pub open spec fn fresh(label: Seq<char>) -> PortEntryView {
        PortEntryView {
            label,
            last_update: 0,
            job_started: 0,
            current_stage: "Init"@,
            status: PortJobStatus::Idle,
            info_items: Seq::empty(),
            log_buffer: Seq::empty(),
        }
    }

    /// The entry as it is shown at the time `now`.
    pub open spec fn shown(self, now: i64) -> PortEntryView {
        PortEntryView { status: self.shown_status(now), ..self }
    }

    /// The entry after news arrived at the time `now`.
    pub open spec fn updated(self, update: JobUpdateView, now: i64) -> PortEntryView {
        let seen = PortEntryView { last_update: now, ..self };
        match update {
            JobUpdateView::JobStageTransition(_, new) => PortEntryView {
                current_stage: new,
                ..seen
            },
            JobUpdateView::JobStatusUpdate(status) => PortEntryView { status, ..seen },
            JobUpdateView::JobStart(at) => PortEntryView {
                job_started: at,
                info_items: Seq::empty(),
                log_buffer: Seq::empty(),
                ..seen
            },
            JobUpdateView::JobNewInfoItem(fact) => PortEntryView {
                info_items: seen.info_items.push(fact),
                ..seen
            },
            _ => seen,
        }
    }

    /// The status to show at the time `now`: that of the entry, but running
    /// long where a job is under way and the last news is more than fifteen
    /// minutes old.
    pub open spec fn shown_status(self, now: i64) -> PortJobStatus {
        if self.last_update + STALE_AFTER_MS < now && !self.status.idle() {
            PortJobStatus::RunningLong
        } else {
            self.status
        }
    }
}

impl PortManagerEntry {
    /// The entry of a port of which nothing is known yet.
    pub fn with_label(label: &str) -> (r: Self)
        ensures
            r@ == PortEntryView::fresh(label@),
    {
        let r = PortManagerEntry {
            label: String::from_str(label),
            last_update: 0,
            job_started: 0,
            current_stage: String::from_str("Init"),
            status: PortJobStatus::Idle,
            info_items: Vec::new(),
            log_buffer: Vec::new(),
        };
        assert(r@.info_items =~= Seq::<DeviceFact>::empty());
        r
    }

    /// Takes in news that arrived at the time `now`.
    pub fn accept_update(&mut self, update: JobUpdate, now: i64)
        ensures
            final(self)@ == old(self)@.updated(update@, now),
    {
        self.last_update = now;
        match update {
            JobUpdate::JobStageTransition(_old, new) => {
                self.current_stage = new;
            },
            JobUpdate::JobStatusUpdate(new) => {
                self.status = new;
            },
            JobUpdate::JobStart(at) => {
                self.job_started = at;
                self.info_items = Vec::new();
                self.log_buffer = Vec::new();
                assert(self@.info_items =~= Seq::<DeviceFact>::empty());
            },
            JobUpdate::JobNewInfoItem(i) => {
                let ghost before = self.info_items@;
                self.info_items.push(i);
                assert(facts_of(self.info_items@) =~= facts_of(before).push(i@));
            },
            _ => {},
        }
    }

    /// The status to show at the time `now`.
    pub fn shown_status(&self, now: i64) -> (s: PortJobStatus)
        ensures
            s == self@.shown_status(now),
    {
        if is_stale(self.last_update, now) && !self.status.is_idle() {
            PortJobStatus::RunningLong
        } else {
            self.status
        }
    }
}

/// Where the entry of the port `label` stands from the index `from` on.
pub open spec fn find_port(ports: Seq<PortEntryView>, label: Seq<char>, from: int) -> Option<int>
    decreases ports.len() - from,
{
    if from < 0 || from >= ports.len() {
        None
    } else if ports[from].label == label {
        Some(from)
    } else {
        find_port(ports, label, from + 1)
    }
}

/// The entries with one for the port `label` among them: a fresh one at the
/// end, where there was none.
pub open spec fn with_port(ports: Seq<PortEntryView>, label: Seq<char>) -> Seq<PortEntryView> {
    if find_port(ports, label, 0) is Some {
        ports
    } else {
        ports.push(PortEntryView::fresh(label))
    }
}

/// Where the entry of the port `label` stands in `with_port`.
pub open spec fn port_index(ports: Seq<PortEntryView>, label: Seq<char>) -> int {
    match find_port(ports, label, 0) {
        Some(i) => i,
        None => ports.len() as int,
    }
}

/// What `find_port` finds is an entry of that label, and the first.
pub proof fn lemma_find_port(ports: Seq<PortEntryView>, label: Seq<char>, from: int)
    requires
        0 <= from,
    ensures
        match find_port(ports, label, from) {
            Some(i) => from <= i < ports.len() && ports[i].label == label && forall|j: int|
                from <= j < i ==> (#[trigger] ports[j]).label != label,
            None => forall|j: int| from <= j < ports.len() ==> (#[trigger] ports[j]).label != label,
        },
    decreases ports.len() - from,
{
    if from < ports.len() && ports[from].label != label {
        lemma_find_port(ports, label, from + 1);
    }
}

/// The values of a list of entries, in order.
pub open spec fn entries_view(es: Seq<PortManagerEntry>) -> Seq<PortEntryView> {
    Seq::new(es.len(), |i: int| es[i]@)
}

/// What a dashboard holds of all the ports it has heard of.
pub struct JobManager {
    ports: Vec<PortManagerEntry>,
}

impl View for JobManager {
    type V = Seq<PortEntryView>;

    closed spec fn view(&self) -> Seq<PortEntryView> {
        entries_view(self.ports@)
    }
}

impl JobManager {
    /// A dashboard that has heard of no port.
    pub fn new() -> (r: Self)
        ensures
            r@ == Seq::<PortEntryView>::empty(),
    {
        let r = JobManager { ports: Vec::new() };
        assert(r@ =~= Seq::<PortEntryView>::empty());
        r
    }

    /// Where the entry of the port `label` stands; a fresh entry is made for
    /// a port that was not heard of.
    fn get_port_mut(&mut self, label: &str) -> (i: usize)
        ensures
            final(self)@ == with_port(old(self)@, label@),
            i == port_index(old(self)@, label@),
            i < final(self).ports@.len(),
    {
        let wanted = label.to_owned();
        let mut i: usize = 0;
        while i < self.ports.len()
            invariant
                i <= self.ports.len(),
                wanted@ == label@,
                *self == *old(self),
                find_port(self@, label@, 0) == find_port(self@, label@, i as int),
            decreases self.ports.len() - i,
        {
            assert(self@[i as int] == self.ports@[i as int]@);
            if self.ports[i].label == wanted {
                return i;
            }
            i += 1;
        }
        let ghost before = self.ports@;
        self.ports.push(PortManagerEntry::with_label(label));
        assert(self@ =~= entries_view(before).push(PortEntryView::fresh(label@)));
        i
    }

    /// Takes in news of the port `port_label` that arrived at the time `now`.
    pub fn accept_update(&mut self, port_label: &str, update: JobUpdate, now: i64)
        ensures
            final(self)@ == with_port(old(self)@, port_label@).update(
                port_index(old(self)@, port_label@),
                with_port(old(self)@, port_label@)[port_index(old(self)@, port_label@)].updated(
                    update@,
                    now,
                ),
            ),
    {
        let i = self.get_port_mut(port_label);
        let ghost before = self.ports@;
        let mut entry = self.ports[i].clone();
        entry.accept_update(update, now);
        self.ports[i] = entry;
        assert(self@ =~= entries_view(before).update(
            i as int,
            entries_view(before)[i as int].updated(update@, now),
        ));
    }

    /// Adds to what the console of the port `port_label` has shown.
    pub fn append_log_data(&mut self, port_label: &str, data: &[u8])
        ensures
            final(self)@ == with_port(old(self)@, port_label@).update(
                port_index(old(self)@, port_label@),
                PortEntryView {
                    log_buffer: with_port(old(self)@, port_label@)[port_index(
                        old(self)@,
                        port_label@,
                    )].log_buffer + data@,
                    ..with_port(old(self)@, port_label@)[port_index(old(self)@, port_label@)]
                },
            ),
    {
        let i = self.get_port_mut(port_label);
        let ghost before = self.ports@;
        let mut entry = self.ports[i].clone();
        let ghost log = entry.log_buffer@;
        let mut k: usize = 0;
        while k < data.len()
            invariant
                k <= data.len(),
                entry@ == (PortEntryView {
                    log_buffer: log + data@.take(k as int),
                    ..before[i as int]@
                }),
                i < before.len(),
            decreases data.len() - k,
        {
            entry.log_buffer.push(data[k]);
            assert(log + data@.take(k as int + 1) =~= (log + data@.take(k as int)).push(
                data@[k as int],
            ));
            k += 1;
        }
        assert(data@.take(data.len() as int) =~= data@);
        self.ports[i] = entry;
        assert(self@ =~= entries_view(before).update(
            i as int,
            PortEntryView { log_buffer: log + data@, ..entries_view(before)[i as int] },
        ));
    }

    /// The entries of all the ports, each as it is shown at the time `now`.
    pub fn get_ports(&self, now: i64) -> (r: Vec<PortManagerEntry>)
        ensures
            entries_view(r@) == Seq::new(self@.len(), |i: int| self@[i].shown(now)),
    {
        let mut out: Vec<PortManagerEntry> = Vec::new();
        let mut i: usize = 0;
        while i < self.ports.len()
            invariant
                i <= self.ports.len(),
                out.len() == i,
                forall|j: int| 0 <= j < i ==> out@[j]@ == self@[j].shown(now),
            decreases self.ports.len() - i,
        {
            let mut entry = self.ports[i].clone();
            entry.status = self.ports[i].shown_status(now);
            assert(self@[i as int] == self.ports@[i as int]@);
            out.push(entry);
            i += 1;
        }
        assert(entries_view(out@) =~= Seq::new(self@.len(), |i: int| self@[i].shown(now)));
        out
    }

    /// The entry of the port `label` as it is shown at the time `now`, if the
    /// port was heard of.
    pub fn get_port(&self, label: &str, now: i64) -> (r: Option<PortManagerEntry>)
        ensures
            match r {
                Some(e) => find_port(self@, label@, 0) matches Some(i) && e@ == self@[i].shown(
                    now,
                ),
                None => find_port(self@, label@, 0) is None,
            },
    {
        let wanted = label.to_owned();
        let mut i: usize = 0;
        while i < self.ports.len()
            invariant
                i <= self.ports.len(),
                wanted@ == label@,
                find_port(self@, label@, 0) == find_port(self@, label@, i as int),
            decreases self.ports.len() - i,
        {
            assert(self@[i as int] == self.ports@[i as int]@);
            if self.ports[i].label == wanted {
                let mut entry = self.ports[i].clone();
                entry.status = self.ports[i].shown_status(now);
                return Some(entry);
            }
            i += 1;
        }
        None
    }
}

} // verus!
