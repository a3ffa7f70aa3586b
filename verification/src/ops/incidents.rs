//! Incidents with a timeline: every status change and update is appended,
//! resolution is time-stamped, and a postmortem can be attached.
use vstd::prelude::*;
use crate::text::{chars_of, string_of, concat};
use crate::config::text;

verus! {

/// How bad an incident is.
#[derive(Debug, Clone, Copy, PartialEq, Eq, Structural)]
pub enum Severity {
    Critical,
    Major,
    Minor,
    Info,
}

/// Where an incident stands.
#[derive(Debug, Clone, Copy, PartialEq, Eq, Structural)]
pub enum IncidentStatus {
    Investigating,
    Identified,
    Monitoring,
    Resolved,
}

/// One line of an incident's timeline.
pub struct TimelineEntry {
    pub timestamp: u64,
    pub message: String,
    pub author: String,
}

/// An incident.
pub struct Incident {
    pub id: String,
    pub title: String,
    pub severity: Severity,
    pub status: IncidentStatus,
    pub affected_services: Vec<String>,
    pub timeline: Vec<TimelineEntry>,
    pub created_at: u64,
    pub resolved_at: Option<u64>,
    pub postmortem: Option<String>,
}

/// The name of a status, as its debug form writes it.
pub open spec fn status_name(s: IncidentStatus) -> Seq<char> {
    match s {
        IncidentStatus::Investigating => "Investigating"@,
        IncidentStatus::Identified => "Identified"@,
        IncidentStatus::Monitoring => "Monitoring"@,
        IncidentStatus::Resolved => "Resolved"@,
    }
}

fn status_label(s: IncidentStatus) -> (r: &'static str)
    ensures
        r@ == status_name(s),
{
    match s {
        IncidentStatus::Investigating => "Investigating",
        IncidentStatus::Identified => "Identified",
        IncidentStatus::Monitoring => "Monitoring",
        IncidentStatus::Resolved => "Resolved",
    }
}

/// The first incident with this id, from position `from` on.
pub open spec fn find_from(v: Seq<Incident>, id: Seq<char>, from: int) -> Option<int>
    decreases v.len() - from,
{
    if from < 0 || from >= v.len() {
        None
    } else if v[from].id@ == id {
        Some(from)
    } else {
        find_from(v, id, from + 1)
    }
}

/// The incidents, in the order they were opened.
pub struct IncidentManager {
    incidents: Vec<Incident>,
}

impl IncidentManager {
    /// The incidents.
    pub closed spec fn incidents(&self) -> Seq<Incident> {
        self.incidents@
    }

    pub fn new() -> (m: Self)
        ensures
            m.incidents().len() == 0,
    {
        IncidentManager { incidents: Vec::new() }
    }

    /// Opens an incident under `id` at `now`, investigating, with a first
    /// timeline entry by `system`.
    pub fn create_with(&mut self, id: String, title: String, severity: Severity, services: Vec<String>, now: u64)
        ensures
            final(self).incidents().len() == old(self).incidents().len() + 1,
            final(self).incidents().drop_last() == old(self).incidents(),
            ({
                let i = final(self).incidents().last();
                &&& i.id == id && i.title == title && i.severity == severity && i.affected_services == services
                &&& i.status == IncidentStatus::Investigating && i.created_at == now && i.resolved_at is None
                &&& i.postmortem is None && i.timeline@.len() == 1
                &&& i.timeline@[0].timestamp == now && i.timeline@[0].message@ == "Incident created: "@ + title@
                &&& i.timeline@[0].author@ == "system"@
            }),
    {
        let msg = concat(chars_of("Incident created: ").as_slice(), chars_of(title.as_str()).as_slice());
        let mut timeline: Vec<TimelineEntry> = Vec::new();
        timeline.push(TimelineEntry { timestamp: now, message: string_of(msg.as_slice()), author: text("system") });
        let inc = Incident {
            id,
            title,
            severity,
            status: IncidentStatus::Investigating,
            affected_services: services,
            timeline,
            created_at: now,
            resolved_at: None,
            postmortem: None,
        };
        self.incidents.push(inc);
        assert(self.incidents@.drop_last() =~= old(self).incidents());
    }

    /// Opens an incident with a fresh id at the current time and gives the id;
    /// whatever id and reading were drawn, the incident is the one
    /// `create_with` opens.
    pub fn create(&mut self, title: String, severity: Severity, services: Vec<String>) -> (id: String)
        ensures
            id@.len() == 36,
            final(self).incidents().len() == old(self).incidents().len() + 1,
            final(self).incidents().drop_last() == old(self).incidents(),
            ({
                let i = final(self).incidents().last();
                &&& i.id@ == id@ && i.title == title && i.severity == severity && i.affected_services == services
                &&& i.status == IncidentStatus::Investigating && i.resolved_at is None
                &&& i.postmortem is None && i.timeline@.len() == 1
                &&& i.timeline@[0].timestamp == i.created_at && i.timeline@[0].message@ == "Incident created: "@ + title@
                &&& i.timeline@[0].author@ == "system"@
            }),
    {
        let id = crate::ids::new_id();
        let copy = string_of(chars_of(id.as_str()).as_slice());
        let now = crate::clock::now_secs();
        self.create_with(id, title, severity, services, now);
        copy
    }

    fn position(&self, id: &str) -> (r: Option<usize>)
        ensures
            match r {
                Some(i) => find_from(self.incidents(), id@, 0) == Some(i as int) && i < self.incidents().len(),
                None => find_from(self.incidents(), id@, 0) is None,
            },
    {
        let key = chars_of(id);
        let mut i: usize = 0;
        while i < self.incidents.len()
            invariant
                i <= self.incidents@.len(),
                key@ == id@,
                find_from(self.incidents@, id@, 0) == find_from(self.incidents@, id@, i as int),
            decreases self.incidents@.len() - i,
        {
            if crate::text::eq(key.as_slice(), chars_of(self.incidents[i].id.as_str()).as_slice()) {
                return Some(i);
            }
            i = i + 1;
        }
        None
    }

    /// Appends an update to the first incident with this id at `now`; tells
    /// whether there is one.
    pub fn add_update_at(&mut self, id: &str, message: String, author: String, now: u64) -> (found: bool)
        ensures
            found == find_from(old(self).incidents(), id@, 0) is Some,
            !found ==> final(self).incidents() == old(self).incidents(),
            found ==> ({
                let k = find_from(old(self).incidents(), id@, 0)->0;
                let i0 = old(self).incidents()[k];
                let i1 = final(self).incidents()[k];
                &&& final(self).incidents() == old(self).incidents().update(k, i1)
                &&& i1 == (Incident { timeline: i1.timeline, ..i0 })
                &&& i1.timeline@ == i0.timeline@.push(TimelineEntry { timestamp: now, message, author })
            }),
    {
        match self.position(id) {
            None => false,
            Some(k) => {
                let ghost before = self.incidents@;
                let mut v: Vec<Incident> = Vec::new();
                std::mem::swap(&mut v, &mut self.incidents);
                let mut inc = v.remove(k);
                inc.timeline.push(TimelineEntry { timestamp: now, message, author });
                v.insert(k, inc);
                self.incidents = v;
                proof {
                    assert(self.incidents@ =~= before.update(k as int, self.incidents@[k as int]));
                }
                true
            },
        }
    }

    /// Sets the status of the first incident with this id at `now`: a
    /// resolution records its time, and the change is written to the
    /// timeline by `system`. Tells whether there is such an incident.
    pub fn update_status_at(&mut self, id: &str, status: IncidentStatus, now: u64) -> (found: bool)
        ensures
            found == find_from(old(self).incidents(), id@, 0) is Some,
            !found ==> final(self).incidents() == old(self).incidents(),
            found ==> ({
                let k = find_from(old(self).incidents(), id@, 0)->0;
                let i0 = old(self).incidents()[k];
                let i1 = final(self).incidents()[k];
                &&& final(self).incidents() == old(self).incidents().update(k, i1)
                &&& i1 == (Incident {
                    status: status,
                    resolved_at: if status == IncidentStatus::Resolved { Some(now) } else { i0.resolved_at },
                    timeline: i1.timeline,
                    ..i0
                })
                &&& i1.timeline@.len() == i0.timeline@.len() + 1
                &&& i1.timeline@.drop_last() == i0.timeline@
                &&& i1.timeline@.last().timestamp == now
                &&& i1.timeline@.last().message@ == "Status changed to "@ + status_name(status)
                &&& i1.timeline@.last().author@ == "system"@
            }),
    {
        match self.position(id) {
            None => false,
            Some(k) => {
                let ghost before = self.incidents@;
                let mut v: Vec<Incident> = Vec::new();
                std::mem::swap(&mut v, &mut self.incidents);
                let mut inc = v.remove(k);
                let ghost i0 = inc;
                inc.status = status;
                if status == IncidentStatus::Resolved {
                    inc.resolved_at = Some(now);
                }
                let msg = concat(chars_of("Status changed to ").as_slice(), chars_of(status_label(status)).as_slice());
                inc.timeline.push(TimelineEntry { timestamp: now, message: string_of(msg.as_slice()), author: text("system") });
                assert(inc.timeline@.drop_last() =~= i0.timeline@);
                v.insert(k, inc);
                self.incidents = v;
                proof {
                    assert(self.incidents@ =~= before.update(k as int, self.incidents@[k as int]));
                }
                true
            },
        }
    }

    /// `add_update_at` at the current clock reading.
    pub fn add_update(&mut self, id: &str, message: String, author: String) -> (found: bool)
        ensures
            found == find_from(old(self).incidents(), id@, 0) is Some,
            !found ==> final(self).incidents() == old(self).incidents(),
            found ==> ({
                let k = find_from(old(self).incidents(), id@, 0)->0;
                let i0 = old(self).incidents()[k];
                let i1 = final(self).incidents()[k];
                &&& final(self).incidents() == old(self).incidents().update(k, i1)
                &&& i1 == (Incident { timeline: i1.timeline, ..i0 })
                &&& i1.timeline@.drop_last() == i0.timeline@
                &&& i1.timeline@.last().message == message
                &&& i1.timeline@.last().author == author
            }),
    {
        let now = crate::clock::now_secs();
        let found = self.add_update_at(id, message, author, now);
        proof {
            if found {
                let k = find_from(old(self).incidents(), id@, 0)->0;
                assert(self.incidents()[k].timeline@.drop_last() =~= old(self).incidents()[k].timeline@);
            }
        }
        found
    }

    /// `update_status_at` at the current clock reading.
    pub fn update_status(&mut self, id: &str, status: IncidentStatus) -> (found: bool)
        ensures
            found == find_from(old(self).incidents(), id@, 0) is Some,
            !found ==> final(self).incidents() == old(self).incidents(),
            found ==> ({
                let k = find_from(old(self).incidents(), id@, 0)->0;
                let i0 = old(self).incidents()[k];
                let i1 = final(self).incidents()[k];
                &&& final(self).incidents() == old(self).incidents().update(k, i1)
                &&& i1 == (Incident { status: status, resolved_at: i1.resolved_at, timeline: i1.timeline, ..i0 })
                &&& (status != IncidentStatus::Resolved ==> i1.resolved_at == i0.resolved_at)
                &&& (status == IncidentStatus::Resolved ==> i1.resolved_at is Some)
                &&& i1.timeline@.drop_last() == i0.timeline@
                &&& i1.timeline@.last().message@ == "Status changed to "@ + status_name(status)
                &&& i1.timeline@.last().author@ == "system"@
            }),
    {
        let now = crate::clock::now_secs();
        self.update_status_at(id, status, now)
    }

    /// Attaches a postmortem; tells whether the incident exists.
    pub fn add_postmortem(&mut self, id: &str, postmortem: String) -> (found: bool)
        ensures
            found == find_from(old(self).incidents(), id@, 0) is Some,
            !found ==> final(self).incidents() == old(self).incidents(),
            found ==> ({
                let k = find_from(old(self).incidents(), id@, 0)->0;
                final(self).incidents() == old(self).incidents().update(k, Incident { postmortem: Some(postmortem), ..old(self).incidents()[k] })
            }),
    {
        match self.position(id) {
            None => false,
            Some(k) => {
                let ghost before = self.incidents@;
                let mut v: Vec<Incident> = Vec::new();
                std::mem::swap(&mut v, &mut self.incidents);
                let mut inc = v.remove(k);
                let ghost i0 = inc;
                inc.postmortem = Some(postmortem);
                v.insert(k, inc);
                self.incidents = v;
                proof {
                    assert(self.incidents@ =~= before.update(k as int, Incident { postmortem: Some(postmortem), ..i0 }));
                }
                true
            },
        }
    }

    /// Positions of the incidents that are not resolved, in order.
    pub fn active(&self) -> (idx: Vec<usize>)
        ensures
            forall|k: int| 0 <= k < idx@.len() ==> idx@[k] < self.incidents().len() && self.incidents()[idx@[k] as int].status != IncidentStatus::Resolved,
            forall|k: int, l: int| 0 <= k < l < idx@.len() ==> idx@[k] < idx@[l],
            forall|i: int| 0 <= i < self.incidents().len() && (#[trigger] self.incidents()[i]).status != IncidentStatus::Resolved ==> idx@.contains(i as usize),
    {
        let mut idx: Vec<usize> = Vec::new();
        let mut i: usize = 0;
        while i < self.incidents.len()
            invariant
                i <= self.incidents@.len(),
                forall|k: int| 0 <= k < idx@.len() ==> idx@[k] < i && self.incidents@[idx@[k] as int].status != IncidentStatus::Resolved,
                forall|k: int, l: int| 0 <= k < l < idx@.len() ==> idx@[k] < idx@[l],
                forall|j: int| 0 <= j < i && (#[trigger] self.incidents@[j]).status != IncidentStatus::Resolved ==> idx@.contains(j as usize),
            decreases self.incidents@.len() - i,
        {
            if self.incidents[i].status != IncidentStatus::Resolved {
                let ghost before = idx@;
                idx.push(i);
                proof {
                    assert(idx@[idx@.len() - 1] == i);
                    assert forall|j: int| 0 <= j < i + 1 && (#[trigger] self.incidents@[j]).status != IncidentStatus::Resolved implies idx@.contains(j as usize) by {
                        if j < i {
                            let k = choose|k: int| 0 <= k < before.len() && before[k] == j as usize;
                            assert(idx@[k] == j as usize);
                        }
                    }
                }
            }
            i = i + 1;
        }
        idx
    }

    /// Number of incidents.
    pub fn count(&self) -> (n: usize)
        ensures
            n == self.incidents().len(),
    {
        self.incidents.len()
    }

    /// The incident at position `i`.
    pub fn at(&self, i: usize) -> (r: &Incident)
        requires
            i < self.incidents().len(),
        ensures
            *r == self.incidents()[i as int],
    {
        &self.incidents[i]
    }
}

} // verus!
