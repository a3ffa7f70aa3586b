//! Scheduled HTTP calls.
//!
//! The scheduler decides which jobs are due at a clock reading and records
//! the outcome of their calls; the caller performs the calls. A job whose
//! previous call has not reported back is not started again.
use vstd::prelude::*;
use crate::store::{MapKey, VecMap};

verus! {

/// Seconds in a day.
pub const SECS_IN_DAY: u64 = 86400;

/// When a job runs.
#[derive(Debug)]
pub enum CronSchedule {
    EverySeconds(u64),
    EveryMinutes(u64),
    EveryHours(u64),
    /// Every day at this UTC time.
    Daily { hour: u32, minute: u32 },
    /// A cron expression; not interpreted, runs hourly.
    Custom(String),
}

/// `x`, raised to 1 when it is 0.
pub open spec fn at_least_one(x: u64) -> nat {
    if x < 1 {
        1
    } else {
        x as nat
    }
}

/// The period of a schedule, in seconds.
pub open spec fn period(s: CronSchedule) -> nat {
    match s {
        CronSchedule::EverySeconds(n) => at_least_one(n),
        CronSchedule::EveryMinutes(m) => at_least_one(m) * 60,
        CronSchedule::EveryHours(h) => at_least_one(h) * 3600,
        CronSchedule::Daily { .. } => 86400,
        CronSchedule::Custom(_) => 3600,
    }
}

/// Whether the period of a schedule fits in a `u64`.
pub open spec fn period_fits(s: CronSchedule) -> bool {
    period(s) <= u64::MAX
}

/// The next run after `now`: the next occurrence of the daily time for a
/// daily schedule (today's if it is still ahead, else tomorrow's), and
/// `now + period` (capped at the largest clock reading) otherwise.
pub open spec fn next_run_after(s: CronSchedule, now: u64) -> nat {
    match s {
        CronSchedule::Daily { hour, minute } => {
            let day_start = now - now % 86400;
            let today = day_start + hour * 3600 + minute * 60;
            if today > now {
                today as nat
            } else {
                (today + 86400) as nat
            }
        },
        _ => if now + period(s) > u64::MAX {
            u64::MAX as nat
        } else {
            (now + period(s)) as nat
        },
    }
}

/// Whether `next_after` can be computed without overflow.
pub open spec fn next_fits(s: CronSchedule, now: u64) -> bool {
    &&& period_fits(s)
    &&& (s matches CronSchedule::Daily { hour, minute } ==> now - now % 86400 + hour * 3600 + minute * 60 + 86400 <= u64::MAX)
}

/// Schedules whose next time fits the clock's range whatever the clock
/// reads: all but a daily time, and counts of minutes or hours too large to
/// be seconds.
pub open spec fn fits_any_time(s: CronSchedule) -> bool {
    match s {
        CronSchedule::EverySeconds(_) => true,
        CronSchedule::EveryMinutes(m) => m <= u64::MAX / 60,
        CronSchedule::EveryHours(h) => h <= u64::MAX / 3600,
        CronSchedule::Daily { .. } => false,
        CronSchedule::Custom(_) => true,
    }
}

proof fn lemma_fits_any_time(s: CronSchedule, now: u64)
    ensures
        fits_any_time(s) ==> next_fits(s, now),
{
    if let CronSchedule::EveryMinutes(m) = s {
        if m <= u64::MAX / 60 {
            assert(at_least_one(m) * 60 <= u64::MAX) by (nonlinear_arith)
                requires m <= u64::MAX / 60, at_least_one(m) == if m < 1 { 1 } else { m as nat };
        }
    }
    if let CronSchedule::EveryHours(h) = s {
        if h <= u64::MAX / 3600 {
            assert(at_least_one(h) * 3600 <= u64::MAX) by (nonlinear_arith)
                requires h <= u64::MAX / 3600, at_least_one(h) == if h < 1 { 1 } else { h as nat };
        }
    }
}

fn raise(x: u64) -> (r: u64)
    ensures
        r == at_least_one(x),
{
    if x < 1 {
        1
    } else {
        x
    }
}

/// Tests `next_fits` on a clock reading.
pub fn fits_at(s: &CronSchedule, now: u64) -> (r: bool)
    ensures
        r == next_fits(*s, now),
{
    match s {
        CronSchedule::EverySeconds(_) => true,
        CronSchedule::EveryMinutes(m) => *m <= u64::MAX / 60,
        CronSchedule::EveryHours(h) => *h <= u64::MAX / 3600,
        CronSchedule::Daily { hour, minute } => {
            let day_start = now - (now % SECS_IN_DAY);
            day_start <= u64::MAX - SECS_IN_DAY
                && (*hour as u64) * 3600 + (*minute as u64) * 60 <= u64::MAX - SECS_IN_DAY - day_start
        },
        CronSchedule::Custom(_) => true,
    }
}

impl CronSchedule {
    /// The period in seconds; zero counts are raised to one.
    pub fn interval_secs(&self) -> (r: u64)
        requires
            period_fits(*self),
        ensures
            r == period(*self),
    {
        match self {
            CronSchedule::EverySeconds(s) => raise(*s),
            CronSchedule::EveryMinutes(m) => raise(*m) * 60,
            CronSchedule::EveryHours(h) => raise(*h) * 3600,
            CronSchedule::Daily { .. } => 86400,
            CronSchedule::Custom(_) => 3600,
        }
    }

    /// The next run time (UTC seconds) after `now`.
    pub fn next_after(&self, now: u64) -> (r: u64)
        requires
            next_fits(*self, now),
        ensures
            r == next_run_after(*self, now),
    {
        match self {
            CronSchedule::Daily { hour, minute } => {
                let day_start = now - (now % SECS_IN_DAY);
                let target_today = day_start + (*hour as u64) * 3600 + (*minute as u64) * 60;
                if target_today > now {
                    target_today
                } else {
                    target_today + SECS_IN_DAY
                }
            },
            _ => now.saturating_add(self.interval_secs()),
        }
    }

    /// A copy of the schedule.
    pub fn copy(&self) -> (r: Self)
        ensures
            r == *self,
    {
        match self {
            CronSchedule::EverySeconds(s) => CronSchedule::EverySeconds(*s),
            CronSchedule::EveryMinutes(m) => CronSchedule::EveryMinutes(*m),
            CronSchedule::EveryHours(h) => CronSchedule::EveryHours(*h),
            CronSchedule::Daily { hour, minute } => CronSchedule::Daily { hour: *hour, minute: *minute },
            CronSchedule::Custom(c) => CronSchedule::Custom(c.clone()),
        }
    }
}

/// Units of the periodic schedules: `h` hours last 3600 seconds each (one
/// hour when `h` is zero), 60 times as long as `h` minutes and 3600 times
/// as long as `h` seconds; the next run of such a schedule is one period
/// after the clock reading while that fits the clock's range.
pub proof fn law_schedule_units(n: u64, now: u64)
    ensures
        period(CronSchedule::EveryHours(n)) == (if n == 0 { 3600 } else { n * 3600 }),
        period(CronSchedule::EveryMinutes(n)) == (if n == 0 { 60 } else { n * 60 }),
        period(CronSchedule::EverySeconds(n)) == (if n == 0 { 1 } else { n as int }),
        period(CronSchedule::EveryHours(n)) == 60 * period(CronSchedule::EveryMinutes(n)),
        period(CronSchedule::EveryHours(n)) == 3600 * period(CronSchedule::EverySeconds(n)),
        now + period(CronSchedule::EveryHours(n)) <= u64::MAX ==> next_run_after(CronSchedule::EveryHours(n), now) == now
            + period(CronSchedule::EveryHours(n)),
{
}

/// Progress: the next run is strictly later than `now` unless the clock is
/// at its largest reading; a daily run is at most one day ahead.
pub proof fn law_next_run_is_later(s: CronSchedule, now: u64)
    requires
        next_fits(s, now),
        now < u64::MAX,
    ensures
        next_run_after(s, now) > now,
        s is Daily ==> next_run_after(s, now) <= now + 86400 + (s->hour * 3600 + s->minute * 60),
{
}

/// A scheduled job.
pub struct CronJob {
    pub id: String,
    pub name: String,
    pub schedule: CronSchedule,
    pub url: String,
    pub method: String,
    pub headers: Vec<(String, String)>,
    pub body: Option<String>,
    pub enabled: bool,
    pub last_run: u64,
    pub next_run: u64,
    pub run_count: u64,
    pub last_status: Option<u16>,
    /// Duration of the last call, in microseconds.
    pub last_duration_micros: u64,
    pub failure_count: u64,
}

/// What the caller has to call for a due job.
pub struct DueCall {
    pub id: String,
    pub url: String,
    pub method: String,
}

/// The outcome of a job's call.
pub enum JobOutcome {
    /// A response with this status; only a 2xx one is a success.
    Response { status: u16 },
    /// No response.
    Error,
}

/// The bookkeeping fields of a job.
pub open spec fn job_state(j: CronJob) -> (bool, u64, u64, u64, Option<u16>, u64, u64) {
    (j.enabled, j.last_run, j.next_run, j.run_count, j.last_status, j.last_duration_micros, j.failure_count)
}

/// The fields of a job that running it does not change.
pub open spec fn job_plan(j: CronJob) -> (Seq<char>, Seq<char>, CronSchedule, Seq<char>, Seq<char>) {
    (j.id@, j.name@, j.schedule, j.url@, j.method@)
}

/// Whether a job is due at `now`: enabled and its next run has come.
pub open spec fn is_due(j: CronJob, now: u64) -> bool {
    j.enabled && now >= j.next_run
}

/// A job after its call, started at `now`, reported back: the run is
/// counted (saturating), the duration kept, a response's status kept, and a
/// response that is not 2xx or no response at all counted as a failure.
pub open spec fn recorded(j: CronJob, now: u64, duration_micros: u64, outcome: JobOutcome) -> CronJob {
    let runs = if j.run_count == u64::MAX { u64::MAX } else { (j.run_count + 1) as u64 };
    let failures = if j.failure_count == u64::MAX { u64::MAX } else { (j.failure_count + 1) as u64 };
    match outcome {
        JobOutcome::Response { status } => CronJob {
            last_run: now,
            run_count: runs,
            last_duration_micros: duration_micros,
            last_status: Some(status),
            failure_count: if 200 <= status < 300 { j.failure_count } else { failures },
            ..j
        },
        JobOutcome::Error => CronJob {
            last_run: now,
            run_count: runs,
            last_duration_micros: duration_micros,
            failure_count: failures,
            ..j
        },
    }
}

/// Keeps the jobs and which of them are running.
pub struct CronScheduler {
    jobs: VecMap<Vec<char>, CronJob>,
    in_flight: VecMap<Vec<char>, ()>,
}

impl CronScheduler {
    /// The jobs, by id.
    pub closed spec fn jobs(&self) -> Map<Seq<char>, CronJob> {
        self.jobs.map()
    }

    /// Ids in the order the jobs were added.
    pub closed spec fn order(&self) -> Seq<Seq<char>> {
        self.jobs.keys()
    }

    /// Every job is kept under its own id.
    pub closed spec fn wf(&self) -> bool {
        forall|k: Seq<char>| #[trigger] self.jobs.map().contains_key(k) ==> self.jobs.map()[k].id@ == k
    }

    /// Ids of the jobs whose call has not reported back.
    pub closed spec fn running(&self) -> Set<Seq<char>> {
        self.in_flight.map().dom()
    }

    pub fn new() -> (s: Self)
        ensures
            s.wf(),
            s.jobs() == Map::<Seq<char>, CronJob>::empty(),
            s.running() == Set::<Seq<char>>::empty(),
    {
        let s = CronScheduler { jobs: VecMap::new(), in_flight: VecMap::new() };
        assert(s.running() =~= Set::<Seq<char>>::empty());
        s
    }

    /// Adds an enabled job under `id` that first runs at the schedule's next
    /// time after `now`.
    pub fn add_job_with_id(&mut self, id: String, name: String, schedule: CronSchedule, url: String, method: String, now: u64)
        requires
            old(self).wf(),
            next_fits(schedule, now),
        ensures
            final(self).wf(),
            final(self).jobs().dom() == old(self).jobs().dom().insert(id@),
            forall|k: Seq<char>| k != id@ && #[trigger] old(self).jobs().contains_key(k) ==> final(self).jobs()[k] == old(self).jobs()[k],
            final(self).running() == old(self).running(),
            ({
                let j = final(self).jobs()[id@];
                &&& job_plan(j) == (id@, name@, schedule, url@, method@)
                &&& job_state(j) == (true, 0u64, next_run_after(schedule, now) as u64, 0u64, None::<u16>, 0u64, 0u64)
            }),
    {
        let next = schedule.next_after(now);
        let key = crate::text::chars_of(id.as_str());
        let job = CronJob {
            id,
            name,
            schedule,
            url,
            method,
            headers: Vec::new(),
            body: None,
            enabled: true,
            last_run: 0,
            next_run: next,
            run_count: 0,
            last_status: None,
            last_duration_micros: 0,
            failure_count: 0,
        };
        self.jobs.insert(key, job);
    }

    /// Selects the jobs due at `now` that are not running, in the order they
    /// were added; each selected job is marked running and its next run is
    /// moved to the schedule's next time after `now`.
    pub fn take_due(&mut self, now: u64) -> (due: Vec<DueCall>)
        requires
            old(self).wf(),
            forall|k: Seq<char>| #[trigger] old(self).jobs().contains_key(k) ==> next_fits(old(self).jobs()[k].schedule, now),
        ensures
            final(self).wf(),
            final(self).jobs().dom() == old(self).jobs().dom(),
            final(self).order() == old(self).order(),
            forall|k: Seq<char>| #[trigger] old(self).jobs().contains_key(k) ==> {
                let j0 = old(self).jobs()[k];
                let j1 = final(self).jobs()[k];
                let picked = is_due(j0, now) && !old(self).running().contains(k);
                &&& job_plan(j1) == job_plan(j0)
                &&& picked ==> job_state(j1) == (j0.enabled, j0.last_run, next_run_after(j0.schedule, now) as u64, j0.run_count, j0.last_status, j0.last_duration_micros, j0.failure_count)
                &&& !picked ==> job_state(j1) == job_state(j0)
                &&& final(self).running().contains(k) == (old(self).running().contains(k) || picked)
            },
            forall|k: Seq<char>| !old(self).jobs().contains_key(k) ==> final(self).running().contains(k) == old(self).running().contains(k),
            forall|i: int| 0 <= i < due@.len() ==> {
                let c = #[trigger] due@[i];
                let j0 = old(self).jobs()[c.id@];
                &&& old(self).jobs().contains_key(c.id@)
                &&& is_due(j0, now) && !old(self).running().contains(c.id@)
                &&& c.url@ == j0.url@ && c.method@ == j0.method@
            },
            forall|k: Seq<char>| #[trigger] old(self).jobs().contains_key(k) && is_due(old(self).jobs()[k], now) && !old(self).running().contains(k)
                ==> exists|i: int| 0 <= i < due@.len() && due@[i].id@ == k,
    {
        let n = self.jobs.len();
        let ghost keys = self.jobs.keys();
        let ghost j_old = self.jobs.map();
        let ghost r_old = self.in_flight.map().dom();
        let mut due: Vec<DueCall> = Vec::new();
        let mut i: usize = 0;
        while i < n
            invariant
                n == keys.len(),
                keys == old(self).order(),
                keys.no_duplicates(),
                j_old == old(self).jobs(),
                r_old == old(self).running(),
                forall|k: Seq<char>| j_old.contains_key(k) <==> keys.contains(k),
                forall|k: Seq<char>| #[trigger] j_old.contains_key(k) ==> next_fits(j_old[k].schedule, now),
                forall|k: Seq<char>| #[trigger] j_old.contains_key(k) ==> j_old[k].id@ == k,
                self.jobs.keys() == keys,
                self.jobs.map().dom() == j_old.dom(),
                i <= n,
                forall|p: int| 0 <= p < n ==> {
                    let k = #[trigger] keys[p];
                    let j0 = j_old[k];
                    let j1 = self.jobs.map()[k];
                    let picked = is_due(j0, now) && !r_old.contains(k);
                    &&& job_plan(j1) == job_plan(j0)
                    &&& (p < i && picked) ==> job_state(j1) == (j0.enabled, j0.last_run, next_run_after(j0.schedule, now) as u64, j0.run_count, j0.last_status, j0.last_duration_micros, j0.failure_count)
                    &&& !(p < i && picked) ==> job_state(j1) == job_state(j0)
                    &&& self.in_flight.map().dom().contains(k) == (r_old.contains(k) || (p < i && picked))
                },
                forall|k: Seq<char>| !j_old.contains_key(k) ==> self.in_flight.map().dom().contains(k) == r_old.contains(k),
                forall|q: int| 0 <= q < due@.len() ==> {
                    let c = #[trigger] due@[q];
                    let j0 = j_old[c.id@];
                    &&& j_old.contains_key(c.id@)
                    &&& is_due(j0, now) && !r_old.contains(c.id@)
                    &&& c.url@ == j0.url@ && c.method@ == j0.method@
                },
                forall|p: int| 0 <= p < i && is_due(j_old[keys[p]], now) && !r_old.contains(#[trigger] keys[p])
                    ==> exists|q: int| 0 <= q < due@.len() && due@[q].id@ == keys[p],
            decreases n - i,
        {
            let ghost before = self.jobs.map();
            let ghost flight_before = self.in_flight.map().dom();
            let (key, mut job) = self.jobs.take_at(i);
            let ghost kv = key@;
            proof {
                assert(kv == keys[i as int]);
                assert(j_old.contains_key(kv));
            }
            let ghost j0 = job;
            let ghost due0 = due@;
            if job.enabled && now >= job.next_run && !self.in_flight.contains(&key) {
                let flight_key = key.copy_key();
                self.in_flight.insert(flight_key, ());
                job.next_run = job.schedule.next_after(now);
                due.push(
                    DueCall {
                        id: crate::text::string_of(crate::text::chars_of(job.id.as_str()).as_slice()),
                        url: crate::text::string_of(crate::text::chars_of(job.url.as_str()).as_slice()),
                        method: crate::text::string_of(crate::text::chars_of(job.method.as_str()).as_slice()),
                    },
                );
                proof {
                    assert(due@[due@.len() - 1].id@ == keys[i as int]);
                }
            }
            self.jobs.insert_at(i, key, job);
            proof {
                assert(self.jobs.keys() =~= keys);
                assert(self.jobs.map().dom() =~= j_old.dom());
                assert forall|p: int| 0 <= p < n && p != i implies #[trigger] self.jobs.map()[keys[p]] == before[keys[p]] by {
                    assert(keys[p] != kv);
                }
                assert forall|k: Seq<char>| k != kv implies #[trigger] self.in_flight.map().dom().contains(k) == flight_before.contains(k) by {}
                assert forall|p: int| 0 <= p < i && is_due(j_old[keys[p]], now) && !r_old.contains(#[trigger] keys[p])
                    implies exists|q: int| 0 <= q < due@.len() && due@[q].id@ == keys[p] by {
                    let q = choose|q: int| 0 <= q < due0.len() && due0[q].id@ == keys[p];
                    assert(due@[q] == due0[q]);
                }
            }
            i = i + 1;
        }
        proof {
            assert forall|k: Seq<char>| #[trigger] j_old.contains_key(k) && is_due(j_old[k], now) && !r_old.contains(k)
                implies exists|q: int| 0 <= q < due@.len() && due@[q].id@ == k by {
                assert(keys.contains(k));
                let p = choose|p: int| 0 <= p < keys.len() && keys[p] == k;
                assert(is_due(j_old[keys[p]], now) && !r_old.contains(keys[p]));
            }
            assert forall|k: Seq<char>| #[trigger] self.jobs.map().contains_key(k) implies self.jobs.map()[k].id@ == k by {
                assert(keys.contains(k));
                let p = choose|p: int| 0 <= p < keys.len() && keys[p] == k;
                assert(job_plan(self.jobs.map()[keys[p]]) == job_plan(j_old[keys[p]]));
            }
            assert forall|k: Seq<char>| #[trigger] old(self).jobs().contains_key(k) implies {
                let j0 = old(self).jobs()[k];
                let j1 = self.jobs.map()[k];
                let picked = is_due(j0, now) && !old(self).running().contains(k);
                &&& job_plan(j1) == job_plan(j0)
                &&& picked ==> job_state(j1) == (j0.enabled, j0.last_run, next_run_after(j0.schedule, now) as u64, j0.run_count, j0.last_status, j0.last_duration_micros, j0.failure_count)
                &&& !picked ==> job_state(j1) == job_state(j0)
                &&& self.in_flight.map().dom().contains(k) == (old(self).running().contains(k) || picked)
            } by {
                assert(keys.contains(k));
                let p = choose|p: int| 0 <= p < keys.len() && keys[p] == k;
                assert(keys[p] == k);
            }
        }
        due
    }

    /// Records the outcome of the call of job `id` started at `now`: the job
    /// is no longer running, and, if it still exists, its run is recorded.
    /// Tells whether the job exists.
    pub fn complete_job(&mut self, id: &str, now: u64, duration_micros: u64, outcome: JobOutcome) -> (found: bool)
        requires
            old(self).wf(),
        ensures
            final(self).wf(),
            found == old(self).jobs().contains_key(id@),
            found ==> final(self).jobs() == old(self).jobs().insert(id@, recorded(old(self).jobs()[id@], now, duration_micros, outcome)),
            !found ==> final(self).jobs() == old(self).jobs(),
            final(self).order() == old(self).order(),
            final(self).running() == old(self).running().remove(id@),
    {
        let key = crate::text::chars_of(id);
        let _ = self.in_flight.remove(&key);
        match self.jobs.position(&key) {
            None => false,
            Some(i) => {
                let ghost keys = self.jobs.keys();
                let ghost before = self.jobs.map();
                let (k, mut job) = self.jobs.take_at(i);
                let ghost j0 = job;
                job.last_run = now;
                job.run_count = job.run_count.saturating_add(1);
                job.last_duration_micros = duration_micros;
                match outcome {
                    JobOutcome::Response { status } => {
                        job.last_status = Some(status);
                        if status < 200 || status >= 300 {
                            job.failure_count = job.failure_count.saturating_add(1);
                        }
                    },
                    JobOutcome::Error => {
                        job.failure_count = job.failure_count.saturating_add(1);
                    },
                }
                assert(job == recorded(j0, now, duration_micros, outcome));
                self.jobs.insert_at(i, k, job);
                proof {
                    assert(self.jobs.keys() =~= keys);
                    assert(self.jobs.map() =~= before.insert(id@, recorded(j0, now, duration_micros, outcome)));
                }
                true
            },
        }
    }

    /// Removes job `id`, and its running mark; tells whether it existed.
    pub fn remove_job(&mut self, id: &str) -> (removed: bool)
        requires
            old(self).wf(),
        ensures
            final(self).wf(),
            removed == old(self).jobs().contains_key(id@),
            final(self).jobs() == old(self).jobs().remove(id@),
            final(self).order() == old(self).order().filter(|k: Seq<char>| k != id@),
            final(self).running() == old(self).running().remove(id@),
    {
        let key = crate::text::chars_of(id);
        let _ = self.in_flight.remove(&key);
        let r = self.jobs.remove(&key);
        r.is_some()
    }

    /// Adds an enabled job with a fresh id, first running at the schedule's
    /// next time after the clock reading, and gives the id; `None` exactly
    /// when that time does not fit in the clock's range.
    pub fn add_job(&mut self, name: String, schedule: CronSchedule, url: String, method: String) -> (r: Option<String>)
        requires
            old(self).wf(),
        ensures
            final(self).wf(),
            final(self).running() == old(self).running(),
            fits_any_time(schedule) ==> r is Some,
            exists|now: u64|
                (#[trigger] next_fits(schedule, now) <==> r is Some) && (r matches Some(id) ==> job_state(final(self).jobs()[id@])
                    == (true, 0u64, next_run_after(schedule, now) as u64, 0u64, None::<u16>, 0u64, 0u64)),
            match r {
                Some(id) => {
                    &&& final(self).jobs().dom() == old(self).jobs().dom().insert(id@)
                    &&& forall|k: Seq<char>| k != id@ && #[trigger] old(self).jobs().contains_key(k) ==> final(self).jobs()[k] == old(self).jobs()[k]
                    &&& job_plan(final(self).jobs()[id@]) == (id@, name@, schedule, url@, method@)
                },
                None => final(self).jobs() == old(self).jobs() && !fits_any_time(schedule),
            },
    {
        let now = crate::clock::now_secs();
        proof {
            lemma_fits_any_time(schedule, now);
        }
        if !fits_at(&schedule, now) {
            return None;
        }
        let id = crate::ids::new_id();
        let id_copy = crate::text::string_of(crate::text::chars_of(id.as_str()).as_slice());
        self.add_job_with_id(id, name, schedule, url, method, now);
        assert(next_fits(schedule, now));
        Some(id_copy)
    }

    /// Number of jobs.
    pub fn job_count(&self) -> (n: usize)
        ensures
            n == self.order().len(),
    {
        self.jobs.len()
    }

    /// The job at position `i` in the order the jobs were added.
    pub fn job_at(&self, i: usize) -> (j: &CronJob)
        requires
            i < self.order().len(),
        ensures
            self.jobs().contains_key(self.order()[i as int]),
            *j == self.jobs()[self.order()[i as int]],
    {
        let (_, j) = self.jobs.entry_at(i);
        j
    }

    /// The job with this id.
    pub fn get_job(&self, id: &str) -> (r: Option<&CronJob>)
        ensures
            match r {
                Some(j) => self.jobs().contains_key(id@) && *j == self.jobs()[id@],
                None => !self.jobs().contains_key(id@),
            },
    {
        let key = crate::text::chars_of(id);
        self.jobs.get(&key)
    }
}

/// One tick for a due job: once `take_due(now)` has moved its next run
/// (giving `j1` from `j0`) and `complete_job` has recorded the call's
/// outcome, the job next runs at the schedule's next time after `now`, last
/// ran at `now`, has one more run (saturating), keeps the duration, and
/// counts a failure exactly when there was no response or a non-2xx one.
pub proof fn law_due_job_cycle(j0: CronJob, j1: CronJob, now: u64, duration_micros: u64, outcome: JobOutcome)
    requires
        is_due(j0, now),
        job_plan(j1) == job_plan(j0),
        job_state(j1) == (
            j0.enabled,
            j0.last_run,
            next_run_after(j0.schedule, now) as u64,
            j0.run_count,
            j0.last_status,
            j0.last_duration_micros,
            j0.failure_count,
        ),
    ensures
        ({
            let j2 = recorded(j1, now, duration_micros, outcome);
            let bumped = |x: u64| if x == u64::MAX { u64::MAX } else { (x + 1) as u64 };
            &&& job_plan(j2) == job_plan(j0)
            &&& j2.enabled
            &&& j2.next_run == next_run_after(j0.schedule, now) as u64
            &&& j2.last_run == now
            &&& j2.run_count == bumped(j0.run_count)
            &&& j2.last_duration_micros == duration_micros
            &&& outcome matches JobOutcome::Response { status } ==> j2.last_status == Some(status) && j2.failure_count == (if 200
                <= status < 300 {
                j0.failure_count
            } else {
                bumped(j0.failure_count)
            })
            &&& outcome is Error ==> j2.last_status == j0.last_status && j2.failure_count == bumped(j0.failure_count)
        }),
{
}

} // verus!
