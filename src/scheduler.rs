use vstd::prelude::*;

verus! {

/// A firing interval, written in one of three units.
#[derive(Clone, Copy, PartialEq, Eq, Debug, Structural)]
pub enum Time {
    Seconds(u64),
    Minutes(u64),
    Hours(u64),
}

impl Time {
    /// The interval as a single duration, in milliseconds.
    pub open spec fn spec_millis(self) -> int {
        match self {
            Time::Seconds(s) => s * 1000,
            Time::Minutes(m) => m * 60_000,
            Time::Hours(h) => h * 3_600_000,
        }
    }

    /// The interval in milliseconds, or `None` where that does not fit in a `u64`.
    pub fn millis(&self) -> (r: Option<u64>)
        ensures
            match r {
                Some(ms) => ms == self.spec_millis(),
                None => self.spec_millis() > u64::MAX,
            },
    {
        match *self {
            Time::Seconds(s) => s.checked_mul(1000),
            Time::Minutes(m) => m.checked_mul(60_000),
            Time::Hours(h) => h.checked_mul(3_600_000),
        }
    }
}

/// Writing an amount as an interval: `30.seconds()`.
pub trait TimeUnits: Sized {
    spec fn amount(&self) -> u64;

    fn seconds(self) -> (r: Time)
        ensures
            r == Time::Seconds(self.amount()),
    ;

    fn minutes(self) -> (r: Time)
        ensures
            r == Time::Minutes(self.amount()),
    ;

    fn hours(self) -> (r: Time)
        ensures
            r == Time::Hours(self.amount()),
    ;
}

impl TimeUnits for u64 {
    open spec fn amount(&self) -> u64 {
        *self
    }

    fn seconds(self) -> (r: Time) {
        Time::Seconds(self)
    }

    fn minutes(self) -> (r: Time) {
        Time::Minutes(self)
    }

    fn hours(self) -> (r: Time) {
        Time::Hours(self)
    }
}

/// The work a job stands for. The scheduler hands the kinds of the jobs that fire
/// back to its caller, which performs them.
#[derive(Clone, Copy, PartialEq, Eq, Debug, Structural)]
pub enum JobKind {
    RefreshIssues,
}

/// A registered job: what it does, its interval once scheduled, and when it last
/// fired (or was registered), in milliseconds of a monotonic clock.
#[derive(Clone, Copy, PartialEq, Eq, Debug, Structural)]
pub struct Job {
    pub interval: Option<Time>,
    pub kind: JobKind,
    pub last_tick: u64,
}

/// Milliseconds from `since` to `now`; zero where the clock reads earlier.
pub open spec fn elapsed(since: u64, now: u64) -> int {
    if now >= since {
        now - since
    } else {
        0
    }
}

impl Job {
    /// A scheduled job whose interval has fully elapsed at `now`.
    pub open spec fn is_due(self, now: u64) -> bool {
        match self.interval {
            Some(t) => elapsed(self.last_tick, now) >= t.spec_millis(),
            None => false,
        }
    }

    /// The job after a tick at `now`.
    pub open spec fn after_tick(self, now: u64) -> Job {
        if self.is_due(now) {
            Job { last_tick: now, ..self }
        } else {
            self
        }
    }

    pub fn new(kind: JobKind, now: u64) -> (r: Job)
        ensures
            r == (Job { interval: None, kind, last_tick: now }),
    {
        Job { interval: None, kind, last_tick: now }
    }

    pub fn schedule(&mut self, s: Time)
        ensures
            *final(self) == (Job { interval: Some(s), ..*old(self) }),
    {
        self.interval = Some(s);
    }

    fn due(&self, now: u64) -> (r: bool)
        ensures
            r == self.is_due(now),
    {
        match &self.interval {
            Some(t) => {
                let since: u64 = if now >= self.last_tick {
                    now - self.last_tick
                } else {
                    0
                };
                match t.millis() {
                    Some(ms) => since >= ms,
                    None => false,
                }
            },
            None => false,
        }
    }
}

/// The kinds of the jobs that fire at `now`, in registration order.
pub open spec fn fired_kinds(jobs: Seq<Job>, now: u64) -> Seq<JobKind>
    decreases jobs.len(),
{
    if jobs.len() == 0 {
        Seq::empty()
    } else {
        let rest = fired_kinds(jobs.drop_last(), now);
        if jobs.last().is_due(now) {
            rest.push(jobs.last().kind)
        } else {
            rest
        }
    }
}

/// A job fires at a tick exactly when it has an interval and that interval has
/// fully elapsed since it was registered or last fired; a job that fires restarts
/// its count at the tick, and one that does not is left as it was.
pub proof fn lemma_job_fires_only_when_due(job: Job, now: u64)
    ensures
        job.is_due(now) <==> (job.interval is Some && elapsed(job.last_tick, now)
            >= job.interval.unwrap().spec_millis()),
        job.is_due(now) ==> job.after_tick(now).last_tick == now,
        !job.is_due(now) ==> job.after_tick(now) == job,
        job.after_tick(now).interval == job.interval,
        job.after_tick(now).kind == job.kind,
{
}

/// A tick fires every due job once and no other: what it hands back is the due
/// jobs, each once, in registration order, however many intervals have elapsed.
pub proof fn lemma_tick_fires_each_due_job_once(jobs: Seq<Job>, now: u64)
    ensures
        fired_kinds(jobs, now) == jobs.filter(|j: Job| j.is_due(now)).map_values(|j: Job| j.kind),
    decreases jobs.len(),
{
    if jobs.len() > 0 {
        lemma_tick_fires_each_due_job_once(jobs.drop_last(), now);
        let due = |j: Job| j.is_due(now);
        let kind = |j: Job| j.kind;
        reveal_with_fuel(Seq::filter, 1);
        let f = jobs.filter(due);
        let g = jobs.drop_last().filter(due);
        if due(jobs.last()) {
            assert(f == g.push(jobs.last()));
            assert(f.map_values(kind) =~= g.map_values(kind).push(jobs.last().kind));
        } else {
            assert(f == g);
        }
    }
}

/// A cooperative runner of periodic jobs, driven by explicit ticks.
pub struct Scheduler {
    jobs: Vec<Job>,
}

impl View for Scheduler {
    type V = Seq<Job>;

    closed spec fn view(&self) -> Seq<Job> {
        self.jobs@
    }
}

/// A handle on a job just registered, through which it gets its interval.
pub struct JobScheduler<'a> {
    pub job_index: usize,
    pub scheduler: &'a mut Scheduler,
}

impl<'a> JobScheduler<'a> {
    /// Attaches a firing interval to the job.
    pub fn every(self, interval: Time)
        requires
            self.job_index < old(self.scheduler)@.len(),
        ensures
            final(self.scheduler)@ == old(self.scheduler)@.update(
                self.job_index as int,
                Job { interval: Some(interval), ..old(self.scheduler)@[self.job_index as int] },
            ),
    {
        self.scheduler.jobs[self.job_index].schedule(interval);
    }
}

impl Scheduler {
    pub fn new() -> (r: Scheduler)
        ensures
            r@ == Seq::<Job>::empty(),
    {
        Scheduler { jobs: Vec::new() }
    }

    /// Registers a dormant job at time `now`; the handle schedules it.
    pub fn run(&mut self, kind: JobKind, now: u64) -> (h: JobScheduler<'_>)
        ensures
            h.job_index == old(self)@.len(),
            h.scheduler@ == old(self)@.push(Job { interval: None, kind, last_tick: now }),
            final(self)@ == final(h.scheduler)@,
    {
        self.jobs.push(Job::new(kind, now));
        let index = self.jobs.len() - 1;
        JobScheduler { scheduler: self, job_index: index }
    }

    /// One tick at `now`: every scheduled job whose interval has elapsed since it
    /// last fired fires once and restarts its count from `now`. Returns the kinds
    /// of the jobs that fired, in registration order.
    pub fn start(&mut self, now: u64) -> (fired: Vec<JobKind>)
        ensures
            final(self)@.len() == old(self)@.len(),
            forall|i: int|
                0 <= i < old(self)@.len() ==> #[trigger] final(self)@[i] == old(self)@[i].after_tick(
                    now,
                ),
            fired@ == fired_kinds(old(self)@, now),
    {
        let mut fired: Vec<JobKind> = Vec::new();
        let n = self.jobs.len();
        let mut i: usize = 0;
        while i < n
            invariant
                n == old(self)@.len(),
                self.jobs@.len() == n,
                0 <= i <= n,
                forall|k: int| 0 <= k < i ==> #[trigger] self.jobs@[k] == old(self)@[k].after_tick(now),
                forall|k: int| i <= k < n ==> #[trigger] self.jobs@[k] == old(self)@[k],
                fired@ == fired_kinds(old(self)@.take(i as int), now),
            decreases n - i,
        {
            let job = self.jobs[i];
            assert(old(self)@.take(i + 1).drop_last() == old(self)@.take(i as int));
            if job.due(now) {
                fired.push(job.kind);
                self.jobs.set(i, Job { last_tick: now, ..job });
            }
            i = i + 1;
        }
        assert(old(self)@.take(n as int) == old(self)@);
        fired
    }
}

} // verus!
