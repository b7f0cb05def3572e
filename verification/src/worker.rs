//! A worker: what it needs to start, and which loops it runs.

use vstd::prelude::*;
use vstd::string::StringExecFns;

use crate::change::lock_prefix;
use crate::claimed::{run_starts, JobRun, RunAction, RunReport};
use crate::config::{config_problem, WorkerConfig, WorkerError};
use crate::cron::{occurrence_in_range, CronJob, CronSchedule};
use crate::job::Job;
use crate::loops::{listening_from, Listener};
use crate::registry::Registry;
use crate::search::{first_such, lemma_first_such};
use crate::source::{clock, id_text, new_id, random_id, write_id};
use crate::supervisor::{starting, Supervisor};
use crate::text::{decimal, decimal_text, holds_text, same_text, texts};
use crate::time::{in_range, Timestamp};

verus! {

/// A worker with its handlers and schedules.
pub struct Worker<H> {
    registry: Registry<H>,
    crons: Vec<CronJob>,
    config: WorkerConfig,
}

/// One of the loops that a worker runs side by side.
#[derive(Clone, Copy, Debug, PartialEq, Eq, Structural)]
pub enum WorkerLoop {
    /// Reports that the worker is alive.
    Heartbeat,
    /// Looks for dead workers, stale locks and old jobs.
    Recovery,
    /// Waits for notifications of new jobs.
    Listener,
    /// Enqueues the jobs of schedules.
    Cron,
    /// Claims jobs and runs them; the claim loops are numbered.
    Claim(usize),
}

/// Whether the schedule at a place has the identifier of an earlier one.
pub open spec fn repeats_identifier(crons: Seq<CronJob>, place: int) -> bool {
    exists|earlier: int|
        0 <= earlier < place && (#[trigger] crons[earlier]).identifier@ == crons[place].identifier@
}

/// Whether the schedule at a place keeps a worker with handlers for jobs of some names from
/// starting.
pub open spec fn cron_refused<H>(
    handlers: Map<Seq<char>, H>,
    crons: Seq<CronJob>,
    place: int,
) -> bool {
    !handlers.contains_key(crons[place].name@) || repeats_identifier(crons, place)
}

/// The first schedule that keeps a worker from starting.
pub open spec fn first_refused<H>(handlers: Map<Seq<char>, H>, crons: Seq<CronJob>) -> Option<int> {
    first_such(|place: int| cron_refused(handlers, crons, place), 0, crons.len() as int)
}

/// What is returned where a worker with some handlers, schedules and a configuration is to start.
pub open spec fn start_outcome<H>(
    handlers: Map<Seq<char>, H>,
    crons: Seq<CronJob>,
    config: WorkerConfig,
    result: Result<Vec<String>, WorkerError>,
) -> bool {
    match config_problem(config) {
        Some(problem) => result matches Err(WorkerError::InvalidConfig(message)) && message@
            == problem,
        None => if handlers.dom() =~= Set::empty() {
            result matches Err(WorkerError::EmptyRegistry)
        } else {
            match first_refused(handlers, crons) {
                Some(place) => if !handlers.contains_key(crons[place].name@) {
                    &&& result matches Err(WorkerError::MissingCronHandler(name))
                    &&& name@ == crons[place].name@
                } else {
                    &&& result matches Err(WorkerError::DuplicateCronIdentifier(identifier))
                    &&& identifier@ == crons[place].identifier@
                },
                None => {
                    &&& result matches Ok(names)
                    &&& texts(names@).no_duplicates()
                    &&& forall|name: Seq<char>|
                        texts(names@).contains(name) <==> #[trigger] handlers.contains_key(name)
                },
            }
        },
    }
}

/// The loops of a worker: one of each kind, the one for schedules only where there are some, and as
/// many claim loops as jobs may run at a time.
pub open spec fn worker_loops(schedules: bool, concurrency: int) -> Seq<WorkerLoop> {
    let loops = seq![WorkerLoop::Heartbeat, WorkerLoop::Recovery, WorkerLoop::Listener] + (
    if schedules {
        seq![WorkerLoop::Cron]
    } else {
        Seq::empty()
    });
    loops + Seq::new(
        (if concurrency < 1 {
            1
        } else {
            concurrency
        }) as nat,
        |index: int| WorkerLoop::Claim(index as usize),
    )
}

/// Whether a schedule is of intervals shorter than the time between two looks at it, so that some
/// of its occurrences are passed over.
pub open spec fn too_frequent(cron: CronJob, config: WorkerConfig) -> bool {
    cron.schedule is Interval && cron.schedule->every@ < config.cron_poll_interval@
}

/// An occurrence that is due.
pub struct DueCron {
    /// The place of its schedule.
    pub place: usize,
    /// When it was due.
    pub due_at: Timestamp,
    /// When the next one is.
    pub next_run_at: Timestamp,
}

/// What a [`DueCron`] says: the place of the schedule, when it was due, and when it is next.
pub open spec fn due_view(due: DueCron) -> (int, int, int) {
    (due.place as int, due.due_at@, due.next_run_at@)
}

/// The occurrences that are due at `now`, of the first `count` schedules.
pub open spec fn due_occurrences(crons: Seq<CronJob>, now: int, count: int) -> Seq<(int, int, int)>
    decreases count,
{
    if count <= 0 {
        Seq::empty()
    } else {
        let earlier = due_occurrences(crons, now, count - 1);
        match crons[count - 1].schedule.due(now) {
            Some(due) => earlier.push((count - 1, due, crons[count - 1].schedule.next(due))),
            None => earlier,
        }
    }
}

/// The first schedule whose occurrence that is due at `now`, or the one after it, is out of range.
pub open spec fn first_out_of_range(crons: Seq<CronJob>, now: int) -> Option<int> {
    first_such(
        |place: int| !occurrence_in_range(crons[place].schedule, now),
        0,
        crons.len() as int,
    )
}

/// The occurrences that are due at one time, up to the first schedule that comes out of range.
pub struct DueRound {
    /// The occurrences, in the order of their schedules.
    pub due: Vec<DueCron>,
    /// The place of the schedule that came out of range.
    pub out_of_range: Option<usize>,
}

impl DueRound {
    /// Whether these are the occurrences that are due at `now`.
    pub open spec fn is_due(self, crons: Seq<CronJob>, now: int) -> bool {
        match self.out_of_range {
            Some(place) => {
                &&& first_out_of_range(crons, now) == Some(place as int)
                &&& self.due@.map_values(|due: DueCron| due_view(due)) == due_occurrences(
                    crons,
                    now,
                    place as int,
                )
            },
            None => {
                &&& first_out_of_range(crons, now) is None
                &&& self.due@.map_values(|due: DueCron| due_view(due)) == due_occurrences(
                    crons,
                    now,
                    crons.len() as int,
                )
            },
        }
    }
}

/// Finds the occurrences that are due at `now`.
pub fn due_crons(crons: &Vec<CronJob>, now: Timestamp) -> (round: DueRound)
    ensures
        round.is_due(crons@, now@),
{
    let ghost show = |due: DueCron| due_view(due);
    let ghost test = |place: int| !occurrence_in_range(crons@[place].schedule, now@);
    let mut due: Vec<DueCron> = Vec::new();
    let mut i: usize = 0;
    assert(due@.map_values(show) =~= Seq::empty());
    while i < crons.len()
        invariant
            i <= crons@.len(),
            show == (|due: DueCron| due_view(due)),
            test == (|place: int| !occurrence_in_range(crons@[place].schedule, now@)),
            due@.map_values(show) == due_occurrences(crons@, now@, i as int),
            forall|j: int| 0 <= j < i ==> !(#[trigger] test(j)),
        decreases crons@.len() - i,
    {
        match crons[i].find_occurrence(now) {
            Ok(Some((due_at, next_run_at))) => {
                let ghost before = due@.map_values(show);
                let occurrence = DueCron { place: i, due_at, next_run_at };
                let ghost seen = due_view(occurrence);
                due.push(occurrence);
                assert(due@.map_values(show) =~= before.push(seen));
            },
            Ok(None) => {},
            Err(_) => {
                proof {
                    assert(test(i as int));
                    lemma_first_such(test, 0, crons@.len() as int, i as int);
                }
                return DueRound { due, out_of_range: Some(i) };
            },
        }
        assert(!test(i as int));
        i = i + 1;
    }
    proof {
        lemma_first_such(test, 0, crons@.len() as int, i as int);
    }
    DueRound { due, out_of_range: None }
}

/// The lock owner of a claim loop: the worker, the number of the loop, and a random id.
pub open spec fn lock_owner_text(worker_id: Seq<char>, index: nat, id: u128) -> Seq<char> {
    worker_id + ":"@ + decimal(index) + ":"@ + id_text(id)
}

/// Makes the lock owner of a claim loop.
pub fn lock_owner(worker_id: &str, worker_index: usize, id: u128) -> (owner: String)
    ensures
        owner@ == lock_owner_text(worker_id@, worker_index as nat, id),
        lock_prefix(worker_id@).is_prefix_of(owner@),
{
    let owner: String = worker_id.to_owned().concat(":").concat(
        decimal_text(worker_index as u64).as_str(),
    ).concat(":").concat(write_id(id).as_str());
    proof {
        let prefix = lock_prefix(worker_id@);
        assert(owner@.subrange(0, prefix.len() as int) =~= prefix);
    }
    owner
}

impl<H> Worker<H> {
    /// The handlers.
    pub closed spec fn handlers(&self) -> Map<Seq<char>, H> {
        self.registry@
    }

    /// The schedules.
    pub closed spec fn schedules(&self) -> Seq<CronJob> {
        self.crons@
    }

    /// The configuration.
    pub closed spec fn settings(&self) -> WorkerConfig {
        self.config
    }

    /// A worker with default configuration and no schedules.
    pub fn new(registry: Registry<H>) -> (worker: Self)
        ensures
            worker.handlers() == registry@,
            worker.schedules() == Seq::<CronJob>::empty(),
            exists|id: u128| random_id(id) && #[trigger] worker.settings().is_default(id),
    {
        let worker = Worker { registry, crons: Vec::new(), config: WorkerConfig::default() };
        assert(worker.schedules() =~= Seq::<CronJob>::empty());
        worker
    }

    /// Replaces the configuration.
    pub fn with_config(self, config: WorkerConfig) -> (worker: Self)
        ensures
            worker.handlers() == self.handlers(),
            worker.schedules() == self.schedules(),
            worker.settings() == config,
    {
        Worker { registry: self.registry, crons: self.crons, config }
    }

    /// Replaces the schedules.
    pub fn with_crons(self, crons: Vec<CronJob>) -> (worker: Self)
        ensures
            worker.handlers() == self.handlers(),
            worker.schedules() == crons@,
            worker.settings() == self.settings(),
    {
        Worker { registry: self.registry, crons, config: self.config }
    }

    /// The handlers.
    pub fn registry(&self) -> (registry: &Registry<H>)
        ensures
            registry@ == self.handlers(),
    {
        &self.registry
    }

    /// The schedules.
    pub fn crons(&self) -> (crons: &Vec<CronJob>)
        ensures
            crons@ == self.schedules(),
    {
        &self.crons
    }

    /// The configuration.
    pub fn config(&self) -> (config: &WorkerConfig)
        ensures
            *config == self.settings(),
    {
        &self.config
    }

    /// Checks that the worker can start: the configuration can work, there are handlers, each
    /// schedule's job has one, and no two schedules have the same identifier. Returns the names of
    /// the jobs that have handlers.
    pub fn check(&self) -> (result: Result<Vec<String>, WorkerError>)
        ensures
            match config_problem(self.settings()) {
                Some(problem) => result matches Err(WorkerError::InvalidConfig(message)) && message@
                    == problem,
                None => if self.handlers().dom() =~= Set::empty() {
                    result matches Err(WorkerError::EmptyRegistry)
                } else {
                    match first_refused(self.handlers(), self.schedules()) {
                        Some(place) => {
                            let cron = self.schedules()[place];
                            if !self.handlers().contains_key(cron.name@) {
                                &&& result matches Err(WorkerError::MissingCronHandler(name))
                                &&& name@ == cron.name@
                            } else {
                                &&& result matches Err(
                                    WorkerError::DuplicateCronIdentifier(identifier),
                                )
                                &&& identifier@ == cron.identifier@
                            }
                        },
                        None => {
                            &&& result matches Ok(names)
                            &&& texts(names@).no_duplicates()
                            &&& forall|name: Seq<char>|
                                texts(names@).contains(name)
                                    <==> #[trigger] self.handlers().contains_key(name)
                        },
                    }
                },
            },
            start_outcome(self.handlers(), self.schedules(), self.settings(), result),
    {
        match self.config.validate() {
            Ok(()) => {},
            Err(error) => return Err(error),
        }
        let names: Vec<String> = self.registry.names();
        if names.len() == 0 {
            assert(self.handlers().dom() =~= Set::empty()) by {
                assert forall|name: Seq<char>| !self.handlers().dom().contains(name) by {
                    assert(!texts(names@).contains(name));
                    assert(!self.handlers().contains_key(name));
                }
            }
            return Err(WorkerError::EmptyRegistry);
        }
        proof {
            assert(texts(names@)[0] == names@[0]@);
            assert(texts(names@).contains(names@[0]@));
            assert(self.handlers().contains_key(names@[0]@));
            assert(!(self.handlers().dom() =~= Set::empty()));
        }
        let ghost crons = self.crons@;
        let ghost test = |place: int| cron_refused(self.handlers(), crons, place);
        let mut i: usize = 0;
        while i < self.crons.len()
            invariant
                i <= self.crons@.len(),
                crons == self.crons@,
                crons == self.schedules(),
                config_problem(self.settings()) is None,
                !(self.handlers().dom() =~= Set::empty()),
                test == (|place: int| cron_refused(self.handlers(), crons, place)),
                forall|name: Seq<char>|
                    texts(names@).contains(name) <==> #[trigger] self.handlers().contains_key(name),
                forall|k: int| 0 <= k < i ==> !(#[trigger] test(k)),
            decreases self.crons@.len() - i,
        {
            if !holds_text(&names, self.crons[i].name.as_str()) {
                proof {
                    assert(test(i as int));
                    lemma_first_such(test, 0, crons.len() as int, i as int);
                }
                return Err(WorkerError::MissingCronHandler(self.crons[i].name.clone()));
            }
            let mut j: usize = 0;
            while j < i
                invariant
                    j <= i < self.crons@.len(),
                    crons == self.crons@,
                    crons == self.schedules(),
                    config_problem(self.settings()) is None,
                    !(self.handlers().dom() =~= Set::empty()),
                    test == (|place: int| cron_refused(self.handlers(), crons, place)),
                    self.handlers().contains_key(crons[i as int].name@),
                    forall|k: int| 0 <= k < i ==> !(#[trigger] test(k)),
                    forall|k: int|
                        0 <= k < j ==> (#[trigger] crons[k]).identifier@
                            != crons[i as int].identifier@,
                decreases i - j,
            {
                if same_text(
                    self.crons[j].identifier.as_str(),
                    self.crons[i].identifier.as_str(),
                ) {
                    proof {
                        assert(crons[j as int].identifier@ == crons[i as int].identifier@);
                        assert(repeats_identifier(crons, i as int));
                        assert(test(i as int));
                        lemma_first_such(test, 0, crons.len() as int, i as int);
                    }
                    return Err(
                        WorkerError::DuplicateCronIdentifier(self.crons[i].identifier.clone()),
                    );
                }
                j = j + 1;
            }
            assert(!test(i as int));
            i = i + 1;
        }
        proof {
            lemma_first_such(test, 0, crons.len() as int, i as int);
        }
        Ok(names)
    }

    /// The loops that the worker runs side by side.
    pub fn loops(&self) -> (loops: Vec<WorkerLoop>)
        ensures
            loops@ == worker_loops(
                self.schedules().len() > 0,
                self.settings().concurrency as int,
            ),
    {
        let mut loops: Vec<WorkerLoop> = Vec::new();
        loops.push(WorkerLoop::Heartbeat);
        loops.push(WorkerLoop::Recovery);
        loops.push(WorkerLoop::Listener);
        if self.crons.len() > 0 {
            loops.push(WorkerLoop::Cron);
        }
        let ghost kinds = loops@;
        let count: usize = if self.config.concurrency < 1 {
            1
        } else {
            self.config.concurrency
        };
        let mut index: usize = 0;
        while index < count
            invariant
                index <= count,
                loops@ == kinds + Seq::new(index as nat, |i: int| WorkerLoop::Claim(i as usize)),
            decreases count - index,
        {
            let ghost before = loops@;
            loops.push(WorkerLoop::Claim(index));
            index = index + 1;
            assert(loops@ =~= kinds + Seq::new(index as nat, |i: int| WorkerLoop::Claim(i as usize)));
        }
        assert(loops@ =~= worker_loops(
            self.schedules().len() > 0,
            self.settings().concurrency as int,
        ));
        loops
    }

    /// The places of the schedules whose occurrences come faster than they are looked at.
    pub fn too_frequent(&self) -> (places: Vec<usize>)
        ensures
            forall|k: int|
                0 <= k < places@.len() ==> (#[trigger] places@[k]) < self.schedules().len()
                    && too_frequent(self.schedules()[places@[k] as int], self.settings()),
            forall|i: int|
                0 <= i < self.schedules().len() && too_frequent(
                    #[trigger] self.schedules()[i],
                    self.settings(),
                ) ==> places@.contains(i as usize),
            forall|k: int, l: int|
                0 <= k < l < places@.len() ==> (#[trigger] places@[k]) < (#[trigger] places@[l]),
    {
        let mut places: Vec<usize> = Vec::new();
        let mut i: usize = 0;
        while i < self.crons.len()
            invariant
                i <= self.crons@.len(),
                forall|k: int|
                    0 <= k < places@.len() ==> (#[trigger] places@[k]) < i && too_frequent(
                        self.crons@[places@[k] as int],
                        self.config,
                    ),
                forall|j: int|
                    0 <= j < i && too_frequent(#[trigger] self.crons@[j], self.config)
                        ==> places@.contains(j as usize),
                forall|k: int, l: int|
                    0 <= k < l < places@.len() ==> (#[trigger] places@[k]) < (
                    #[trigger] places@[l]),
            decreases self.crons@.len() - i,
        {
            let frequent: bool = match &self.crons[i].schedule {
                CronSchedule::Interval { every } => !self.config.cron_poll_interval.at_most(*every),
                _ => false,
            };
            assert(frequent == too_frequent(self.crons@[i as int], self.config));
            if frequent {
                let ghost before = places@;
                places.push(i);
                proof {
                    assert forall|j: usize| before.contains(j) implies places@.contains(j) by {
                        let k = choose|k: int| 0 <= k < before.len() && before[k] == j;
                        assert(places@[k] == j);
                    }
                    assert(places@[before.len() as int] == i);
                }
            }
            i = i + 1;
        }
        places
    }

    /// The worker as it is being started.
    pub fn supervisor(&self) -> (supervisor: Supervisor)
        ensures
            supervisor@ == starting(self.settings().shutdown_grace_period),
    {
        Supervisor::new(self.config.shutdown_grace_period)
    }

    /// The worker's listener loop as it begins.
    pub fn listener(&self) -> (listener: Listener)
        ensures
            listener@ == listening_from(self.settings().poll_interval@),
    {
        Listener::new(self.config.poll_interval)
    }

    /// Starts the run of a job that one of the worker's claim loops has claimed.
    pub fn start_run(&self, job: &Job) -> (start: (JobRun, RunAction, RunReport))
        ensures
            run_starts(
                *job,
                self.handlers().contains_key(job.name@),
                self.settings().lock_renew_interval,
                start,
            ),
    {
        let has_handler: bool = self.registry.get(job.name.as_str()).is_some();
        JobRun::start(job, has_handler, self.config.lock_renew_interval)
    }

    /// Finds the occurrences that are due by the system's clock.
    pub fn due_now(&self) -> (round: DueRound)
        ensures
            exists|now: int| in_range(now) && #[trigger] round.is_due(self.schedules(), now),
    {
        let now: Timestamp = clock();
        let round: DueRound = due_crons(&self.crons, now);
        assert(round.is_due(self.schedules(), now@));
        round
    }

    /// Makes the lock owner of one of the worker's claim loops.
    pub fn new_lock_owner(&self, worker_index: usize) -> (owner: String)
        ensures
            exists|id: u128|
                random_id(id) && owner@ == #[trigger] lock_owner_text(
                    self.settings().worker_id@,
                    worker_index as nat,
                    id,
                ),
            lock_prefix(self.settings().worker_id@).is_prefix_of(owner@),
    {
        let id: u128 = new_id();
        lock_owner(self.config.worker_id.as_str(), worker_index, id)
    }
}

} // verus!
