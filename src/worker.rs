use vstd::prelude::*;
use vstd::arithmetic::div_mod::lemma_fundamental_div_mod;
use vstd::arithmetic::mul::lemma_mul_inequality;
use crate::config::Config;
use crate::pool::Pool;

verus! {

/// Where a worker stands in its life: it waits to start, sleeps through its
/// ramp-up delay, runs its iterations one after another, and is done.
#[derive(Clone, Copy, Debug, PartialEq, Eq, Structural)]
pub enum WorkerState {
    Pending,
    RampingUp,
    /// Iteration `iteration` has been handed out and is running.
    Running { iteration: i64 },
    Done,
}

/// What the worker asks its driver to do next.
#[derive(Clone, Copy, Debug, PartialEq, Eq, Structural)]
pub enum WorkerStep {
    /// Suspend for this many seconds before any work.
    Sleep { seconds: u64 },
    /// Run the whole plan once, against a fresh context for this iteration.
    RunIteration { iteration: i64 },
    /// All iterations are done; hand the reports back.
    Finish,
}

/// What a fresh iteration context is seeded with.
#[derive(Clone, Debug, PartialEq, Eq)]
pub struct ContextSeed {
    pub iteration: i64,
    pub base: String,
}

/// The start delay of worker `index`: the ramp-up window split evenly
/// (in whole seconds) among the workers.
pub open spec fn start_delay_of(rampup: int, concurrency: int, index: int) -> int {
    (rampup / concurrency) * index
}

/// The next state of a worker, and the step it asks for, when it is advanced
/// from `state`.
pub open spec fn transition(state: WorkerState, delay: u64, iterations: i64) -> (WorkerState, WorkerStep) {
    match state {
        WorkerState::Pending => (WorkerState::RampingUp, WorkerStep::Sleep { seconds: delay }),
        WorkerState::RampingUp => {
            if iterations > 0 {
                (WorkerState::Running { iteration: 0 }, WorkerStep::RunIteration { iteration: 0 })
            } else {
                (WorkerState::Done, WorkerStep::Finish)
            }
        },
        WorkerState::Running { iteration } => {
            if iteration + 1 < iterations {
                (
                    WorkerState::Running { iteration: (iteration + 1) as i64 },
                    WorkerStep::RunIteration { iteration: (iteration + 1) as i64 },
                )
            } else {
                (WorkerState::Done, WorkerStep::Finish)
            }
        },
        WorkerState::Done => (WorkerState::Done, WorkerStep::Finish),
    }
}

/// The steps a worker asks for over `n` successive advances from `state`.
pub open spec fn steps_from(state: WorkerState, delay: u64, iterations: i64, n: nat) -> Seq<WorkerStep>
    decreases n,
{
    if n == 0 {
        Seq::empty()
    } else {
        let (next, step) = transition(state, delay, iterations);
        seq![step] + steps_from(next, delay, iterations, (n - 1) as nat)
    }
}

/// The iterations `from..iterations`, each as a step.
pub open spec fn iteration_steps(from: int, iterations: int) -> Seq<WorkerStep> {
    Seq::new(
        (iterations - from) as nat,
        |j: int| WorkerStep::RunIteration { iteration: (from + j) as i64 },
    )
}

/// Worker 0 starts at once, whatever the ramp-up and concurrency.
pub proof fn lemma_first_worker_starts_at_once(rampup: int, concurrency: int)
    ensures
        start_delay_of(rampup, concurrency, 0) == 0,
{
}

/// Once it has handed out iteration `k`, a worker hands out the later
/// iterations one at a time, in order, and then finishes.
pub proof fn lemma_running_steps(k: i64, delay: u64, iterations: i64)
    requires
        0 <= k < iterations,
    ensures
        steps_from(WorkerState::Running { iteration: k }, delay, iterations, (iterations - k) as nat)
            == iteration_steps(k + 1, iterations as int) + seq![WorkerStep::Finish],
    decreases iterations - k,
{
    let n = (iterations - k) as nat;
    let (next, step) = transition(WorkerState::Running { iteration: k }, delay, iterations);
    if k + 1 < iterations {
        lemma_running_steps((k + 1) as i64, delay, iterations);
        assert(steps_from(WorkerState::Running { iteration: k }, delay, iterations, n)
            == seq![step] + steps_from(next, delay, iterations, (n - 1) as nat));
        assert(iteration_steps(k + 1, iterations as int) + seq![WorkerStep::Finish]
            =~= seq![step] + (iteration_steps(k + 2, iterations as int) + seq![WorkerStep::Finish]));
    } else {
        assert(steps_from(next, delay, iterations, 0) == Seq::<WorkerStep>::empty());
        assert(iteration_steps(k + 1, iterations as int) =~= Seq::<WorkerStep>::empty());
        assert(steps_from(WorkerState::Running { iteration: k }, delay, iterations, n)
            =~= seq![WorkerStep::Finish]);
    }
}

/// A fresh worker first sleeps through its start delay, then runs its
/// iterations `0..iterations` strictly one after another, then finishes:
/// iteration `k + 1` is handed out only after iteration `k` came back.
pub proof fn lemma_worker_runs_iterations_in_order(delay: u64, iterations: i64)
    requires
        iterations >= 1,
    ensures
        steps_from(WorkerState::Pending, delay, iterations, (iterations + 2) as nat)
            == seq![WorkerStep::Sleep { seconds: delay }] + iteration_steps(0, iterations as int)
            + seq![WorkerStep::Finish],
{
    let n = iterations as nat;
    lemma_running_steps(0, delay, iterations);
    let running = steps_from(WorkerState::Running { iteration: 0 }, delay, iterations, n);
    assert(steps_from(WorkerState::RampingUp, delay, iterations, n + 1)
        == seq![WorkerStep::RunIteration { iteration: 0 }] + running);
    assert(steps_from(WorkerState::Pending, delay, iterations, n + 2)
        == seq![WorkerStep::Sleep { seconds: delay }] + steps_from(WorkerState::RampingUp, delay, iterations, n + 1));
    assert(iteration_steps(0, iterations as int)
        =~= seq![WorkerStep::RunIteration { iteration: 0 }] + iteration_steps(1, iterations as int));
    assert(steps_from(WorkerState::Pending, delay, iterations, n + 2)
        =~= seq![WorkerStep::Sleep { seconds: delay }] + iteration_steps(0, iterations as int)
            + seq![WorkerStep::Finish]);
}

/// One worker: its start delay, the iterations it runs, the client pool it
/// owns for its whole life, and the reports it has gathered so far.
pub struct Worker<R> {
    pub index: i64,
    pub delay: u64,
    pub iterations: i64,
    pub state: WorkerState,
    pub pool: Pool,
    pub reports: Vec<R>,
}

impl<R> Worker<R> {
    pub open spec fn wf(&self) -> bool {
        &&& self.iterations >= 1
        &&& self.pool.wf()
        &&& self.state matches WorkerState::Running { iteration } ==> 0 <= iteration < self.iterations
    }

    /// Worker `index` of a run, not started yet, with no reports.
    pub fn new(config: &Config, index: i64) -> (w: Worker<R>)
        requires
            config.wf(),
            0 <= index < config.concurrency,
        ensures
            w.wf(),
            w.index == index,
            w.delay == start_delay_of(config.rampup as int, config.concurrency as int, index as int),
            w.iterations == config.iterations,
            w.state == WorkerState::Pending,
            w.pool.view_destinations().len() == 0,
            w.reports@.len() == 0,
    {
        let delay = start_delay(config, index);
        Worker {
            index,
            delay,
            iterations: config.iterations,
            state: WorkerState::Pending,
            pool: Pool::new(),
            reports: Vec::new(),
        }
    }

    /// Moves the worker on by one step and says what its driver must do now.
    /// An iteration is handed out only after the previous one was reported done
    /// by advancing again, so iterations run strictly one after another.
    pub fn advance(&mut self) -> (step: WorkerStep)
        requires
            old(self).wf(),
        ensures
            final(self).wf(),
            (final(self).state, step) == transition(old(self).state, old(self).delay, old(self).iterations),
            final(self).index == old(self).index,
            final(self).delay == old(self).delay,
            final(self).iterations == old(self).iterations,
            final(self).pool == old(self).pool,
            final(self).reports == old(self).reports,
    {
        let (next, step) = match self.state {
            WorkerState::Pending => (WorkerState::RampingUp, WorkerStep::Sleep { seconds: self.delay }),
            WorkerState::RampingUp => {
                if self.iterations > 0 {
                    (WorkerState::Running { iteration: 0 }, WorkerStep::RunIteration { iteration: 0 })
                } else {
                    (WorkerState::Done, WorkerStep::Finish)
                }
            },
            WorkerState::Running { iteration } => {
                if iteration < self.iterations - 1 {
                    (
                        WorkerState::Running { iteration: iteration + 1 },
                        WorkerStep::RunIteration { iteration: iteration + 1 },
                    )
                } else {
                    (WorkerState::Done, WorkerStep::Finish)
                }
            },
            WorkerState::Done => (WorkerState::Done, WorkerStep::Finish),
        };
        self.state = next;
        step
    }

    /// Appends the reports of the iteration that just ran to the worker's total.
    pub fn record(&mut self, reports: Vec<R>)
        ensures
            final(self).reports@ == old(self).reports@ + reports@,
            final(self).pool == old(self).pool,
            final(self).index == old(self).index,
            final(self).delay == old(self).delay,
            final(self).iterations == old(self).iterations,
            final(self).state == old(self).state,
    {
        let mut reports = reports;
        self.reports.append(&mut reports);
    }

    /// Hands back every report the worker gathered, in the order gathered.
    pub fn into_reports(self) -> (r: Vec<R>)
        ensures
            r@ == self.reports@,
    {
        self.reports
    }
}

impl Config {
    /// The values a fresh iteration context starts from: the iteration index
    /// and the base address, nothing carried over from any other iteration.
    pub fn context_seed(&self, iteration: i64) -> (s: ContextSeed)
        ensures
            s.iteration == iteration,
            s.base@ == self.base@,
    {
        ContextSeed { iteration, base: self.base.clone() }
    }
}

/// The delay, in seconds, before worker `index` starts: `(rampup / concurrency) * index`.
pub fn start_delay(config: &Config, index: i64) -> (r: u64)
    requires
        config.wf(),
        0 <= index < config.concurrency,
    ensures
        r == start_delay_of(config.rampup as int, config.concurrency as int, index as int),
{
    let per_worker = config.rampup / config.concurrency;
    proof {
        let q = config.rampup as int / config.concurrency as int;
        lemma_fundamental_div_mod(config.rampup as int, config.concurrency as int);
        assert(q >= 0);
        lemma_mul_inequality(index as int, config.concurrency as int, q);
        assert(q * config.concurrency <= config.rampup) by (nonlinear_arith)
            requires
                config.rampup == config.concurrency * q + config.rampup % config.concurrency,
                config.rampup % config.concurrency >= 0,
        ;
        assert(index * q <= config.concurrency * q);
        assert(0 <= index * q) by (nonlinear_arith)
            requires
                index >= 0,
                q >= 0,
        ;
        assert(per_worker == q);
        assert(per_worker * index == index * q) by (nonlinear_arith)
            requires
                per_worker == q,
        ;
    }
    (per_worker * index) as u64
}

} // verus!
