//! Keeping a worker running: when it is started anew, and how long that waits.

use vstd::prelude::*;

verus! {

/// How long a restart waits at first, in milliseconds.
pub const FIRST_DELAY_MS: u64 = 250;

/// How long a restart waits at most, in milliseconds.
pub const LAST_DELAY_MS: u64 = 5_000;

/// What is known of the worker.
#[derive(Clone, Copy, PartialEq, Eq, Structural, Debug)]
pub struct Supervisor {
    pub worker_running: bool,
    pub reload_channel_open: bool,
    pub restart_delay_ms: u64,
    pub generation: u64,
}

/// What the supervisor waits for.
#[derive(Clone, Copy, PartialEq, Eq, Structural, Debug)]
pub enum Waiting {
    /// The end of the worker, or a reload where they can come.
    ForWorker { reloads: bool },
    /// The given time, or a reload where they can come.
    ForDelay { reloads: bool, ms: u64 },
}

/// What happened while the supervisor waited.
#[derive(Clone, Copy, PartialEq, Eq, Structural, Debug)]
pub enum WaitEvent {
    ReloadRequested,
    ReloadsClosed,
    WorkerExited,
    DelayElapsed,
}

/// What is to be done next.
#[derive(Clone, Copy, PartialEq, Eq, Structural, Debug)]
pub enum NextStep {
    /// Wait on.
    Wait,
    /// Start a worker of that generation. Reloads that were asked for before are covered by it,
    /// and a worker that has ended serves no more requests.
    Start { generation: u64, drain_reloads: bool, withdraw: bool },
}

/// Whether an event can come in a state.
pub open spec fn can_happen(s: Supervisor, event: WaitEvent) -> bool {
    match event {
        WaitEvent::ReloadRequested => s.reload_channel_open,
        WaitEvent::ReloadsClosed => s.reload_channel_open,
        WaitEvent::WorkerExited => s.worker_running,
        WaitEvent::DelayElapsed => !s.worker_running,
    }
}

/// The state after an event, and what is to be done next.
pub open spec fn after_event(s: Supervisor, event: WaitEvent) -> (Supervisor, NextStep) {
    let next = (s.generation + 1) as u64;
    match event {
        WaitEvent::ReloadsClosed => (
            Supervisor { reload_channel_open: false, ..s },
            NextStep::Wait,
        ),
        WaitEvent::ReloadRequested => (
            Supervisor { generation: next, ..s },
            NextStep::Start { generation: next, drain_reloads: true, withdraw: false },
        ),
        WaitEvent::WorkerExited => (
            Supervisor { worker_running: false, generation: next, ..s },
            NextStep::Start { generation: next, drain_reloads: false, withdraw: true },
        ),
        WaitEvent::DelayElapsed => (
            Supervisor { generation: next, ..s },
            NextStep::Start { generation: next, drain_reloads: false, withdraw: false },
        ),
    }
}

/// The state after a worker was started.
pub open spec fn after_start(s: Supervisor) -> Supervisor {
    Supervisor { worker_running: true, restart_delay_ms: FIRST_DELAY_MS, ..s }
}

/// Twice a delay, but no more than the last one.
pub open spec fn longer(ms: u64) -> u64 {
    if ms * 2 < LAST_DELAY_MS {
        (ms * 2) as u64
    } else {
        LAST_DELAY_MS
    }
}

/// The state after a worker could not be started: a worker that runs goes on, and without one the
/// next attempt waits longer.
pub open spec fn after_failure(s: Supervisor) -> Supervisor {
    if s.worker_running {
        s
    } else {
        Supervisor { restart_delay_ms: longer(s.restart_delay_ms), ..s }
    }
}

/// What is waited for.
pub open spec fn waits_for(s: Supervisor) -> Waiting {
    if s.worker_running {
        Waiting::ForWorker { reloads: s.reload_channel_open }
    } else {
        Waiting::ForDelay { reloads: s.reload_channel_open, ms: s.restart_delay_ms }
    }
}

impl Supervisor {
    /// A worker of that generation has just been started.
    pub fn new(generation: u64) -> (r: Supervisor)
        ensures
            r == (Supervisor {
                worker_running: true,
                reload_channel_open: true,
                restart_delay_ms: FIRST_DELAY_MS,
                generation,
            }),
            valid_supervisor(r),
    {
        Supervisor {
            worker_running: true,
            reload_channel_open: true,
            restart_delay_ms: FIRST_DELAY_MS,
            generation,
        }
    }

    /// What to wait for.
    pub fn waiting(&self) -> (r: Waiting)
        ensures
            r == waits_for(*self),
    {
        if self.worker_running {
            Waiting::ForWorker { reloads: self.reload_channel_open }
        } else {
            Waiting::ForDelay { reloads: self.reload_channel_open, ms: self.restart_delay_ms }
        }
    }

    /// Takes an event and says what to do next.
    pub fn on_event(&mut self, event: WaitEvent) -> (r: NextStep)
        requires
            can_happen(*old(self), event),
            old(self).generation < u64::MAX,
        ensures
            (*final(self), r) == after_event(*old(self), event),
    {
        match event {
            WaitEvent::ReloadsClosed => {
                self.reload_channel_open = false;
                NextStep::Wait
            },
            WaitEvent::ReloadRequested => {
                self.generation = self.generation + 1;
                NextStep::Start {
                    generation: self.generation,
                    drain_reloads: true,
                    withdraw: false,
                }
            },
            WaitEvent::WorkerExited => {
                self.worker_running = false;
                self.generation = self.generation + 1;
                NextStep::Start {
                    generation: self.generation,
                    drain_reloads: false,
                    withdraw: true,
                }
            },
            WaitEvent::DelayElapsed => {
                self.generation = self.generation + 1;
                NextStep::Start {
                    generation: self.generation,
                    drain_reloads: false,
                    withdraw: false,
                }
            },
        }
    }

    /// Notes that a worker was started, and says whether the one before it is to be stopped.
    pub fn on_started(&mut self) -> (stop_previous: bool)
        ensures
            *final(self) == after_start(*old(self)),
            stop_previous == old(self).worker_running,
    {
        let stop_previous = self.worker_running;
        self.worker_running = true;
        self.restart_delay_ms = FIRST_DELAY_MS;
        stop_previous
    }

    /// Notes that a worker could not be started, and says whether the one before it goes on.
    pub fn on_failed(&mut self) -> (keeps_previous: bool)
        ensures
            *final(self) == after_failure(*old(self)),
            keeps_previous == old(self).worker_running,
    {
        if self.worker_running {
            return true;
        }
        self.restart_delay_ms = if self.restart_delay_ms < LAST_DELAY_MS / 2 {
            self.restart_delay_ms * 2
        } else {
            LAST_DELAY_MS
        };
        false
    }
}

/// Whether the delay is between the first and the last one.
pub open spec fn delay_bounded(s: Supervisor) -> bool {
    FIRST_DELAY_MS <= s.restart_delay_ms <= LAST_DELAY_MS
}

/// Every step keeps the delay between the first and the last one.
pub proof fn delay_stays_bounded(s: Supervisor, event: WaitEvent)
    requires
        delay_bounded(s),
    ensures
        delay_bounded(after_event(s, event).0),
        delay_bounded(after_start(s)),
        delay_bounded(after_failure(s)),
{
}

/// Every start is of a generation of its own, later than all before it.
pub proof fn generations_go_up(s: Supervisor, event: WaitEvent)
    requires
        s.generation < u64::MAX,
    ensures
        after_event(s, event).1 matches NextStep::Start { generation, .. } ==> generation
            > s.generation && after_event(s, event).0.generation == generation,
        after_start(s).generation == s.generation,
        after_failure(s).generation == s.generation,
{
}

/// A reload that fails leaves the worker that runs as it is.
pub proof fn failed_reload_keeps_worker(s: Supervisor)
    requires
        s.worker_running,
        s.reload_channel_open,
        s.generation < u64::MAX,
    ensures
        after_failure(after_event(s, WaitEvent::ReloadRequested).0).worker_running,
        after_failure(after_event(s, WaitEvent::ReloadRequested).0).restart_delay_ms
            == s.restart_delay_ms,
{
}

/// The delay after `n` restarts in a row that failed.
pub open spec fn delay_after(n: nat) -> u64
    decreases n,
{
    if n == 0 {
        FIRST_DELAY_MS
    } else {
        longer(delay_after((n - 1) as nat))
    }
}

/// Restarts that fail in a row wait twice as long each time, up to five seconds, and from the
/// fifth on all wait as long.
pub proof fn delays_double(n: nat)
    ensures
        delay_after(0) == 250,
        delay_after(1) == 500,
        delay_after(2) == 1_000,
        delay_after(3) == 2_000,
        delay_after(4) == 4_000,
        n >= 5 ==> delay_after(n) == 5_000,
    decreases n,
{
    reveal_with_fuel(delay_after, 6);
    if n > 5 {
        delays_double((n - 1) as nat);
    }
}

/// The state of a supervisor whose worker ended in `s`, after `n` attempts in a row to start another
/// that failed: the first at once, each of the others when the delay was over.
pub open spec fn after_failures(s: Supervisor, n: nat) -> Supervisor
    recommends
        n > 0,
    decreases n,
{
    if n <= 1 {
        after_failure(after_event(s, WaitEvent::WorkerExited).0)
    } else {
        after_failure(
            after_event(after_failures(s, (n - 1) as nat), WaitEvent::DelayElapsed).0,
        )
    }
}

/// Whether a supervisor with a worker that runs has the first delay, and one without a delay
/// between the first and the last one.
pub open spec fn valid_supervisor(s: Supervisor) -> bool {
    delay_bounded(s) && (s.worker_running ==> s.restart_delay_ms == FIRST_DELAY_MS)
}

/// A worker that runs has the first delay ahead of it, whatever came before: so it is at first, and
/// every step keeps it so.
pub proof fn running_has_first_delay(s: Supervisor, event: WaitEvent)
    requires
        valid_supervisor(s),
    ensures
        valid_supervisor(after_event(s, event).0),
        valid_supervisor(after_start(s)),
        valid_supervisor(after_failure(s)),
        after_start(s).restart_delay_ms == FIRST_DELAY_MS,
{
}

/// When the worker ends it serves no more requests, and another is started at once. After `n`
/// attempts in a row that failed the next one waits for `delay_after(n)`, and is of the next
/// generation.
pub proof fn failures_wait_longer(s: Supervisor, n: nat)
    requires
        valid_supervisor(s),
        s.worker_running,
        n > 0,
        s.generation + n < u64::MAX,
    ensures
        after_event(s, WaitEvent::WorkerExited).1 == (NextStep::Start {
            generation: (s.generation + 1) as u64,
            drain_reloads: false,
            withdraw: true,
        }),
        after_failures(s, n) == (Supervisor {
            worker_running: false,
            restart_delay_ms: delay_after(n),
            generation: (s.generation + n) as u64,
            ..s
        }),
        after_event(after_failures(s, n), WaitEvent::DelayElapsed).1 == (NextStep::Start {
            generation: (s.generation + n + 1) as u64,
            drain_reloads: false,
            withdraw: false,
        }),
    decreases n,
{
    reveal_with_fuel(delay_after, 2);
    if n > 1 {
        failures_wait_longer(s, (n - 1) as nat);
    }
}

/// A reload cuts the wait for the next attempt short: a worker is started at once, and reloads
/// that were asked for before are covered by it. Where it starts, the first delay is ahead again;
/// where it fails, the wait is that after one more failure.
pub proof fn reload_cuts_wait_short(s: Supervisor, n: nat)
    requires
        valid_supervisor(s),
        s.worker_running,
        s.reload_channel_open,
        n > 0,
        s.generation + n < u64::MAX,
    ensures
        ({
            let (waiting, step) = after_event(after_failures(s, n), WaitEvent::ReloadRequested);
            &&& step == (NextStep::Start {
                generation: (s.generation + n + 1) as u64,
                drain_reloads: true,
                withdraw: false,
            })
            &&& after_start(waiting) == (Supervisor {
                generation: (s.generation + n + 1) as u64,
                restart_delay_ms: FIRST_DELAY_MS,
                ..s
            })
            &&& after_failure(waiting).restart_delay_ms == delay_after(n + 1)
        }),
{
    failures_wait_longer(s, n);
}

/// What is to be done next is decided by what happened: a reload, the end of the worker and the end
/// of a wait start a worker of the next generation, and where no more reloads can come the wait goes
/// on. Only the end of the worker leaves none running, and only no more reloads closes their way.
pub proof fn event_decides_next_step(s: Supervisor, event: WaitEvent)
    requires
        s.generation < u64::MAX,
    ensures
        ({
            let (after, step) = after_event(s, event);
            let next = (s.generation + 1) as u64;
            &&& event == WaitEvent::ReloadsClosed <==> step == NextStep::Wait
            &&& event != WaitEvent::ReloadsClosed ==> step == (NextStep::Start {
                generation: next,
                drain_reloads: event == WaitEvent::ReloadRequested,
                withdraw: event == WaitEvent::WorkerExited,
            })
            &&& after.worker_running == (s.worker_running && event != WaitEvent::WorkerExited)
            &&& after.reload_channel_open == (s.reload_channel_open && event
                != WaitEvent::ReloadsClosed)
            &&& after.restart_delay_ms == s.restart_delay_ms
            &&& after.generation == if event == WaitEvent::ReloadsClosed {
                s.generation
            } else {
                next
            }
        }),
{
}

/// While a worker runs its end is waited for, and else the delay; reloads are heard while they can
/// come.
pub proof fn waits_for_worker_or_delay(s: Supervisor)
    ensures
        s.worker_running <==> waits_for(s) is ForWorker,
        s.worker_running ==> waits_for(s)->ForWorker_reloads == s.reload_channel_open,
        !s.worker_running ==> waits_for(s)->ForDelay_reloads == s.reload_channel_open && waits_for(
            s,
        )->ms == s.restart_delay_ms,
{
}

} // verus!
