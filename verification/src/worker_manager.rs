//! The worker pool of the device manager: which worker takes a job, and
//! what a worker's answer means. The workers themselves run elsewhere.
use crate::socket_addr::{lemma_next_pos_found, lemma_next_pos_none, next_pos};
use crate::text_num::{
    digit_of, lemma_num_round_trip, num_digits, parse_plus_num, parse_plus_number, push_number,
};
use vstd::prelude::*;

verus! {

/// Where the worker manager listens for the workers' answers.
pub const WORKER_MANAGER_LISTEN_ADDR: &'static str = "0.0.0.0:1223";

/// Where the control manager listens for commands.
pub const CONTROL_MANAGER_LISTEN_ADDR: &'static str = "0.0.0.0:1224";

/// Seconds after which idle workers are killed.
pub const WORKER_MAX_IDLE_INTERVAL: u64 = 1;

/// State of a worker.
#[derive(Clone, Copy, PartialEq, Eq, Debug, Structural)]
pub enum WorkerState {
    Undef,
    Idle,
    Running,
    /// No job is given to the worker any more; its answer is awaited.
    Killing,
    /// The worker is dead and waits to be taken off the list.
    Killed,
}

/// What is sent to a worker.
#[derive(Clone, Copy, PartialEq, Eq, Debug, Structural)]
pub enum WorkerMessage {
    /// Process the device whose event has the sequence number given.
    Job { seqnum: u64 },
    /// Stop.
    Kill,
}

/// A worker.
#[derive(Clone, Copy, PartialEq, Eq, Debug, Structural)]
pub struct Worker {
    pub id: u32,
    pub state: WorkerState,
    /// The sequence number of the job that the worker is bound to.
    pub device_job: Option<u64>,
}

/// What an answer of a worker says.
#[derive(Clone, Copy, PartialEq, Eq, Debug, Structural)]
pub enum WorkerAck {
    Killed { id: u32 },
    Finished { id: u32 },
}

/// What a command to the control manager asks for.
#[derive(Clone, Copy, PartialEq, Eq, Debug, Structural)]
pub enum ControlCmd {
    /// Queue a job for the device named from `name_start` up to
    /// `name_end` in the command.
    Test { name_start: usize, name_end: usize },
    /// Start the timer that kills the workers.
    Kill,
}

/// Something to do about a worker.
#[derive(Clone, Copy, PartialEq, Eq, Debug, Structural)]
pub enum WorkerOp {
    /// Start the thread of a new worker.
    Spawn { id: u32 },
    Send { id: u32, message: WorkerMessage },
    /// Wait for the thread of a worker that has stopped.
    Join { id: u32 },
    /// Free the job with the sequence number given and start the queue
    /// again.
    JobFree { seqnum: u64 },
}

/// The name of a state.
pub open spec fn worker_state_name(state: WorkerState) -> Seq<char> {
    match state {
        WorkerState::Undef => "Undef"@,
        WorkerState::Idle => "Idle"@,
        WorkerState::Running => "Running"@,
        WorkerState::Killing => "Killing"@,
        WorkerState::Killed => "Killed"@,
    }
}

impl WorkerState {
    /// The name of the state.
    pub fn name(self) -> (r: &'static str)
        ensures
            r@ == worker_state_name(self),
    {
        match self {
            WorkerState::Undef => "Undef",
            WorkerState::Idle => "Idle",
            WorkerState::Running => "Running",
            WorkerState::Killing => "Killing",
            WorkerState::Killed => "Killed",
        }
    }
}

/// The place of the first worker among the first `upto` that has the
/// identifier `id`.
pub open spec fn worker_index(workers: Seq<Worker>, id: u32, upto: int) -> Option<int>
    decreases upto,
{
    if upto <= 0 || upto > workers.len() {
        None
    } else {
        match worker_index(workers, id, upto - 1) {
            Some(i) => Some(i),
            None => if workers[upto - 1].id == id {
                Some(upto - 1)
            } else {
                None
            },
        }
    }
}

/// The place of the first idle worker among the first `upto`.
pub open spec fn idle_index(workers: Seq<Worker>, upto: int) -> Option<int>
    decreases upto,
{
    if upto <= 0 || upto > workers.len() {
        None
    } else {
        match idle_index(workers, upto - 1) {
            Some(i) => Some(i),
            None => if workers[upto - 1].state == WorkerState::Idle {
                Some(upto - 1)
            } else {
                None
            },
        }
    }
}

/// The smallest identifier from `from` up to `capacity` that no worker
/// has.
pub open spec fn free_id(workers: Seq<Worker>, from: u32, capacity: u32) -> Option<u32>
    decreases capacity - from,
{
    if from >= capacity {
        None
    } else if worker_index(workers, from, workers.len() as int) is None {
        Some(from)
    } else {
        free_id(workers, (from + 1) as u32, capacity)
    }
}

/// No two workers share an identifier.
pub open spec fn ids_unique(workers: Seq<Worker>) -> bool {
    forall|i: int, j: int|
        0 <= i < j < workers.len() ==> (#[trigger] workers[i]).id != (#[trigger] workers[j]).id
}

/// The workers after a job with the sequence number `seqnum` has been
/// handed out, and the worker that took it: the first idle worker, or,
/// where none is idle and the pool has room, a new worker with the
/// smallest free identifier.
pub open spec fn dispatched(workers: Seq<Worker>, capacity: u32, seqnum: u64) -> Option<
    (Seq<Worker>, u32),
> {
    match idle_index(workers, workers.len() as int) {
        Some(i) => Some(
            (
                workers.update(i, Worker { state: WorkerState::Running, ..workers[i] }),
                workers[i].id,
            ),
        ),
        None => if workers.len() < capacity {
            match free_id(workers, 0, capacity) {
                Some(id) => Some(
                    (
                        workers.push(
                            Worker { id, state: WorkerState::Running, device_job: None },
                        ),
                        id,
                    ),
                ),
                None => None,
            }
        } else {
            None
        },
    }
}

/// What the answer `ack` says, if it is an answer: the word `killed` or
/// `finished`, one blank, and the worker's identifier in decimal.
pub open spec fn parse_ack(ack: Seq<u8>) -> Option<WorkerAck> {
    let blank = next_pos(ack, 32, 0);
    if blank >= ack.len() || next_pos(ack, 32, blank + 1) < ack.len() {
        None
    } else {
        match parse_plus_num(ack.subrange(blank + 1, ack.len() as int), 0xffff_ffff) {
            None => None,
            Some(id) => if ack.subrange(0, blank) == seq![107u8, 105, 108, 108, 101, 100] {
                Some(WorkerAck::Killed { id: id as u32 })
            } else if ack.subrange(0, blank) == seq![
                102u8,
                105,
                110,
                105,
                115,
                104,
                101,
                100,
            ] {
                Some(WorkerAck::Finished { id: id as u32 })
            } else {
                None
            },
        }
    }
}

/// What the command `cmd` asks for, if anything: `test`, a blank and
/// the name of a device, which ends at the next blank, or `kill`, a
/// blank and anything.
pub open spec fn parse_cmd(cmd: Seq<u8>) -> Option<ControlCmd> {
    let blank = next_pos(cmd, 32, 0);
    if blank >= cmd.len() {
        None
    } else if cmd.subrange(0, blank) == seq![116u8, 101, 115, 116] {
        Some(
            ControlCmd::Test {
                name_start: (blank + 1) as usize,
                name_end: next_pos(cmd, 32, blank + 1) as usize,
            },
        )
    } else if cmd.subrange(0, blank) == seq![107u8, 105, 108, 108] {
        Some(ControlCmd::Kill)
    } else {
        None
    }
}

proof fn lemma_worker_index(workers: Seq<Worker>, id: u32, upto: int)
    requires
        0 <= upto <= workers.len(),
    ensures
        match worker_index(workers, id, upto) {
            Some(i) => 0 <= i < upto && workers[i].id == id,
            None => forall|k: int| 0 <= k < upto ==> (#[trigger] workers[k]).id != id,
        },
    decreases upto,
{
    if upto > 0 {
        lemma_worker_index(workers, id, upto - 1);
    }
}

proof fn lemma_worker_index_found(workers: Seq<Worker>, id: u32, i: int, upto: int)
    requires
        0 <= i < upto <= workers.len(),
        worker_index(workers, id, i) is None,
        workers[i].id == id,
    ensures
        worker_index(workers, id, upto) == Some(i),
    decreases upto - i,
{
    if upto > i + 1 {
        lemma_worker_index_found(workers, id, i, upto - 1);
    }
}

proof fn lemma_idle_index_found(workers: Seq<Worker>, i: int, upto: int)
    requires
        0 <= i < upto <= workers.len(),
        idle_index(workers, i) is None,
        workers[i].state == WorkerState::Idle,
    ensures
        idle_index(workers, upto) == Some(i),
    decreases upto - i,
{
    if upto > i + 1 {
        lemma_idle_index_found(workers, i, upto - 1);
    }
}

fn range_is(bytes: &[u8], end: usize, word: &Vec<u8>) -> (r: bool)
    requires
        end <= bytes@.len(),
    ensures
        r == (bytes@.subrange(0, end as int) == word@),
{
    if end != word.len() {
        return false;
    }
    let mut i: usize = 0;
    while i < end
        invariant
            i <= end <= bytes@.len(),
            end == word@.len(),
            forall|k: int| 0 <= k < i ==> bytes@[k] == word@[k],
        decreases end - i,
    {
        if bytes[i] != word[i] {
            proof {
                assert(bytes@.subrange(0, end as int)[i as int] != word@[i as int]);
            }
            return false;
        }
        i += 1;
    }
    proof {
        assert(bytes@.subrange(0, end as int) =~= word@);
    }
    true
}

fn find_blank(bytes: &[u8], from: usize) -> (r: usize)
    ensures
        r == next_pos(bytes@, 32, from as int),
        r <= bytes@.len(),
        from <= r || r == bytes@.len(),
{
    let mut i: usize = from;
    while i < bytes.len()
        invariant
            from <= i,
            next_pos(bytes@, 32, from as int) == next_pos(bytes@, 32, i as int),
        decreases bytes.len() - i,
    {
        if bytes[i] == 32 {
            return i;
        }
        i += 1;
    }
    bytes.len()
}

/// Reads the answer of a worker.
pub fn parse_worker_ack(ack: &[u8]) -> (r: Option<WorkerAck>)
    ensures
        r == parse_ack(ack@),
{
    let blank = find_blank(ack, 0);
    if blank >= ack.len() {
        return None;
    }
    if find_blank(ack, blank + 1) < ack.len() {
        return None;
    }
    let id = match parse_plus_number(ack, blank + 1, ack.len(), 0xffff_ffff) {
        Some(id) => id,
        None => {
            return None;
        },
    };
    let killed: Vec<u8> = vec![107u8, 105, 108, 108, 101, 100];
    let finished: Vec<u8> = vec![102u8, 105, 110, 105, 115, 104, 101, 100];
    proof {
        assert(killed@ =~= seq![107u8, 105, 108, 108, 101, 100]);
        assert(finished@ =~= seq![102u8, 105, 110, 105, 115, 104, 101, 100]);
    }
    if range_is(ack, blank, &killed) {
        Some(WorkerAck::Killed { id })
    } else if range_is(ack, blank, &finished) {
        Some(WorkerAck::Finished { id })
    } else {
        None
    }
}

/// Reads a command to the control manager.
pub fn parse_control_cmd(cmd: &[u8]) -> (r: Option<ControlCmd>)
    ensures
        r == parse_cmd(cmd@),
{
    let blank = find_blank(cmd, 0);
    if blank >= cmd.len() {
        return None;
    }
    let test: Vec<u8> = vec![116u8, 101, 115, 116];
    let kill: Vec<u8> = vec![107u8, 105, 108, 108];
    proof {
        assert(test@ =~= seq![116u8, 101, 115, 116]);
        assert(kill@ =~= seq![107u8, 105, 108, 108]);
    }
    if range_is(cmd, blank, &test) {
        Some(ControlCmd::Test { name_start: blank + 1, name_end: find_blank(cmd, blank + 1) })
    } else if range_is(cmd, blank, &kill) {
        Some(ControlCmd::Kill)
    } else {
        None
    }
}

/// The worker manager.
pub struct WorkerManager {
    workers_capacity: u32,
    workers: Vec<Worker>,
    /// The timer that kills the workers, once it is made.
    kill_idle_workers: Option<WorkerManagerKillWorkers>,
    /// Whether that timer runs.
    kill_timer: bool,
}

impl WorkerManager {
    pub closed spec fn capacity(&self) -> u32 {
        self.workers_capacity
    }

    /// The workers, in the order in which they were created.
    pub closed spec fn workers(&self) -> Seq<Worker> {
        self.workers@
    }

    /// Whether the timer that kills the workers runs.
    pub closed spec fn kill_timer(&self) -> bool {
        self.kill_timer
    }

    /// The timer that kills the workers, once it is made.
    pub closed spec fn timer(&self) -> Option<WorkerManagerKillWorkers> {
        self.kill_idle_workers
    }

    /// No two workers share an identifier.
    pub open spec fn wf(&self) -> bool {
        ids_unique(self.workers())
    }

    /// A pool of at most `workers_capacity` workers, with none yet and
    /// without a timer.
    pub fn new(workers_capacity: u32) -> (r: WorkerManager)
        ensures
            r.capacity() == workers_capacity,
            r.workers().len() == 0,
            r.timer() is None,
            !r.kill_timer(),
            r.wf(),
    {
        WorkerManager {
            workers_capacity,
            workers: Vec::new(),
            kill_idle_workers: None,
            kill_timer: false,
        }
    }

    /// Makes the timer that kills the workers: it runs out after
    /// [`WORKER_MAX_IDLE_INTERVAL`] seconds. It does not run yet.
    pub fn set_kill_workers_timer(&mut self)
        ensures
            final(self).timer() == Some(WorkerManagerKillWorkers::of(WORKER_MAX_IDLE_INTERVAL)),
            final(self).kill_timer() == old(self).kill_timer(),
            final(self).workers() == old(self).workers(),
            final(self).capacity() == old(self).capacity(),
    {
        self.kill_idle_workers = Some(WorkerManagerKillWorkers::new(WORKER_MAX_IDLE_INTERVAL));
    }

    /// The timer that kills the workers, once it is made.
    pub fn get_kill_workers_timer(&self) -> (r: Option<WorkerManagerKillWorkers>)
        ensures
            r == self.timer(),
    {
        self.kill_idle_workers
    }

    /// Whether the timer that kills the workers runs.
    pub fn kill_workers_timer_runs(&self) -> (r: bool)
        ensures
            r == self.kill_timer(),
    {
        self.kill_timer
    }

    /// Starts the timer that kills the workers, anew where it runs.
    pub fn start_kill_workers_timer(&mut self)
        requires
            old(self).timer() is Some,
        ensures
            final(self).kill_timer(),
            final(self).timer() == old(self).timer(),
            final(self).workers() == old(self).workers(),
            final(self).capacity() == old(self).capacity(),
    {
        self.kill_timer = true;
    }

    /// Stops the timer that kills the workers.
    pub fn stop_kill_workers_timer(&mut self)
        requires
            old(self).timer() is Some,
        ensures
            !final(self).kill_timer(),
            final(self).timer() == old(self).timer(),
            final(self).workers() == old(self).workers(),
            final(self).capacity() == old(self).capacity(),
    {
        self.kill_timer = false;
    }

    /// The workers, in the order in which they were created.
    pub fn get_workers(&self) -> (r: &Vec<Worker>)
        ensures
            r@ == self.workers(),
    {
        &self.workers
    }

    fn find(&self, id: u32) -> (r: Option<usize>)
        ensures
            match r {
                Some(i) => i < self.workers().len() && self.workers()[i as int].id == id
                    && worker_index(self.workers(), id, self.workers().len() as int) == Some(
                    i as int,
                ),
                None => worker_index(self.workers(), id, self.workers().len() as int) is None,
            },
    {
        let mut i: usize = 0;
        while i < self.workers.len()
            invariant
                i <= self.workers.len(),
                worker_index(self.workers@, id, i as int) is None,
            decreases self.workers.len() - i,
        {
            if self.workers[i].id == id {
                proof {
                    lemma_worker_index_found(self.workers@, id, i as int, self.workers@.len() as int);
                }
                return Some(i);
            }
            i += 1;
        }
        None
    }

    /// Creates an idle worker with the smallest identifier that is free
    /// and below the capacity, and returns the identifier.
    pub fn create_new_worker(&mut self) -> (r: Option<u32>)
        requires
            old(self).wf(),
        ensures
            final(self).wf(),
            final(self).capacity() == old(self).capacity(),
            final(self).kill_timer() == old(self).kill_timer(),
            final(self).timer() == old(self).timer(),
            r == free_id(old(self).workers(), 0, old(self).capacity()),
            match r {
                Some(id) => final(self).workers() == old(self).workers().push(
                    Worker { id, state: WorkerState::Idle, device_job: None },
                ),
                None => final(self).workers() == old(self).workers(),
            },
    {
        let mut id: u32 = 0;
        while id < self.workers_capacity
            invariant
                id <= self.workers_capacity,
                self.workers@ == old(self).workers@,
                self.workers_capacity == old(self).workers_capacity,
                self.kill_timer == old(self).kill_timer,
                self.kill_idle_workers == old(self).kill_idle_workers,
                ids_unique(self.workers@),
                free_id(self.workers@, 0, self.workers_capacity) == free_id(
                    self.workers@,
                    id,
                    self.workers_capacity,
                ),
            decreases self.workers_capacity - id,
        {
            if self.find(id).is_none() {
                proof {
                    lemma_worker_index(self.workers@, id, self.workers@.len() as int);
                }
                self.workers.push(Worker { id, state: WorkerState::Idle, device_job: None });
                return Some(id);
            }
            id += 1;
        }
        None
    }

    /// Hands the job with the sequence number `seqnum` to a worker and
    /// says what is to be done for it; the worker's identifier comes
    /// with it. Fails where no worker is idle and the pool is full.
    pub fn job_dispatch(&mut self, seqnum: u64) -> (r: Option<(u32, Vec<WorkerOp>)>)
        requires
            old(self).wf(),
        ensures
            final(self).wf(),
            final(self).capacity() == old(self).capacity(),
            final(self).kill_timer() == old(self).kill_timer(),
            final(self).timer() == old(self).timer(),
            match dispatched(old(self).workers(), old(self).capacity(), seqnum) {
                None => r is None && final(self).workers() == old(self).workers(),
                Some((workers, id)) => final(self).workers() == workers && match r {
                    None => false,
                    Some((taker, ops)) => taker == id && ops@ == if idle_index(
                        old(self).workers(),
                        old(self).workers().len() as int,
                    ) is Some {
                        seq![WorkerOp::Send { id, message: WorkerMessage::Job { seqnum } }]
                    } else {
                        seq![
                            WorkerOp::Spawn { id },
                            WorkerOp::Send { id, message: WorkerMessage::Job { seqnum } },
                        ]
                    },
                },
            },
    {
        let mut i: usize = 0;
        while i < self.workers.len()
            invariant
                i <= self.workers.len(),
                self.workers@ == old(self).workers@,
                self.workers_capacity == old(self).workers_capacity,
                self.kill_timer == old(self).kill_timer,
                self.kill_idle_workers == old(self).kill_idle_workers,
                ids_unique(self.workers@),
                idle_index(self.workers@, i as int) is None,
            decreases self.workers.len() - i,
        {
            let worker = self.workers[i];
            if worker.state == WorkerState::Idle {
                proof {
                    lemma_idle_index_found(self.workers@, i as int, self.workers@.len() as int);
                }
                self.workers.set(
                    i,
                    Worker {
                        id: worker.id,
                        state: WorkerState::Running,
                        device_job: worker.device_job,
                    },
                );
                let mut ops: Vec<WorkerOp> = Vec::new();
                ops.push(WorkerOp::Send { id: worker.id, message: WorkerMessage::Job { seqnum } });
                return Some((worker.id, ops));
            }
            i += 1;
        }
        if self.workers.len() < self.workers_capacity as usize {
            if let Some(id) = self.create_new_worker() {
                let last = self.workers.len() - 1;
                self.workers.set(
                    last,
                    Worker { id, state: WorkerState::Running, device_job: None },
                );
                proof {
                    assert(self.workers@ =~= old(self).workers@.push(
                        Worker { id, state: WorkerState::Running, device_job: None },
                    ));
                    lemma_worker_index(old(self).workers@, id, old(self).workers@.len() as int);
                    lemma_free_id(old(self).workers@, 0, old(self).workers_capacity);
                }
                let mut ops: Vec<WorkerOp> = Vec::new();
                ops.push(WorkerOp::Spawn { id });
                ops.push(WorkerOp::Send { id, message: WorkerMessage::Job { seqnum } });
                return Some((id, ops));
            }
        }
        None
    }

    /// Binds the worker with the identifier `id` to the job with the
    /// sequence number `seqnum`. Says whether there is such a worker.
    pub fn bind(&mut self, id: u32, seqnum: u64) -> (known: bool)
        ensures
            final(self).capacity() == old(self).capacity(),
            final(self).kill_timer() == old(self).kill_timer(),
            final(self).timer() == old(self).timer(),
            match worker_index(old(self).workers(), id, old(self).workers().len() as int) {
                Some(i) => known && final(self).workers() == old(self).workers().update(
                    i,
                    Worker { device_job: Some(seqnum), ..old(self).workers()[i] },
                ),
                None => !known && final(self).workers() == old(self).workers(),
            },
            old(self).wf() ==> final(self).wf(),
    {
        match self.find(id) {
            Some(i) => {
                let worker = self.workers[i];
                self.workers.set(
                    i,
                    Worker { id: worker.id, state: worker.state, device_job: Some(seqnum) },
                );
                true
            },
            None => false,
        }
    }

    /// Acts on the answer of a worker. A worker that has stopped is
    /// taken off the list and its thread is waited for. A worker that
    /// has finished is idle again, and the job it was bound to is freed.
    /// An answer that is none, or that names no worker, changes nothing.
    pub fn worker_response_dispose(&mut self, ack: &[u8]) -> (r: Vec<WorkerOp>)
        ensures
            final(self).capacity() == old(self).capacity(),
            final(self).kill_timer() == old(self).kill_timer(),
            final(self).timer() == old(self).timer(),
            old(self).wf() ==> final(self).wf(),
            match parse_ack(ack@) {
                None => r@.len() == 0 && final(self).workers() == old(self).workers(),
                Some(WorkerAck::Killed { id }) => match worker_index(
                    old(self).workers(),
                    id,
                    old(self).workers().len() as int,
                ) {
                    Some(i) => final(self).workers() == old(self).workers().remove(i) && r@
                        == seq![WorkerOp::Join { id }],
                    None => r@.len() == 0 && final(self).workers() == old(self).workers(),
                },
                Some(WorkerAck::Finished { id }) => match worker_index(
                    old(self).workers(),
                    id,
                    old(self).workers().len() as int,
                ) {
                    Some(i) => final(self).workers() == old(self).workers().update(
                        i,
                        Worker {
                            state: WorkerState::Idle,
                            device_job: None,
                            ..old(self).workers()[i]
                        },
                    ) && r@ == match old(self).workers()[i].device_job {
                        Some(seqnum) => seq![WorkerOp::JobFree { seqnum }],
                        None => Seq::<WorkerOp>::empty(),
                    },
                    None => r@.len() == 0 && final(self).workers() == old(self).workers(),
                },
            },
    {
        let mut ops: Vec<WorkerOp> = Vec::new();
        match parse_worker_ack(ack) {
            None => {},
            Some(WorkerAck::Killed { id }) => {
                if let Some(i) = self.find(id) {
                    self.workers.remove(i);
                    ops.push(WorkerOp::Join { id });
                }
            },
            Some(WorkerAck::Finished { id }) => {
                if let Some(i) = self.find(id) {
                    let worker = self.workers[i];
                    self.workers.set(
                        i,
                        Worker { id: worker.id, state: WorkerState::Idle, device_job: None },
                    );
                    if let Some(seqnum) = worker.device_job {
                        ops.push(WorkerOp::JobFree { seqnum });
                    }
                }
            },
        }
        ops
    }

    /// Sets the state of the worker with the identifier `id`. Says
    /// whether there is such a worker.
    pub fn set_worker_state(&mut self, id: u32, state: WorkerState) -> (known: bool)
        ensures
            final(self).capacity() == old(self).capacity(),
            final(self).kill_timer() == old(self).kill_timer(),
            final(self).timer() == old(self).timer(),
            match worker_index(old(self).workers(), id, old(self).workers().len() as int) {
                Some(i) => known && final(self).workers() == old(self).workers().update(
                    i,
                    Worker { state, ..old(self).workers()[i] },
                ),
                None => !known && final(self).workers() == old(self).workers(),
            },
            old(self).wf() ==> final(self).wf(),
    {
        match self.find(id) {
            Some(i) => {
                let worker = self.workers[i];
                self.workers.set(
                    i,
                    Worker { id: worker.id, state, device_job: worker.device_job },
                );
                true
            },
            None => false,
        }
    }

    /// Tells every worker to stop: each is marked as being killed and
    /// sent the message, in order.
    pub fn manager_kill_workers(&mut self) -> (r: Vec<WorkerOp>)
        ensures
            final(self).capacity() == old(self).capacity(),
            final(self).kill_timer() == old(self).kill_timer(),
            final(self).timer() == old(self).timer(),
            final(self).workers() == Seq::new(
                old(self).workers().len(),
                |i: int| Worker { state: WorkerState::Killing, ..old(self).workers()[i] },
            ),
            r@ == Seq::new(
                old(self).workers().len(),
                |i: int| WorkerOp::Send { id: old(self).workers()[i].id, message: WorkerMessage::Kill },
            ),
            old(self).wf() ==> final(self).wf(),
    {
        let mut ops: Vec<WorkerOp> = Vec::new();
        let mut i: usize = 0;
        while i < self.workers.len()
            invariant
                i <= self.workers.len(),
                self.workers@.len() == old(self).workers@.len(),
                self.workers_capacity == old(self).workers_capacity,
                self.kill_timer == old(self).kill_timer,
                self.kill_idle_workers == old(self).kill_idle_workers,
                forall|k: int|
                    0 <= k < i ==> self.workers@[k] == (Worker {
                        state: WorkerState::Killing,
                        ..old(self).workers@[k]
                    }),
                forall|k: int| i <= k < self.workers@.len() ==> self.workers@[k] == old(self).workers@[k],
                ops@ == Seq::new(
                    i as nat,
                    |k: int|
                        WorkerOp::Send { id: old(self).workers@[k].id, message: WorkerMessage::Kill },
                ),
            decreases self.workers.len() - i,
        {
            let worker = self.workers[i];
            self.workers.set(
                i,
                Worker { id: worker.id, state: WorkerState::Killing, device_job: worker.device_job },
            );
            ops.push(WorkerOp::Send { id: worker.id, message: WorkerMessage::Kill });
            proof {
                assert(ops@ =~= Seq::new(
                    (i + 1) as nat,
                    |k: int|
                        WorkerOp::Send { id: old(self).workers@[k].id, message: WorkerMessage::Kill },
                ));
            }
            i += 1;
        }
        proof {
            assert(self.workers@ =~= Seq::new(
                old(self).workers().len(),
                |i: int| Worker { state: WorkerState::Killing, ..old(self).workers()[i] },
            ));
        }
        ops
    }
}

/// An identifier that [`free_id`] finds is free, and below it none is.
proof fn lemma_free_id(workers: Seq<Worker>, from: u32, capacity: u32)
    ensures
        match free_id(workers, from, capacity) {
            Some(id) => from <= id < capacity && worker_index(
                workers,
                id,
                workers.len() as int,
            ) is None,
            None => true,
        },
    decreases capacity - from,
{
    if from < capacity && worker_index(workers, from, workers.len() as int) is Some {
        lemma_free_id(workers, (from + 1) as u32, capacity);
    }
}

/// The timer that kills the workers.
#[derive(Clone, Copy, PartialEq, Eq, Debug, Structural)]
pub struct WorkerManagerKillWorkers {
    /// Seconds until the timer runs out.
    time: u64,
}

impl WorkerManagerKillWorkers {
    pub closed spec fn time(&self) -> u64 {
        self.time
    }

    /// The timer that runs out after `time` seconds.
    pub closed spec fn of(time: u64) -> WorkerManagerKillWorkers {
        WorkerManagerKillWorkers { time }
    }

    pub fn new(time: u64) -> (r: WorkerManagerKillWorkers)
        ensures
            r == WorkerManagerKillWorkers::of(time),
            r.time() == time,
    {
        WorkerManagerKillWorkers { time }
    }

    /// The priority of the timer among the sources of the event loop;
    /// smaller comes first.
    pub fn priority(&self) -> (r: i8)
        ensures
            r == -55,
    {
        -55
    }

    /// Microseconds until the timer runs out, unless they are more than
    /// 64 bits hold.
    pub fn time_relative(&self) -> (r: Option<u64>)
        ensures
            r == if self.time() * 1000000 <= u64::MAX {
                Some((self.time() * 1000000) as u64)
            } else {
                None
            },
    {
        self.time.checked_mul(1000000)
    }
}

/// Takes commands for the device manager.
pub struct ControlManager {}

impl ControlManager {
    pub fn new() -> (r: ControlManager) {
        ControlManager {  }
    }

    /// The priority of the control manager among the sources of the
    /// event loop; smaller comes first.
    pub fn priority(&self) -> (r: i8)
        ensures
            r == -50,
    {
        -50
    }

    /// What the command `cmd` asks for: see [`parse_cmd`].
    pub fn cmd_process(&self, cmd: &[u8]) -> (r: Option<ControlCmd>)
        ensures
            r == parse_cmd(cmd@),
    {
        parse_control_cmd(cmd)
    }
}

/// The word `killed` and a blank.
pub open spec fn killed_word() -> Seq<u8> {
    seq![107u8, 105, 108, 108, 101, 100, 32]
}

/// The word `finished` and a blank.
pub open spec fn finished_word() -> Seq<u8> {
    seq![102u8, 105, 110, 105, 115, 104, 101, 100, 32]
}

/// What a worker writes to the manager to say `ack`: the word, a blank
/// and its identifier in decimal.
pub open spec fn ack_text(ack: WorkerAck) -> Seq<u8> {
    match ack {
        WorkerAck::Killed { id } => killed_word() + num_digits(id as nat, false),
        WorkerAck::Finished { id } => finished_word() + num_digits(id as nat, false),
    }
}

/// What the worker `id` answers to a message: that it has finished the
/// job, or that it is killed.
pub open spec fn worker_reply(id: u32, message: WorkerMessage) -> WorkerAck {
    match message {
        WorkerMessage::Job { .. } => WorkerAck::Finished { id },
        WorkerMessage::Kill => WorkerAck::Killed { id },
    }
}

/// The answer of the worker `id` to a message, as it is written to the
/// manager, and whether the worker stops after it.
pub fn worker_answer(id: u32, message: WorkerMessage) -> (r: (Vec<u8>, bool))
    ensures
        r.0@ == ack_text(worker_reply(id, message)),
        r.1 == (message is Kill),
{
    let (mut text, stop): (Vec<u8>, bool) = match message {
        WorkerMessage::Job { .. } => (vec![102u8, 105, 110, 105, 115, 104, 101, 100, 32], false),
        WorkerMessage::Kill => (vec![107u8, 105, 108, 108, 101, 100, 32], true),
    };
    proof {
        if stop {
            assert(text@ =~= killed_word());
        } else {
            assert(text@ =~= finished_word());
        }
    }
    push_number(&mut text, id, false);
    (text, stop)
}

/// What a worker writes is read by the manager as what the worker
/// meant.
pub proof fn lemma_ack_round_trip(ack: WorkerAck)
    ensures
        parse_ack(ack_text(ack)) == Some(ack),
{
    let id: u32 = match ack {
        WorkerAck::Killed { id } => id,
        WorkerAck::Finished { id } => id,
    };
    let word = match ack {
        WorkerAck::Killed { .. } => killed_word(),
        WorkerAck::Finished { .. } => finished_word(),
    };
    let digits = num_digits(id as nat, false);
    let text = ack_text(ack);
    let blank = word.len() - 1;
    lemma_num_round_trip(id as nat, false);
    assert(text == word + digits);
    assert forall|i: int| 0 <= i < blank implies text[i] != 32 by {
        assert(text[i] == word[i]);
    }
    assert(text[blank] == word[blank]);
    lemma_next_pos_found(text, 32, 0, blank);
    assert forall|i: int| blank + 1 <= i < text.len() implies text[i] != 32 by {
        assert(text[i] == digits[i - word.len()]);
        assert(digit_of(digits[i - word.len()], false) is Some);
    }
    lemma_next_pos_none(text, 32, blank + 1);
    assert(text.subrange(blank + 1, text.len() as int) =~= digits);
    assert(digit_of(digits[0], false) is Some);
    assert(text.subrange(0, blank) =~= word.subrange(0, blank));
    assert(killed_word().subrange(0, 6) =~= seq![107u8, 105, 108, 108, 101, 100]);
    assert(finished_word().subrange(0, 8) =~= seq![102u8, 105, 110, 105, 115, 104, 101, 100]);
    assert(seq![102u8, 105, 110, 105, 115, 104, 101, 100].len() == 8);
    assert(seq![107u8, 105, 108, 108, 101, 100].len() == 6);
}

} // verus!
