//! Multi-GPU worker bookkeeping: one ComfyUI backend per GPU, each reserved
//! for one prompt at a time, prompts going to the least recently released
//! idle worker. Reading `nvidia-smi` output and deriving worker settings from
//! the detected GPUs.
use vstd::prelude::*;
use crate::clock::{clock_ms};
use crate::config::GpuWorkerConfig;
use crate::text::{decimal, u64_to_string, push_str, lines, lines_of, split_char, split_chars, trim, trim_chars,
    chars_of, parse_u32, parse_u32_chars, parse_u64, parse_u64_chars};

verus! {

/// Status of a GPU worker backend.
#[derive(Debug, Clone, Copy, PartialEq, Eq, Structural)]
pub enum WorkerStatus {
    /// Not started yet.
    Stopped,
    /// Starting up (process spawned, waiting for HTTP ready).
    Starting,
    /// Ready and idle: can accept a prompt.
    Idle,
    /// Currently executing a prompt.
    Running,
    /// Process crashed or failed to start.
    Error,
    /// Administratively disabled.
    Disabled,
}

impl WorkerStatus {
    /// The status name shown to the frontend (lower case).
    pub fn as_str(&self) -> (s: &'static str)
        ensures
            s@ == match self {
                WorkerStatus::Stopped => "stopped"@,
                WorkerStatus::Starting => "starting"@,
                WorkerStatus::Idle => "idle"@,
                WorkerStatus::Running => "running"@,
                WorkerStatus::Error => "error"@,
                WorkerStatus::Disabled => "disabled"@,
            },
    {
        match self {
            WorkerStatus::Stopped => "stopped",
            WorkerStatus::Starting => "starting",
            WorkerStatus::Idle => "idle",
            WorkerStatus::Running => "running",
            WorkerStatus::Error => "error",
            WorkerStatus::Disabled => "disabled",
        }
    }
}

/// One GPU worker: the ComfyUI process on one GPU and its scheduling state.
pub struct GpuWorker {
    /// Worker id (0-indexed, matches the worker configuration index).
    pub id: u32,
    /// GPU index (CUDA_VISIBLE_DEVICES value).
    pub gpu_index: u32,
    /// Port this ComfyUI instance listens on.
    pub port: u16,
    /// HTTP base URL of this worker's ComfyUI API.
    pub base_url: String,
    /// Current status.
    pub status: WorkerStatus,
    /// Whether this worker is reserved (executing a prompt).
    pub reserved: bool,
    /// When the worker was last released (milliseconds since the epoch).
    pub last_released: u64,
    /// Friendly label (e.g. the GPU name from nvidia-smi).
    pub label: String,
    /// VRAM mode override for this worker (falls back to the global one).
    pub vram_mode: Option<String>,
}

/// The port a worker uses: its configured port, else the base port plus the
/// worker id (as a 16-bit number).
pub open spec fn worker_port(cfg_port: Option<u16>, id: u32, base_port: u16) -> int {
    match cfg_port {
        Some(p) => p as int,
        None => base_port + (id as int) % 65536,
    }
}

/// The label of a worker: its configured label, else `GPU <index>`.
pub open spec fn worker_label(label: Option<Seq<char>>, gpu_index: u32) -> Seq<char> {
    match label {
        Some(l) => l,
        None => "GPU "@ + decimal(gpu_index as nat),
    }
}

pub open spec fn opt_str(o: Option<String>) -> Option<Seq<char>> {
    match o {
        Some(s) => Some(s@),
        None => None,
    }
}

/// The scheduling state of a worker: (status, reserved, last released).
pub type WorkerState = (WorkerStatus, bool, u64);

/// The worker can take a prompt: idle and not reserved.
pub open spec fn available(s: WorkerState) -> bool {
    s.0 == WorkerStatus::Idle && !s.1
}

impl GpuWorker {
    /// The worker's scheduling state.
    pub open spec fn state(&self) -> WorkerState {
        (self.status, self.reserved, self.last_released)
    }

    /// A stopped (or disabled) worker for configuration `cfg`.
    pub fn new(id: u32, cfg: &GpuWorkerConfig, base_port: u16) -> (w: Self)
        requires
            cfg.port is None ==> base_port + (id as int) % 65536 <= u16::MAX,
        ensures
            w.id == id,
            w.gpu_index == cfg.gpu_index,
            w.port == worker_port(cfg.port, id, base_port),
            w.base_url@ == "http://127.0.0.1:"@ + decimal(w.port as nat),
            w.status == (if cfg.enabled { WorkerStatus::Stopped } else { WorkerStatus::Disabled }),
            !w.reserved,
            w.last_released == 0,
            w.label@ == worker_label(opt_str(cfg.label), cfg.gpu_index),
            opt_str(w.vram_mode) == opt_str(cfg.vram_mode),
    {
        let port = match cfg.port {
            Some(p) => p,
            None => base_port + ((id % 65536) as u16),
        };
        let mut base_url = String::from_str("http://127.0.0.1:");
        let digits = u64_to_string(port as u64);
        push_str(&mut base_url, digits.as_str());
        let label = match &cfg.label {
            Some(l) => l.clone(),
            None => {
                let mut l = String::from_str("GPU ");
                let digits = u64_to_string(cfg.gpu_index as u64);
                push_str(&mut l, digits.as_str());
                l
            },
        };
        let vram_mode = match &cfg.vram_mode {
            Some(v) => Some(v.clone()),
            None => None,
        };
        GpuWorker {
            id,
            gpu_index: cfg.gpu_index,
            port,
            base_url,
            status: if cfg.enabled { WorkerStatus::Stopped } else { WorkerStatus::Disabled },
            reserved: false,
            last_released: 0,
            label,
            vram_mode,
        }
    }

    /// Whether this worker can accept a new prompt right now.
    pub fn is_available(&self) -> (r: bool)
        ensures
            r == available(self.state()),
    {
        self.status == WorkerStatus::Idle && !self.reserved
    }

    /// Reserve this worker for a prompt; false if it already is reserved.
    pub fn try_reserve(&mut self) -> (r: bool)
        ensures
            r == !old(self).reserved,
            final(self).reserved,
            final(self).status == old(self).status,
            final(self).last_released == old(self).last_released,
            final(self).id == old(self).id,
            !r ==> *final(self) == *old(self),
    {
        if self.reserved {
            false
        } else {
            self.reserved = true;
            true
        }
    }

    /// Release this worker at time `now_ms`.
    pub fn release_at(&mut self, now_ms: u64)
        ensures
            !final(self).reserved,
            final(self).last_released == now_ms,
            final(self).status == old(self).status,
            final(self).id == old(self).id,
    {
        self.reserved = false;
        self.last_released = now_ms;
    }

    /// Release this worker after its prompt completed or failed.
    pub fn release(&mut self)
        ensures
            !final(self).reserved,
            final(self).status == old(self).status,
            final(self).id == old(self).id,
    {
        let now = clock_ms();
        self.release_at(now);
    }
}


/// Status summary of a worker for the frontend.
pub struct WorkerStatusInfo {
    pub id: u32,
    pub gpu_index: u32,
    pub label: String,
    pub port: u16,
    pub status: WorkerStatus,
    pub reserved: bool,
}

/// The scheduling states of a list of workers.
pub open spec fn states(ws: Seq<GpuWorker>) -> Seq<WorkerState> {
    ws.map_values(|w: GpuWorker| w.state())
}

/// The release time a candidate must beat: that of the current pick, or the
/// largest time when there is none.
pub open spec fn pick_time(s: Seq<WorkerState>, cur: Option<int>) -> int {
    match cur {
        Some(b) => s[b].2 as int,
        None => u64::MAX as int,
    }
}

/// Scanning workers from `i` with the current pick `cur`: an available worker
/// released strictly earlier than the pick replaces it.
pub open spec fn pick_from(s: Seq<WorkerState>, i: int, cur: Option<int>) -> Option<int>
    decreases s.len() - i,
{
    if i < 0 || i >= s.len() {
        cur
    } else if available(s[i]) && (s[i].2 as int) < pick_time(s, cur) {
        pick_from(s, i + 1, Some(i))
    } else {
        pick_from(s, i + 1, cur)
    }
}

/// The worker a new prompt goes to: the available worker released longest ago,
/// the first of them on ties (see [`law_best_available`]).
pub open spec fn best_available(s: Seq<WorkerState>) -> Option<int> {
    pick_from(s, 0, None)
}

proof fn lemma_pick_from(s: Seq<WorkerState>, i: int, cur: Option<int>)
    requires
        0 <= i <= s.len(),
        cur matches Some(b) ==> 0 <= b < i && available(s[b])
            && (forall|j: int| 0 <= j < i && available(#[trigger] s[j]) ==> s[b].2 <= s[j].2)
            && (forall|j: int| 0 <= j < b && available(#[trigger] s[j]) ==> s[b].2 < s[j].2),
        cur is None ==> forall|j: int| 0 <= j < i && available(#[trigger] s[j]) ==> s[j].2 == u64::MAX,
    ensures
        pick_from(s, i, cur) matches Some(b) ==> 0 <= b < s.len() && available(s[b])
            && (forall|j: int| 0 <= j < s.len() && available(#[trigger] s[j]) ==> s[b].2 <= s[j].2)
            && (forall|j: int| 0 <= j < b && available(#[trigger] s[j]) ==> s[b].2 < s[j].2),
        pick_from(s, i, cur) is None ==> forall|j: int| 0 <= j < s.len() && available(#[trigger] s[j])
            ==> s[j].2 == u64::MAX,
    decreases s.len() - i,
{
    if i < s.len() {
        if available(s[i]) && (s[i].2 as int) < pick_time(s, cur) {
            lemma_pick_from(s, i + 1, Some(i));
        } else {
            lemma_pick_from(s, i + 1, cur);
        }
    }
}

/// Law: the worker chosen for a new prompt is available, no available worker
/// was released before it, and every available worker before it was released
/// later. None is chosen only when no worker is available, or every available
/// one carries the largest release time.
pub proof fn law_best_available(s: Seq<WorkerState>)
    ensures
        best_available(s) matches Some(b) ==> 0 <= b < s.len() && available(s[b])
            && (forall|j: int| 0 <= j < s.len() && available(#[trigger] s[j]) ==> s[b].2 <= s[j].2)
            && (forall|j: int| 0 <= j < b && available(#[trigger] s[j]) ==> s[b].2 < s[j].2),
        best_available(s) is None ==> forall|j: int| 0 <= j < s.len() && available(#[trigger] s[j])
            ==> s[j].2 == u64::MAX,
{
    lemma_pick_from(s, 0, None);
}

/// Manages the GPU workers and chooses the worker for each prompt.
pub struct GpuManager {
    /// All workers, indexed by worker id.
    pub workers: Vec<GpuWorker>,
}

impl GpuManager {
    /// Workers from the configuration: one per configured GPU worker, or a
    /// single enabled worker on the server port when none is configured.
    pub fn new(gpu_workers: &Vec<GpuWorkerConfig>, server_port: u16) -> (m: Self)
        requires
            gpu_workers@.len() <= u32::MAX,
            forall|i: int| 0 <= i < gpu_workers@.len() ==> ((#[trigger] gpu_workers@[i]).port is None
                ==> server_port + i % 65536 <= u16::MAX),
        ensures
            gpu_workers@.len() == 0 ==> m.workers@.len() == 1 && m.workers@[0].id == 0
                && m.workers@[0].gpu_index == 0 && m.workers@[0].port == server_port
                && m.workers@[0].status == WorkerStatus::Stopped && m.workers@[0].label@ == "GPU 0"@
                && m.workers@[0].vram_mode is None,
            gpu_workers@.len() > 0 ==> m.workers@.len() == gpu_workers@.len() && forall|i: int|
                0 <= i < gpu_workers@.len() ==> {
                    let w = #[trigger] m.workers@[i];
                    let c = gpu_workers@[i];
                    &&& w.id == i
                    &&& w.gpu_index == c.gpu_index
                    &&& w.port == worker_port(c.port, i as u32, server_port)
                    &&& w.status == (if c.enabled { WorkerStatus::Stopped } else { WorkerStatus::Disabled })
                    &&& w.label@ == worker_label(opt_str(c.label), c.gpu_index)
                    &&& opt_str(w.vram_mode) == opt_str(c.vram_mode)
                },
            forall|i: int| 0 <= i < m.workers@.len() ==> !(#[trigger] m.workers@[i]).reserved
                && m.workers@[i].last_released == 0,
    {
        let mut workers: Vec<GpuWorker> = Vec::new();
        if gpu_workers.len() == 0 {
            let cfg = GpuWorkerConfig { gpu_index: 0, port: Some(server_port), enabled: true, label: None, vram_mode: None };
            let w = GpuWorker::new(0, &cfg, server_port);
            proof {
                reveal_strlit("GPU ");
                reveal_strlit("GPU 0");
                assert(decimal(0nat) =~= seq!['0']);
                assert("GPU "@ + decimal(0nat) =~= "GPU 0"@);
            }
            workers.push(w);
            return GpuManager { workers };
        }
        let mut i: usize = 0;
        while i < gpu_workers.len()
            invariant
                i <= gpu_workers@.len(),
                gpu_workers@.len() <= u32::MAX,
                forall|k: int| 0 <= k < gpu_workers@.len() ==> ((#[trigger] gpu_workers@[k]).port is None
                    ==> server_port + k % 65536 <= u16::MAX),
                workers@.len() == i,
                forall|k: int| 0 <= k < i ==> {
                    let w = #[trigger] workers@[k];
                    let c = gpu_workers@[k];
                    &&& w.id == k
                    &&& w.gpu_index == c.gpu_index
                    &&& w.port == worker_port(c.port, k as u32, server_port)
                    &&& w.status == (if c.enabled { WorkerStatus::Stopped } else { WorkerStatus::Disabled })
                    &&& w.label@ == worker_label(opt_str(c.label), c.gpu_index)
                    &&& opt_str(w.vram_mode) == opt_str(c.vram_mode)
                    &&& !w.reserved
                    &&& w.last_released == 0
                },
            decreases gpu_workers@.len() - i,
        {
            let w = GpuWorker::new(i as u32, &gpu_workers[i], server_port);
            workers.push(w);
            i += 1;
        }
        GpuManager { workers }
    }

    /// The scheduling states of the workers.
    pub open spec fn worker_states(&self) -> Seq<WorkerState> {
        states(self.workers@)
    }

    /// The number of workers that are not disabled.
    pub fn enabled_count(&self) -> (r: usize)
        ensures
            r == self.workers@.filter(|w: GpuWorker| w.status != WorkerStatus::Disabled).len(),
    {
        let ghost pred = |w: GpuWorker| w.status != WorkerStatus::Disabled;
        let mut count: usize = 0;
        let mut i: usize = 0;
        while i < self.workers.len()
            invariant
                i <= self.workers@.len(),
                pred == (|w: GpuWorker| w.status != WorkerStatus::Disabled),
                count == self.workers@.take(i as int).filter(pred).len(),
                count <= i,
            decreases self.workers@.len() - i,
        {
            proof {
                assert(self.workers@.take(i + 1) =~= self.workers@.take(i as int).push(self.workers@[i as int]));
                self.workers@.take(i as int).lemma_filter_push(self.workers@[i as int], pred);
            }
            if self.workers[i].status != WorkerStatus::Disabled {
                count += 1;
            }
            i += 1;
        }
        assert(self.workers@.take(i as int) =~= self.workers@);
        count
    }

    /// The index of the worker a new prompt should go to (see [`best_available`]).
    pub fn find_available(&self) -> (r: Option<usize>)
        ensures
            match r {
                Some(i) => best_available(self.worker_states()) == Some(i as int),
                None => best_available(self.worker_states()) is None,
            },
    {
        let ghost s = self.worker_states();
        let mut best: Option<usize> = None;
        let mut best_time: u64 = u64::MAX;
        let mut i: usize = 0;
        while i < self.workers.len()
            invariant
                s == self.worker_states(),
                s.len() == self.workers@.len(),
                i <= s.len(),
                pick_from(s, 0, None) == pick_from(s, i as int, match best { Some(b) => Some(b as int), None => None }),
                best_time == pick_time(s, match best { Some(b) => Some(b as int), None => None }),
                best matches Some(b) ==> b < i,
            decreases s.len() - i,
        {
            assert(s[i as int] == self.workers@[i as int].state());
            if self.workers[i].is_available() {
                let released = self.workers[i].last_released;
                if released < best_time {
                    best_time = released;
                    best = Some(i);
                }
            }
            i += 1;
        }
        best
    }

    /// Mark the worker with this id as finished with its prompt: released, and
    /// idle again if it was running.
    pub fn mark_worker_idle_at(&mut self, worker_id: u32, now_ms: u64)
        ensures
            final(self).workers@.len() == old(self).workers@.len(),
            forall|i: int| 0 <= i < old(self).workers@.len() && i != worker_id ==>
                #[trigger] final(self).workers@[i] == old(self).workers@[i],
            (worker_id as int) < old(self).workers@.len() ==> ({
                let w = old(self).workers@[worker_id as int];
                let n = final(self).workers@[worker_id as int];
                &&& !n.reserved
                &&& n.last_released == now_ms
                &&& n.status == (if w.status == WorkerStatus::Running { WorkerStatus::Idle } else { w.status })
                &&& n.id == w.id && n.gpu_index == w.gpu_index && n.port == w.port && n.base_url == w.base_url
                    && n.label == w.label && n.vram_mode == w.vram_mode
            }),
    {
        let idx = worker_id as usize;
        if idx < self.workers.len() {
            let mut w = self.workers.remove(idx);
            w.reserved = false;
            w.last_released = now_ms;
            if w.status == WorkerStatus::Running {
                w.status = WorkerStatus::Idle;
            }
            self.workers.insert(idx, w);
        }
    }

    /// Mark the worker with this id as finished with its prompt.
    pub fn mark_worker_idle(&mut self, worker_id: u32)
        ensures
            exists|t: u64| #[trigger] idle_marked(old(self).workers@, final(self).workers@, worker_id, t),
    {
        let now = clock_ms();
        self.mark_worker_idle_at(worker_id, now);
        assert(idle_marked(old(self).workers@, self.workers@, worker_id, now));
    }

    /// Mark the worker with this id released and idle after its prompt failed
    /// (a failed prompt does not mean the GPU is unusable).
    pub fn mark_worker_error_then_idle_at(&mut self, worker_id: u32, now_ms: u64)
        ensures
            final(self).workers@.len() == old(self).workers@.len(),
            forall|i: int| 0 <= i < old(self).workers@.len() && i != worker_id ==>
                #[trigger] final(self).workers@[i] == old(self).workers@[i],
            (worker_id as int) < old(self).workers@.len() ==> ({
                let w = old(self).workers@[worker_id as int];
                let n = final(self).workers@[worker_id as int];
                &&& !n.reserved
                &&& n.last_released == now_ms
                &&& n.status == WorkerStatus::Idle
                &&& n.id == w.id && n.gpu_index == w.gpu_index && n.port == w.port && n.base_url == w.base_url
                    && n.label == w.label && n.vram_mode == w.vram_mode
            }),
    {
        let idx = worker_id as usize;
        if idx < self.workers.len() {
            let mut w = self.workers.remove(idx);
            w.reserved = false;
            w.last_released = now_ms;
            w.status = WorkerStatus::Idle;
            self.workers.insert(idx, w);
        }
    }

    /// Mark the worker with this id released and idle after its prompt failed.
    pub fn mark_worker_error_then_idle(&mut self, worker_id: u32)
        ensures
            final(self).workers@.len() == old(self).workers@.len(),
            forall|i: int| 0 <= i < old(self).workers@.len() && i != worker_id ==>
                #[trigger] final(self).workers@[i] == old(self).workers@[i],
            (worker_id as int) < old(self).workers@.len() ==> !final(self).workers@[worker_id as int].reserved
                && final(self).workers@[worker_id as int].status == WorkerStatus::Idle,
    {
        let now = clock_ms();
        self.mark_worker_error_then_idle_at(worker_id, now);
    }

    /// Reserve worker `idx` for a prompt and mark it running (the prompt is
    /// being submitted). False, with nothing changed, if it was reserved.
    pub fn begin_submit(&mut self, idx: usize) -> (r: bool)
        requires
            idx < old(self).workers@.len(),
        ensures
            r == !old(self).workers@[idx as int].reserved,
            final(self).workers@.len() == old(self).workers@.len(),
            forall|i: int| 0 <= i < old(self).workers@.len() && i != idx ==>
                #[trigger] final(self).workers@[i] == old(self).workers@[i],
            r ==> final(self).workers@[idx as int].reserved
                && final(self).workers@[idx as int].status == WorkerStatus::Running,
            !r ==> final(self).workers@[idx as int] == old(self).workers@[idx as int],
    {
        let mut w = self.workers.remove(idx);
        let r = w.try_reserve();
        if r {
            w.status = WorkerStatus::Running;
        }
        self.workers.insert(idx, w);
        r
    }

    /// The worker that failed to accept a submitted prompt: released, idle when
    /// ComfyUI answered with an error status, in error when it could not be
    /// reached.
    pub fn submit_failed_at(&mut self, idx: usize, unreachable: bool, now_ms: u64)
        requires
            idx < old(self).workers@.len(),
        ensures
            final(self).workers@.len() == old(self).workers@.len(),
            forall|i: int| 0 <= i < old(self).workers@.len() && i != idx ==>
                #[trigger] final(self).workers@[i] == old(self).workers@[i],
            !final(self).workers@[idx as int].reserved,
            final(self).workers@[idx as int].last_released == now_ms,
            final(self).workers@[idx as int].status == (if unreachable { WorkerStatus::Error } else { WorkerStatus::Idle }),
    {
        let mut w = self.workers.remove(idx);
        w.release_at(now_ms);
        w.status = if unreachable { WorkerStatus::Error } else { WorkerStatus::Idle };
        self.workers.insert(idx, w);
    }

    /// The id of the first worker that is running a reserved prompt.
    pub fn worker_for_prompt(&self) -> (r: Option<u32>)
        ensures
            match r {
                Some(id) => exists|i: int| 0 <= i < self.workers@.len() && self.workers@[i].id == id
                    && self.workers@[i].status == WorkerStatus::Running && self.workers@[i].reserved
                    && forall|j: int| 0 <= j < i ==> !((#[trigger] self.workers@[j]).status == WorkerStatus::Running
                        && self.workers@[j].reserved),
                None => forall|j: int| 0 <= j < self.workers@.len() ==> !((#[trigger] self.workers@[j]).status
                    == WorkerStatus::Running && self.workers@[j].reserved),
            },
    {
        let mut i: usize = 0;
        while i < self.workers.len()
            invariant
                i <= self.workers@.len(),
                forall|j: int| 0 <= j < i ==> !((#[trigger] self.workers@[j]).status == WorkerStatus::Running
                    && self.workers@[j].reserved),
            decreases self.workers@.len() - i,
        {
            if self.workers[i].status == WorkerStatus::Running && self.workers[i].reserved {
                return Some(self.workers[i].id);
            }
            i += 1;
        }
        None
    }

    /// The index of the first worker that is idle or running (for read-only queries).
    pub fn first_ready_worker(&self) -> (r: Option<usize>)
        ensures
            match r {
                Some(i) => i < self.workers@.len() && (self.workers@[i as int].status == WorkerStatus::Idle
                    || self.workers@[i as int].status == WorkerStatus::Running)
                    && forall|j: int| 0 <= j < i ==> !((#[trigger] self.workers@[j]).status == WorkerStatus::Idle
                        || self.workers@[j].status == WorkerStatus::Running),
                None => forall|j: int| 0 <= j < self.workers@.len() ==> !((#[trigger] self.workers@[j]).status
                    == WorkerStatus::Idle || self.workers@[j].status == WorkerStatus::Running),
            },
    {
        let mut i: usize = 0;
        while i < self.workers.len()
            invariant
                i <= self.workers@.len(),
                forall|j: int| 0 <= j < i ==> !((#[trigger] self.workers@[j]).status == WorkerStatus::Idle
                    || self.workers@[j].status == WorkerStatus::Running),
            decreases self.workers@.len() - i,
        {
            if self.workers[i].status == WorkerStatus::Idle || self.workers[i].status == WorkerStatus::Running {
                return Some(i);
            }
            i += 1;
        }
        None
    }

    /// Status summary of every worker, in order.
    pub fn worker_statuses(&self) -> (r: Vec<WorkerStatusInfo>)
        ensures
            r@.len() == self.workers@.len(),
            forall|i: int| 0 <= i < r@.len() ==> {
                let s = #[trigger] r@[i];
                let w = self.workers@[i];
                s.id == w.id && s.gpu_index == w.gpu_index && s.label@ == w.label@ && s.port == w.port
                    && s.status == w.status && s.reserved == w.reserved
            },
    {
        let mut r: Vec<WorkerStatusInfo> = Vec::new();
        let mut i: usize = 0;
        while i < self.workers.len()
            invariant
                i <= self.workers@.len(),
                r@.len() == i,
                forall|k: int| 0 <= k < i ==> {
                    let s = #[trigger] r@[k];
                    let w = self.workers@[k];
                    s.id == w.id && s.gpu_index == w.gpu_index && s.label@ == w.label@ && s.port == w.port
                        && s.status == w.status && s.reserved == w.reserved
                },
            decreases self.workers@.len() - i,
        {
            let w = &self.workers[i];
            r.push(WorkerStatusInfo {
                id: w.id,
                gpu_index: w.gpu_index,
                label: w.label.clone(),
                port: w.port,
                status: w.status,
                reserved: w.reserved,
            });
            i += 1;
        }
        r
    }

    /// Whether there is exactly one worker (no worker configuration).
    pub fn is_single_worker(&self) -> (r: bool)
        ensures
            r == (self.workers@.len() == 1),
    {
        self.workers.len() == 1
    }
}

/// Worker `id` released at `t`, idle again if it was running; the others unchanged.
pub open spec fn idle_marked(before: Seq<GpuWorker>, after: Seq<GpuWorker>, id: u32, t: u64) -> bool {
    &&& after.len() == before.len()
    &&& forall|i: int| 0 <= i < before.len() && i != id ==> #[trigger] after[i] == before[i]
    &&& (id as int) < before.len() ==> {
        let w = before[id as int];
        let n = after[id as int];
        &&& !n.reserved
        &&& n.last_released == t
        &&& n.status == (if w.status == WorkerStatus::Running { WorkerStatus::Idle } else { w.status })
    }
}

/// Law: two prompts never hold the same worker: once a worker is reserved, a
/// second reservation fails until it is released.
pub proof fn law_reservation_exclusive(w: WorkerState)
    ensures
        w.1 ==> !available(w),
{
}

// ---------------------------------------------------------------------------
// Detected GPUs
// ---------------------------------------------------------------------------

/// A GPU as `nvidia-smi --query-gpu=index,name,memory.total` reports it:
/// (index, name, VRAM in MiB).
pub type GpuInfo = (u32, Seq<char>, u64);

/// The GPU described by one line of the CSV output, if it has at least three
/// fields and the first and third parse as numbers.
pub open spec fn gpu_of_line(line: Seq<char>) -> Option<GpuInfo> {
    let parts = split_char(line, ',').map_values(|p: Seq<char>| trim(p));
    if parts.len() >= 3 {
        match (parse_u32(parts[0]), parse_u64(parts[2])) {
            (Some(idx), Some(vram)) => Some((idx, parts[1], vram)),
            _ => None,
        }
    } else {
        None
    }
}

/// The GPUs listed in `nvidia-smi` CSV output, lines that do not describe one skipped.
pub open spec fn gpus_of(out: Seq<char>) -> Seq<GpuInfo> {
    lines(out).map_values(|l: Seq<char>| gpu_of_line(l)).filter(|g: Option<GpuInfo>| g is Some).map_values(
        |g: Option<GpuInfo>| g->0)
}

/// The GPUs listed in `nvidia-smi --query-gpu=index,name,memory.total
/// --format=csv,noheader,nounits` output.
pub fn parse_gpu_list(stdout: &str) -> (r: Vec<(u32, String, u64)>)
    ensures
        r@.map_values(|g: (u32, String, u64)| (g.0, g.1@, g.2)) == gpus_of(stdout@),
{
    let ls = lines_of(stdout);
    let ghost lv = ls@.map_values(|x: String| x@);
    let ghost opts = lv.map_values(|l: Seq<char>| gpu_of_line(l));
    let ghost keep = |g: Option<GpuInfo>| g is Some;
    let mut out: Vec<(u32, String, u64)> = Vec::new();
    let mut i: usize = 0;
    while i < ls.len()
        invariant
            i <= ls@.len(),
            lv == ls@.map_values(|x: String| x@),
            opts == lv.map_values(|l: Seq<char>| gpu_of_line(l)),
            keep == (|g: Option<GpuInfo>| g is Some),
            out@.map_values(|g: (u32, String, u64)| (g.0, g.1@, g.2)) == opts.take(i as int).filter(keep).map_values(
                |g: Option<GpuInfo>| g->0),
        decreases ls@.len() - i,
    {
        let parsed = parse_gpu_line(ls[i].as_str());
        proof {
            assert(opts.take(i + 1) =~= opts.take(i as int).push(opts[i as int]));
            opts.take(i as int).lemma_filter_push(opts[i as int], keep);
        }
        match parsed {
            Some(g) => {
                let ghost before = out@;
                out.push(g);
                assert(out@.map_values(|g: (u32, String, u64)| (g.0, g.1@, g.2)) =~= before.map_values(
                    |g: (u32, String, u64)| (g.0, g.1@, g.2)).push(opts[i as int]->0));
                assert(opts.take(i + 1).filter(keep).map_values(|g: Option<GpuInfo>| g->0) =~= opts.take(
                    i as int).filter(keep).map_values(|g: Option<GpuInfo>| g->0).push(opts[i as int]->0));
            },
            None => {},
        }
        i += 1;
    }
    assert(opts.take(i as int) =~= opts);
    assert(gpus_of(stdout@) == opts.filter(keep).map_values(|g: Option<GpuInfo>| g->0));
    out
}

/// The GPU described by one CSV line (see [`gpu_of_line`]).
fn parse_gpu_line(line: &str) -> (r: Option<(u32, String, u64)>)
    ensures
        match r {
            Some(g) => gpu_of_line(line@) == Some((g.0, g.1@, g.2)),
            None => gpu_of_line(line@) is None,
        },
{
    let cs = chars_of(line);
    let pieces = split_chars(&cs, ',');
    let ghost pv = pieces@.map_values(|x: String| x@);
    let ghost parts = pv.map_values(|p: Seq<char>| trim(p));
    if pieces.len() < 3 {
        return None;
    }
    let p0 = chars_of(pieces[0].as_str());
    let p1 = chars_of(pieces[1].as_str());
    let p2 = chars_of(pieces[2].as_str());
    let t0 = chars_of(trim_chars(&p0, 0, p0.len()).as_str());
    let name = trim_chars(&p1, 0, p1.len());
    let t2 = chars_of(trim_chars(&p2, 0, p2.len()).as_str());
    proof {
        assert(p0@.subrange(0, p0@.len() as int) =~= p0@);
        assert(p1@.subrange(0, p1@.len() as int) =~= p1@);
        assert(p2@.subrange(0, p2@.len() as int) =~= p2@);
        assert(t0@.subrange(0, t0@.len() as int) =~= t0@);
        assert(t2@.subrange(0, t2@.len() as int) =~= t2@);
        assert(parts[0] == t0@ && parts[1] == name@ && parts[2] == t2@);
    }
    let idx = parse_u32_chars(&t0, 0, t0.len());
    let vram = parse_u64_chars(&t2, 0, t2.len());
    match (idx, vram) {
        (Some(i), Some(v)) => Some((i, name, v)),
        _ => None,
    }
}

/// The VRAM mode chosen for a GPU with `vram_mb` MiB: `high` from 40000,
/// the default from 8000, `low` below.
pub open spec fn vram_mode_for(vram_mb: u64) -> Option<Seq<char>> {
    if vram_mb >= 40000 { Some("high"@) } else if vram_mb >= 8000 { None } else { Some("low"@) }
}

/// Law: a GPU below 8000 MiB of VRAM runs in low-VRAM mode, one from 40000
/// MiB in high-VRAM mode, and one in between keeps ComfyUI's default (no
/// override).
pub proof fn law_vram_modes(vram_mb: u64)
    ensures
        vram_mb < 8000 ==> vram_mode_for(vram_mb) == Some("low"@),
        8000 <= vram_mb < 40000 ==> vram_mode_for(vram_mb) is None,
        40000 <= vram_mb ==> vram_mode_for(vram_mb) == Some("high"@),
{
}

/// Worker configurations for the detected GPUs: one enabled worker per GPU,
/// on the base port plus the GPU index, labelled with the GPU name, with a
/// VRAM mode from its memory size.
pub fn auto_configure_workers(gpus: &Vec<(u32, String, u64)>, base_port: u16) -> (r: Vec<GpuWorkerConfig>)
    requires
        forall|i: int| 0 <= i < gpus@.len() ==> base_port + (#[trigger] gpus@[i]).0 % 65536 <= u16::MAX,
    ensures
        r@.len() == gpus@.len(),
        forall|i: int| 0 <= i < gpus@.len() ==> {
            let c = #[trigger] r@[i];
            let g = gpus@[i];
            &&& c.gpu_index == g.0
            &&& c.port == Some((base_port + g.0 % 65536) as u16)
            &&& c.enabled
            &&& opt_str(c.label) == Some(g.1@)
            &&& opt_str(c.vram_mode) == vram_mode_for(g.2)
        },
        forall|i: int| 0 <= i < gpus@.len() ==> {
            let c = #[trigger] r@[i];
            let v = gpus@[i].2;
            &&& (v < 8000 ==> opt_str(c.vram_mode) == Some("low"@))
            &&& (8000 <= v < 40000 ==> c.vram_mode is None)
            &&& (40000 <= v ==> opt_str(c.vram_mode) == Some("high"@))
        },
{
    let mut r: Vec<GpuWorkerConfig> = Vec::new();
    let mut i: usize = 0;
    while i < gpus.len()
        invariant
            i <= gpus@.len(),
            forall|k: int| 0 <= k < gpus@.len() ==> base_port + (#[trigger] gpus@[k]).0 % 65536 <= u16::MAX,
            r@.len() == i,
            forall|k: int| 0 <= k < i ==> {
                let c = #[trigger] r@[k];
                let g = gpus@[k];
                &&& c.gpu_index == g.0
                &&& c.port == Some((base_port + g.0 % 65536) as u16)
                &&& c.enabled
                &&& opt_str(c.label) == Some(g.1@)
                &&& opt_str(c.vram_mode) == vram_mode_for(g.2)
            },
        decreases gpus@.len() - i,
    {
        let (idx, name, vram) = (gpus[i].0, &gpus[i].1, gpus[i].2);
        let vram_mode = if vram >= 40000 {
            Some(String::from_str("high"))
        } else if vram >= 8000 {
            None
        } else {
            Some(String::from_str("low"))
        };
        let port = base_port + ((idx % 65536) as u16);
        r.push(GpuWorkerConfig { gpu_index: idx, port: Some(port), enabled: true, label: Some(name.clone()), vram_mode });
        i += 1;
    }
    r
}

} // verus!
