use vstd::prelude::*;
use crate::scoutwrap::ScoutwrapWalkInodesEntry;

verus! {

/// How often the state file is checkpointed when no interval is given, in milliseconds.
pub const DEFAULT_CHECKPOINT_MS: u64 = 60000;

/// How many change-log entries a batch asks for when no size is given.
pub const DEFAULT_BATCH_SIZE: usize = 65536;

/// The inode number of the file system's root directory.
pub const ROOT_DIRECTORY_INO: u64 = 1;

/// What a run does with one entry of a batch before looking at the file.
#[derive(Debug, Clone, Copy, PartialEq, Eq, Structural)]
pub enum EntryStep {
    /// The entry is the point the run started from: it was handled by the run
    /// that saved it, and is passed over without moving the final point.
    AlreadyProcessed,
    /// The entry is the root directory: it is passed over, and becomes the final point.
    RootDirectory,
    /// The entry's file is looked up and its quota accounting brought up to date.
    Visit,
}

/// The step for entry `e` of a run that started from `starting`.
pub open spec fn step_of(e: ScoutwrapWalkInodesEntry, starting: ScoutwrapWalkInodesEntry) -> EntryStep {
    if e == starting {
        EntryStep::AlreadyProcessed
    } else if e.ino == ROOT_DIRECTORY_INO {
        EntryStep::RootDirectory
    } else {
        EntryStep::Visit
    }
}

/// Which entries are passed over: exactly the one equal to the starting point in
/// major, inode and minor; every other entry with inode 1 is the root directory,
/// and every other entry is visited.
pub proof fn lemma_step_of(e: ScoutwrapWalkInodesEntry, starting: ScoutwrapWalkInodesEntry)
    ensures
        step_of(e, starting) == EntryStep::AlreadyProcessed <==> (e.major == starting.major && e.ino
            == starting.ino && e.minor == starting.minor),
        step_of(e, starting) == EntryStep::RootDirectory <==> (!(e.major == starting.major && e.ino
            == starting.ino && e.minor == starting.minor) && e.ino == 1),
        step_of(e, starting) == EntryStep::Visit <==> (!(e.major == starting.major && e.ino
            == starting.ino && e.minor == starting.minor) && e.ino != 1),
{
}

/// How a batch of change-log entries is worked through.
#[derive(Debug, Clone)]
pub struct BatchPlan {
    /// The batch came back with fewer entries than were asked for, so it is the last one.
    pub last_batch: bool,
    /// The step for each entry handled in this batch, from the first entry on.
    pub steps: Vec<EntryStep>,
    /// Where the next batch starts, when it is not where this one did.
    pub next_first: Option<ScoutwrapWalkInodesEntry>,
}

/// Whether a batch that is not the last one stops when it reaches entry `j`: the
/// entry has the inode of the batch's last entry, from which the next batch starts.
pub open spec fn stops_batch(entries: Seq<ScoutwrapWalkInodesEntry>, last_batch: bool, j: int) -> bool {
    !last_batch && entries[j].ino == entries.last().ino
}

/// Plans the work on one batch: the batch is the last one when it holds fewer
/// than `batch_size` entries. A batch that is not the last stops at its first
/// entry whose inode is that of its last entry, and the next batch starts from
/// the last entry; every entry before the stop gets the step `step_of` gives it.
pub fn plan_batch(
    entries: &Vec<ScoutwrapWalkInodesEntry>,
    batch_size: usize,
    starting: &ScoutwrapWalkInodesEntry,
) -> (plan: BatchPlan)
    ensures
        plan.last_batch == (entries@.len() < batch_size),
        plan.steps@.len() <= entries@.len(),
        forall|j: int| 0 <= j < plan.steps@.len() ==> !stops_batch(entries@, plan.last_batch, j),
        forall|j: int| 0 <= j < plan.steps@.len() ==> plan.steps@[j] == step_of(entries@[j], *starting),
        plan.steps@.len() < entries@.len() ==> stops_batch(entries@, plan.last_batch, plan.steps@.len() as int),
        plan.next_first == (if !plan.last_batch && entries@.len() > 0 {
            Some(entries@.last())
        } else {
            None
        }),
{
    let n = entries.len();
    let last_batch = n < batch_size;
    let mut steps: Vec<EntryStep> = Vec::new();
    if n == 0 {
        return BatchPlan { last_batch, steps, next_first: None };
    }
    let last_ino = entries[n - 1].ino;
    let mut i: usize = 0;
    while i < n
        invariant
            n == entries@.len(),
            n > 0,
            last_ino == entries@.last().ino,
            last_batch == (n < batch_size),
            i <= n,
            steps@.len() == i,
            forall|j: int| 0 <= j < i ==> !stops_batch(entries@, last_batch, j),
            forall|j: int| 0 <= j < i ==> steps@[j] == step_of(entries@[j], *starting),
        ensures
            i <= n,
            steps@.len() == i,
            forall|j: int| 0 <= j < i ==> !stops_batch(entries@, last_batch, j),
            forall|j: int| 0 <= j < i ==> steps@[j] == step_of(entries@[j], *starting),
            i < n ==> stops_batch(entries@, last_batch, i as int),
        decreases n - i,
    {
        let e = entries[i];
        if !last_batch && e.ino == last_ino {
            break;
        }
        let step = if e == *starting {
            EntryStep::AlreadyProcessed
        } else if e.ino == ROOT_DIRECTORY_INO {
            EntryStep::RootDirectory
        } else {
            EntryStep::Visit
        };
        steps.push(step);
        i = i + 1;
    }
    let next_first = if !last_batch {
        Some(entries[n - 1])
    } else {
        None
    };
    BatchPlan { last_batch, steps, next_first }
}

/// The change-log point a run has reached after handling the first
/// `steps.len()` entries of a batch from `prev`: the last of them whose step
/// moves it (the root directory or a visited file), or `prev` when none does.
pub open spec fn final_point_after(
    entries: Seq<ScoutwrapWalkInodesEntry>,
    steps: Seq<EntryStep>,
    prev: ScoutwrapWalkInodesEntry,
) -> ScoutwrapWalkInodesEntry
    decreases steps.len(),
{
    if steps.len() == 0 {
        prev
    } else if steps.last() == EntryStep::AlreadyProcessed {
        final_point_after(entries, steps.drop_last(), prev)
    } else {
        entries[steps.len() - 1]
    }
}

/// The point that the state file records after a batch: the last entry handled
/// whose step moves it, else the point recorded before the batch.
pub fn batch_final_point(
    entries: &Vec<ScoutwrapWalkInodesEntry>,
    steps: &Vec<EntryStep>,
    prev: ScoutwrapWalkInodesEntry,
) -> (p: ScoutwrapWalkInodesEntry)
    requires
        steps@.len() <= entries@.len(),
    ensures
        p == final_point_after(entries@, steps@, prev),
{
    let mut p = prev;
    let mut i: usize = 0;
    while i < steps.len()
        invariant
            i <= steps@.len() <= entries@.len(),
            p == final_point_after(entries@, steps@.take(i as int), prev),
        decreases steps@.len() - i,
    {
        proof {
            let t = steps@.take(i + 1);
            assert(t.drop_last() =~= steps@.take(i as int));
            assert(t.last() == steps@[i as int]);
        }
        if steps[i] != EntryStep::AlreadyProcessed {
            p = entries[i];
        }
        i = i + 1;
    }
    assert(steps@.take(steps@.len() as int) =~= steps@);
    p
}

/// Whether the state file is due for a checkpoint: at the end of the last batch,
/// or once more than `checkpoint_ms` milliseconds have passed since the last one
/// (times given in nanoseconds since the run began).
pub fn checkpoint_due(last_batch: bool, elapsed_nanos: u128, last_checkpoint_nanos: u128, checkpoint_ms: u64) -> (r: bool)
    requires
        last_checkpoint_nanos <= elapsed_nanos,
    ensures
        r == (last_batch || elapsed_nanos - last_checkpoint_nanos > checkpoint_ms as int * 1_000_000),
{
    last_batch || elapsed_nanos - last_checkpoint_nanos > (checkpoint_ms as u128) * 1_000_000
}

/// Whether a checkpoint writes the state file: only once the run has got past
/// the major timestamp it started from, and past the initial point.
pub fn state_update_due(final_major: u64, starting_major: i64) -> (r: bool)
    ensures
        r == (final_major != starting_major as u64 && final_major != 0),
{
    final_major != starting_major as u64 && final_major != 0
}

/// The settings of a run: checkpoint interval, batch size, and what it prints.
#[derive(Debug, Clone, Copy, PartialEq, Eq, Structural)]
pub struct RunSettings {
    pub checkpoint_ms: u64,
    pub batch_size: usize,
    /// Print the start and final state and whether a state file was found.
    pub state_verbose: bool,
    /// Print each processing step for each file.
    pub loop_verbose: bool,
    /// Print the updated quotas at each checkpoint and at the end of the run.
    pub quota_update_verbose: bool,
}

/// The settings of a run: the values given, else the defaults (checkpoint every
/// minute, batches of 65536 entries, state and quota output on, per-file output off).
pub fn run_settings(
    checkpoint_ms: Option<u64>,
    batch_size: Option<usize>,
    state_verbose: Option<bool>,
    loop_verbose: Option<bool>,
    quota_update_verbose: Option<bool>,
) -> (s: RunSettings)
    ensures
        s.state_verbose == (match state_verbose {
            Some(v) => v,
            None => true,
        }),
        s.loop_verbose == (match loop_verbose {
            Some(v) => v,
            None => false,
        }),
        s.quota_update_verbose == (match quota_update_verbose {
            Some(v) => v,
            None => true,
        }),
        s.checkpoint_ms == (match checkpoint_ms {
            Some(m) => m,
            None => DEFAULT_CHECKPOINT_MS,
        }),
        s.batch_size == (match batch_size {
            Some(b) => b,
            None => DEFAULT_BATCH_SIZE,
        }),
{
    let checkpoint_ms = match checkpoint_ms {
        Some(m) => m,
        None => DEFAULT_CHECKPOINT_MS,
    };
    let batch_size = match batch_size {
        Some(b) => b,
        None => DEFAULT_BATCH_SIZE,
    };
    let state_verbose = match state_verbose {
        Some(v) => v,
        None => true,
    };
    let loop_verbose = match loop_verbose {
        Some(v) => v,
        None => false,
    };
    let quota_update_verbose = match quota_update_verbose {
        Some(v) => v,
        None => true,
    };
    RunSettings { checkpoint_ms, batch_size, state_verbose, loop_verbose, quota_update_verbose }
}

} // verus!
