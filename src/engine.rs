use crate::limiter::RateLimitStatus;
use crate::models::DbCrawlerState;
use crate::queue::{dedup, pushed, pushed_all, QueueView, SummonerPriority, SummonerQueue, SummonerTask};
use crate::worker::{head, is_task_for};
use vstd::prelude::*;
use vstd::string::*;

verus! {

/// Failed tasks are re-enqueued while they have been retried fewer times than this.
pub const MAX_TASK_RETRIES: u32 = 3;

/// Below this queue depth, seeding also draws on the master league.
pub const SEED_QUEUE_THRESHOLD: usize = 100;

/// How many league entries per region seeding looks at.
pub const LEAGUE_SEED_LIMIT: usize = 50;

/// How many stale players seeding takes from the store.
pub const STORE_SEED_LIMIT: usize = 1000;

/// Every this many processed tasks, the queue is pruned of duplicates.
pub const DEDUP_EVERY: u64 = 100;

/// `task` after one more failed attempt: retried once more, demoted to Low.
pub open spec fn demoted(task: SummonerTask) -> SummonerTask {
    SummonerTask { retries: (task.retries + 1) as u32, priority: SummonerPriority::Low, ..task }
}

/// What becomes of a task whose processing failed: while it has been retried
/// fewer than three times, a copy with one more retry goes to the Low band;
/// after that it is dropped.
pub fn requeue_after_failure(task: SummonerTask) -> (r: Option<SummonerTask>)
    ensures
        task.retries < MAX_TASK_RETRIES ==> r == Some(demoted(task)),
        task.retries >= MAX_TASK_RETRIES ==> r is None,
{
    if task.retries < MAX_TASK_RETRIES {
        let mut t = task;
        t.retries = t.retries + 1;
        t.priority = SummonerPriority::Low;
        Some(t)
    } else {
        None
    }
}

/// Whether seeding should also draw on the master league.
pub fn needs_league_seed(queue_total: usize) -> (r: bool)
    ensures
        r == (queue_total < SEED_QUEUE_THRESHOLD),
{
    queue_total < SEED_QUEUE_THRESHOLD
}

/// Medium-priority tasks for players that the store holds, least recently
/// refreshed first, each given as (pid, region).
pub fn store_seed_tasks(rows: &Vec<(String, String)>, added_at: i64) -> (r: Vec<SummonerTask>)
    ensures
        r@.len() == rows@.len(),
        forall|i: int|
            0 <= i < r@.len() ==> is_task_for(
                #[trigger] r@[i],
                rows@[i].0@,
                Seq::empty(),
                rows@[i].1@,
                SummonerPriority::Medium,
                added_at,
            ),
{
    let mut out: Vec<SummonerTask> = Vec::new();
    let mut i: usize = 0;
    while i < rows.len()
        invariant
            i <= rows@.len(),
            out@.len() == i,
            forall|k: int|
                0 <= k < i ==> is_task_for(
                    #[trigger] out@[k],
                    rows@[k].0@,
                    Seq::empty(),
                    rows@[k].1@,
                    SummonerPriority::Medium,
                    added_at,
                ),
        decreases rows@.len() - i,
    {
        let t = SummonerTask {
            puuid: rows[i].0.clone(),
            summoner_name: String::new(),
            region: rows[i].1.clone(),
            priority: SummonerPriority::Medium,
            added_at,
            retries: 0,
        };
        out.push(t);
        i = i + 1;
    }
    out
}

/// A league entry offered for seeding, and whether the store already knows the player.
#[derive(Clone, Debug)]
pub struct SeedCandidate {
    pub puuid: String,
    pub known: bool,
}

/// The candidates among the first fifty that the store does not know.
pub open spec fn league_picks(cs: Seq<SeedCandidate>) -> Seq<SeedCandidate>
    decreases cs.len(),
{
    if cs.len() == 0 {
        Seq::empty()
    } else {
        let rest = league_picks(cs.drop_last());
        if cs.len() <= LEAGUE_SEED_LIMIT && !cs.last().known {
            rest.push(cs.last())
        } else {
            rest
        }
    }
}

/// The display name given to a league player until the profile is fetched.
pub open spec fn league_name(pid: Seq<char>) -> Seq<char> {
    "Master_Player_"@ + head(pid, 8)
}

/// High-priority tasks for the first fifty league entries of `region` that
/// the store does not know.
pub fn league_seed_tasks(candidates: &Vec<SeedCandidate>, region: &str, added_at: i64) -> (r: Vec<SummonerTask>)
    ensures
        r@.len() == league_picks(candidates@).len(),
        forall|i: int|
            0 <= i < r@.len() ==> is_task_for(
                #[trigger] r@[i],
                league_picks(candidates@)[i].puuid@,
                league_name(league_picks(candidates@)[i].puuid@),
                region@,
                SummonerPriority::High,
                added_at,
            ),
{
    let mut out: Vec<SummonerTask> = Vec::new();
    let mut i: usize = 0;
    while i < candidates.len()
        invariant
            i <= candidates@.len(),
            out@.len() == league_picks(candidates@.subrange(0, i as int)).len(),
            forall|k: int|
                0 <= k < out@.len() ==> is_task_for(
                    #[trigger] out@[k],
                    league_picks(candidates@.subrange(0, i as int))[k].puuid@,
                    league_name(league_picks(candidates@.subrange(0, i as int))[k].puuid@),
                    region@,
                    SummonerPriority::High,
                    added_at,
                ),
        decreases candidates@.len() - i,
    {
        let ghost next = candidates@.subrange(0, i + 1);
        assert(next.drop_last() =~= candidates@.subrange(0, i as int));
        if i < LEAGUE_SEED_LIMIT && !candidates[i].known {
            let pid = &candidates[i].puuid;
            let mut name = String::from_str("Master_Player_");
            let n = pid.unicode_len();
            if n <= 8 {
                assert(pid@.subrange(0, n as int) =~= pid@);
                name.append(pid.as_str().substring_char(0, n));
            } else {
                name.append(pid.as_str().substring_char(0, 8));
            }
            let t = SummonerTask {
                puuid: pid.clone(),
                summoner_name: name,
                region: String::from_str(region),
                priority: SummonerPriority::High,
                added_at,
                retries: 0,
            };
            out.push(t);
        }
        i = i + 1;
    }
    assert(candidates@.subrange(0, i as int) =~= candidates@);
    out
}

/// `n` as an `i32`, clamped to `0..=i32::MAX`.
pub open spec fn clamp_i32(n: int) -> i32 {
    if n < 0 { 0 } else if n > i32::MAX { i32::MAX } else { n as i32 }
}

/// A fresh progress row: totals from the store, the queue depth now.
pub fn crawler_state_row(queue_total: usize, matches: i64, summoners: i64, now_ms: i64) -> (r: DbCrawlerState)
    ensures
        r.id == 1,
        r.last_processed_summoner is None,
        r.total_summoners_processed == clamp_i32(summoners as int),
        r.total_matches_processed == clamp_i32(matches as int),
        r.queue_size == clamp_i32(queue_total as int),
        r.last_update == now_ms,
{
    DbCrawlerState {
        id: 1,
        last_processed_summoner: None,
        total_summoners_processed: clamp_count(summoners as i128),
        total_matches_processed: clamp_count(matches as i128),
        queue_size: clamp_count(queue_total as i128),
        last_update: now_ms,
    }
}

fn clamp_count(n: i128) -> (r: i32)
    ensures
        r == clamp_i32(n as int),
{
    if n < 0 {
        0
    } else if n > i32::MAX as i128 {
        i32::MAX
    } else {
        n as i32
    }
}

/// The running flag that every loop of the engine polls.
pub struct Lifecycle {
    running: bool,
}

impl Lifecycle {
    pub closed spec fn spec_running(&self) -> bool {
        self.running
    }

    pub fn new() -> (r: Self)
        ensures
            !r.spec_running(),
    {
        Lifecycle { running: false }
    }

    /// Sets the flag if it was clear; tells whether this call started the engine.
    pub fn try_start(&mut self) -> (started: bool)
        ensures
            started == !old(self).spec_running(),
            final(self).spec_running(),
    {
        if self.running {
            false
        } else {
            self.running = true;
            true
        }
    }

    /// Clears the flag; loops exit on their next tick.
    pub fn stop(&mut self)
        ensures
            !final(self).spec_running(),
    {
        self.running = false;
    }

    pub fn is_running(&self) -> (r: bool)
        ensures
            r == self.spec_running(),
    {
        self.running
    }
}

/// Counts the tasks the worker loop has processed.
pub struct WorkerProgress {
    processed: u64,
}

impl WorkerProgress {
    pub closed spec fn spec_processed(&self) -> nat {
        self.processed as nat
    }

    pub fn new() -> (r: Self)
        ensures
            r.spec_processed() == 0,
    {
        WorkerProgress { processed: 0 }
    }

    /// Records one successfully processed task; tells whether the queue is
    /// due for duplicate pruning (every hundredth task).
    pub fn record_success(&mut self) -> (prune: bool)
        ensures
            final(self).spec_processed() == (if old(self).spec_processed() < u64::MAX {
                old(self).spec_processed() + 1
            } else {
                old(self).spec_processed()
            }),
            prune == (final(self).spec_processed() % DEDUP_EVERY as nat == 0 && old(self).spec_processed()
                < u64::MAX),
    {
        if self.processed < u64::MAX {
            self.processed = self.processed + 1;
            self.processed % DEDUP_EVERY == 0
        } else {
            false
        }
    }

    /// Settles one processed task on the queue: its discoveries are pushed
    /// and every hundredth success prunes duplicates; a failed task is
    /// re-enqueued demoted while it has retries left. Tells whether it pruned.
    pub fn settle_task(
        &mut self,
        queue: &mut SummonerQueue,
        task: SummonerTask,
        discovered: Option<Vec<SummonerTask>>,
    ) -> (pruned: bool)
        ensures
            discovered is None ==> {
                &&& final(self).spec_processed() == old(self).spec_processed()
                &&& !pruned
                &&& final(queue)@ == (if task.retries < MAX_TASK_RETRIES {
                    pushed(old(queue)@, demoted(task))
                } else {
                    old(queue)@
                })
            },
            discovered matches Some(ts) ==> {
                let after = pushed_all(old(queue)@, ts@);
                &&& final(self).spec_processed() == (if old(self).spec_processed() < u64::MAX {
                    old(self).spec_processed() + 1
                } else {
                    old(self).spec_processed()
                })
                &&& pruned == (final(self).spec_processed() % DEDUP_EVERY as nat == 0
                    && old(self).spec_processed() < u64::MAX)
                &&& final(queue)@ == (if pruned {
                    QueueView { high: dedup(after.high), medium: dedup(after.medium), low: dedup(after.low) }
                } else {
                    after
                })
            },
    {
        match discovered {
            Some(ts) => {
                queue.push_batch(ts);
                let prune = self.record_success();
                if prune {
                    queue.remove_duplicates();
                }
                prune
            },
            None => {
                match requeue_after_failure(task) {
                    Some(t) => queue.push(t),
                    None => {},
                }
                false
            },
        }
    }

    pub fn processed(&self) -> (r: u64)
        ensures
            r == self.spec_processed(),
    {
        self.processed
    }
}

/// Band sizes of the queue.
#[derive(Clone, Copy, Debug, PartialEq, Eq, Structural)]
pub struct QueueSizes {
    pub high: usize,
    pub medium: usize,
    pub low: usize,
}

/// Row counts of the store.
#[derive(Clone, Copy, Debug, PartialEq, Eq, Structural)]
pub struct DatabaseStats {
    pub matches: i64,
    pub summoners: i64,
    pub participants: i64,
}

/// A snapshot for health reports.
#[derive(Clone, Copy, Debug, PartialEq, Eq, Structural)]
pub struct CrawlerStatus {
    pub running: bool,
    pub queue_sizes: QueueSizes,
    pub rate_limit_status: RateLimitStatus,
    pub database_stats: DatabaseStats,
}

} // verus!
