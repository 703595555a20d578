use std::collections::VecDeque;
use vstd::prelude::*;

verus! {

/// The band a task waits in.
#[derive(Clone, Copy, Debug, PartialEq, Eq, Structural)]
pub enum SummonerPriority {
    High,
    Medium,
    Low,
}

/// One unit of worker work: a player to fetch and expand.
#[derive(Clone, Debug)]
pub struct SummonerTask {
    pub puuid: String,
    pub summoner_name: String,
    pub region: String,
    pub priority: SummonerPriority,
    /// When the task was made, in milliseconds since the Unix epoch.
    pub added_at: i64,
    pub retries: u32,
}

/// The three bands, front first.
pub ghost struct QueueView {
    pub high: Seq<SummonerTask>,
    pub medium: Seq<SummonerTask>,
    pub low: Seq<SummonerTask>,
}

pub open spec fn empty_queue() -> QueueView {
    QueueView { high: Seq::empty(), medium: Seq::empty(), low: Seq::empty() }
}

/// The queue after appending `t` to the band of its priority.
pub open spec fn pushed(v: QueueView, t: SummonerTask) -> QueueView {
    match t.priority {
        SummonerPriority::High => QueueView { high: v.high.push(t), ..v },
        SummonerPriority::Medium => QueueView { medium: v.medium.push(t), ..v },
        SummonerPriority::Low => QueueView { low: v.low.push(t), ..v },
    }
}

/// The queue after pushing each of `ts` in turn.
pub open spec fn pushed_all(v: QueueView, ts: Seq<SummonerTask>) -> QueueView
    decreases ts.len(),
{
    if ts.len() == 0 {
        v
    } else {
        pushed(pushed_all(v, ts.drop_last()), ts.last())
    }
}

/// The order in which successive pops hand the tasks out.
pub open spec fn pop_order(v: QueueView) -> Seq<SummonerTask> {
    v.high + v.medium + v.low
}

/// The tasks of `ts` with priority `p`, in their order in `ts`.
pub open spec fn band_of(ts: Seq<SummonerTask>, p: SummonerPriority) -> Seq<SummonerTask>
    decreases ts.len(),
{
    if ts.len() == 0 {
        Seq::empty()
    } else if ts.last().priority == p {
        band_of(ts.drop_last(), p).push(ts.last())
    } else {
        band_of(ts.drop_last(), p)
    }
}

/// Whether some task of `s` is for player `pid`.
pub open spec fn has_pid(s: Seq<SummonerTask>, pid: Seq<char>) -> bool {
    exists|i: int| 0 <= i < s.len() && (#[trigger] s[i]).puuid@ == pid
}

/// `s` with every task dropped whose player already has an earlier task.
pub open spec fn dedup(s: Seq<SummonerTask>) -> Seq<SummonerTask>
    decreases s.len(),
{
    if s.len() == 0 {
        Seq::empty()
    } else if has_pid(s.drop_last(), s.last().puuid@) {
        dedup(s.drop_last())
    } else {
        dedup(s.drop_last()).push(s.last())
    }
}

/// No two tasks of `s` are for the same player.
pub open spec fn pids_distinct(s: Seq<SummonerTask>) -> bool {
    forall|i: int, j: int|
        0 <= i < j < s.len() ==> (#[trigger] s[i]).puuid@ != (#[trigger] s[j]).puuid@
}

proof fn lemma_dedup_pids(s: Seq<SummonerTask>)
    ensures
        forall|pid: Seq<char>| has_pid(dedup(s), pid) == has_pid(s, pid),
        pids_distinct(dedup(s)),
        forall|i: int|
            0 <= i < dedup(s).len() ==> exists|j: int|
                0 <= j < s.len() && s[j] == #[trigger] dedup(s)[i] && !has_pid(
                    s.subrange(0, j),
                    s[j].puuid@,
                ),
    decreases s.len(),
{
    if s.len() > 0 {
        let p = s.drop_last();
        lemma_dedup_pids(p);
        let d = dedup(p);
        assert forall|pid: Seq<char>| has_pid(s, pid) implies has_pid(dedup(s), pid) by {
            let i = choose|i: int| 0 <= i < s.len() && (#[trigger] s[i]).puuid@ == pid;
            if i < s.len() - 1 || has_pid(p, s.last().puuid@) {
                if i < s.len() - 1 {
                    assert(p[i] == s[i]);
                }
                assert(has_pid(p, pid));
                assert(has_pid(d, pid));
                let k = choose|k: int| 0 <= k < d.len() && (#[trigger] d[k]).puuid@ == pid;
                assert(dedup(s)[k] == d[k]);
            } else {
                assert(dedup(s)[d.len() as int] == s.last());
            }
        }
        assert forall|pid: Seq<char>| has_pid(dedup(s), pid) implies has_pid(s, pid) by {
            let i = choose|i: int| 0 <= i < dedup(s).len() && (#[trigger] dedup(s)[i]).puuid@ == pid;
            if i < d.len() {
                assert(dedup(s)[i] == d[i]);
                assert(has_pid(d, pid));
                let k = choose|k: int| 0 <= k < p.len() && (#[trigger] p[k]).puuid@ == pid;
                assert(s[k] == p[k]);
            } else {
                assert(s[s.len() - 1].puuid@ == pid);
            }
        }
        assert forall|i: int| 0 <= i < dedup(s).len() implies exists|j: int|
            0 <= j < s.len() && s[j] == #[trigger] dedup(s)[i] && !has_pid(
                s.subrange(0, j),
                s[j].puuid@,
            ) by {
            if i < d.len() {
                assert(dedup(s)[i] == d[i]);
                let j = choose|j: int|
                    0 <= j < p.len() && p[j] == #[trigger] d[i] && !has_pid(p.subrange(0, j), p[j].puuid@);
                assert(s[j] == p[j]);
                assert(s.subrange(0, j) =~= p.subrange(0, j));
            } else {
                assert(s.subrange(0, s.len() - 1) =~= p);
            }
        }
        if !has_pid(p, s.last().puuid@) {
            assert forall|i: int, j: int|
                0 <= i < j < dedup(s).len() implies (#[trigger] dedup(s)[i]).puuid@ != (
            #[trigger] dedup(s)[j]).puuid@ by {
                if j == d.len() {
                    assert(dedup(s)[i] == d[i]);
                    if d[i].puuid@ == s.last().puuid@ {
                        assert(has_pid(d, s.last().puuid@));
                    }
                } else {
                    assert(dedup(s)[i] == d[i] && dedup(s)[j] == d[j]);
                }
            }
        }
    }
}

proof fn lemma_dedup_of_distinct(s: Seq<SummonerTask>)
    requires
        pids_distinct(s),
    ensures
        dedup(s) == s,
    decreases s.len(),
{
    if s.len() > 0 {
        let p = s.drop_last();
        assert(pids_distinct(p)) by {
            assert forall|i: int, j: int| 0 <= i < j < p.len() implies (#[trigger] p[i]).puuid@ != (
            #[trigger] p[j]).puuid@ by {
                assert(p[i] == s[i] && p[j] == s[j]);
            }
        }
        lemma_dedup_of_distinct(p);
        if has_pid(p, s.last().puuid@) {
            let i = choose|i: int| 0 <= i < p.len() && (#[trigger] p[i]).puuid@ == s.last().puuid@;
            assert(s[i] == p[i]);
            assert(s[i].puuid@ != s[s.len() - 1].puuid@);
        }
        assert(p.push(s.last()) =~= s);
    }
}

/// Pruning duplicates keeps, for each player, exactly the first of its tasks,
/// in the original order, and pruning a second time changes nothing.
pub proof fn lemma_dedup_law(s: Seq<SummonerTask>)
    ensures
        dedup(dedup(s)) == dedup(s),
        pids_distinct(dedup(s)),
        forall|pid: Seq<char>| has_pid(dedup(s), pid) == has_pid(s, pid),
        forall|i: int|
            0 <= i < dedup(s).len() ==> exists|j: int|
                0 <= j < s.len() && s[j] == #[trigger] dedup(s)[i] && !has_pid(
                    s.subrange(0, j),
                    s[j].puuid@,
                ),
{
    lemma_dedup_pids(s);
    lemma_dedup_of_distinct(dedup(s));
}

/// Pushing a run of tasks into an empty queue and then popping until it is
/// empty hands out every High task first, then every Medium, then every Low,
/// each band in the order of the pushes.
pub proof fn lemma_pushes_then_pops(ts: Seq<SummonerTask>)
    ensures
        pushed_all(empty_queue(), ts) == (QueueView {
            high: band_of(ts, SummonerPriority::High),
            medium: band_of(ts, SummonerPriority::Medium),
            low: band_of(ts, SummonerPriority::Low),
        }),
        pop_order(pushed_all(empty_queue(), ts)) == band_of(ts, SummonerPriority::High) + band_of(
            ts,
            SummonerPriority::Medium,
        ) + band_of(ts, SummonerPriority::Low),
    decreases ts.len(),
{
    if ts.len() > 0 {
        lemma_pushes_then_pops(ts.drop_last());
    }
}

/// The place of a priority in pop order.
pub open spec fn rank(p: SummonerPriority) -> nat {
    match p {
        SummonerPriority::High => 0,
        SummonerPriority::Medium => 1,
        SummonerPriority::Low => 2,
    }
}

proof fn lemma_band_of_priority(ts: Seq<SummonerTask>, p: SummonerPriority)
    ensures
        forall|i: int| 0 <= i < band_of(ts, p).len() ==> (#[trigger] band_of(ts, p)[i]).priority == p,
    decreases ts.len(),
{
    if ts.len() > 0 {
        lemma_band_of_priority(ts.drop_last(), p);
    }
}

/// Pushing `a` and then `b` is pushing `a` followed by `b`: any mix of
/// `push` and `push_batch` calls is one run of pushes.
pub proof fn lemma_pushes_compose(v: QueueView, a: Seq<SummonerTask>, b: Seq<SummonerTask>)
    ensures
        pushed_all(pushed_all(v, a), b) == pushed_all(v, a + b),
    decreases b.len(),
{
    if b.len() == 0 {
        assert(a + b =~= a);
    } else {
        lemma_pushes_compose(v, a, b.drop_last());
        assert((a + b).drop_last() =~= a + b.drop_last());
        assert((a + b).last() == b.last());
    }
}

/// Popping a queue filled from empty until it is empty again hands out tasks in
/// non-decreasing rank: every High before any Medium, every Medium before any Low.
pub proof fn lemma_pop_order_ranked(ts: Seq<SummonerTask>)
    ensures
        forall|i: int, j: int|
            0 <= i < j < pop_order(pushed_all(empty_queue(), ts)).len() ==> rank(
                (#[trigger] pop_order(pushed_all(empty_queue(), ts))[i]).priority,
            ) <= rank((#[trigger] pop_order(pushed_all(empty_queue(), ts))[j]).priority),
{
    lemma_pushes_then_pops(ts);
    lemma_band_of_priority(ts, SummonerPriority::High);
    lemma_band_of_priority(ts, SummonerPriority::Medium);
    lemma_band_of_priority(ts, SummonerPriority::Low);
    let h = band_of(ts, SummonerPriority::High);
    let m = band_of(ts, SummonerPriority::Medium);
    let l = band_of(ts, SummonerPriority::Low);
    let o = pop_order(pushed_all(empty_queue(), ts));
    assert forall|i: int| 0 <= i < o.len() implies rank((#[trigger] o[i]).priority) == (if i < h.len() {
        0nat
    } else if i < h.len() + m.len() {
        1nat
    } else {
        2nat
    }) by {
        if i < h.len() {
            assert(o[i] == h[i]);
        } else if i < h.len() + m.len() {
            assert(o[i] == m[i - h.len()]);
        } else {
            assert(o[i] == l[i - h.len() - m.len()]);
        }
    }
}

/// Three FIFO bands; a pop takes from the highest band that is not empty.
#[derive(Debug)]
pub struct SummonerQueue {
    high_priority: VecDeque<SummonerTask>,
    medium_priority: VecDeque<SummonerTask>,
    low_priority: VecDeque<SummonerTask>,
}

impl View for SummonerQueue {
    type V = QueueView;

    closed spec fn view(&self) -> QueueView {
        QueueView {
            high: self.high_priority@,
            medium: self.medium_priority@,
            low: self.low_priority@,
        }
    }
}

impl SummonerQueue {
    pub fn new() -> (q: Self)
        ensures
            q@ == empty_queue(),
    {
        SummonerQueue {
            high_priority: VecDeque::new(),
            medium_priority: VecDeque::new(),
            low_priority: VecDeque::new(),
        }
    }

    /// Appends `task` to the band of its priority.
    pub fn push(&mut self, task: SummonerTask)
        ensures
            final(self)@ == pushed(old(self)@, task),
    {
        match task.priority {
            SummonerPriority::High => self.high_priority.push_back(task),
            SummonerPriority::Medium => self.medium_priority.push_back(task),
            SummonerPriority::Low => self.low_priority.push_back(task),
        }
    }

    /// Appends each task to the band of its priority, keeping their order.
    pub fn push_batch(&mut self, tasks: Vec<SummonerTask>)
        ensures
            final(self)@ == pushed_all(old(self)@, tasks@),
    {
        let ghost all = tasks@;
        let mut tasks = tasks;
        let mut rest: Vec<SummonerTask> = Vec::new();
        // Reverse so that popping from the back yields the tasks in order.
        while tasks.len() > 0
            invariant
                all == tasks@ + rest@.reverse(),
            decreases tasks@.len(),
        {
            let t = tasks.pop().unwrap();
            rest.push(t);
            assert(all =~= tasks@ + rest@.reverse());
        }
        let ghost start = self@;
        let mut done: usize = 0;
        let count = rest.len();
        assert(all.len() == count);
        while rest.len() > 0
            invariant
                all.len() <= usize::MAX,
                all == rest@.reverse().subrange(0, 0) + all.subrange(0, done as int) + rest@.reverse(),
                done + rest@.len() == all.len(),
                self@ == pushed_all(start, all.subrange(0, done as int)),
            decreases rest@.len(),
        {
            let t = rest.pop().unwrap();
            assert(all.subrange(0, done + 1).drop_last() =~= all.subrange(0, done as int));
            assert(all[done as int] == t);
            self.push(t);
            done = done + 1;
            assert(all =~= rest@.reverse().subrange(0, 0) + all.subrange(0, done as int) + rest@.reverse());
        }
        assert(all.subrange(0, done as int) =~= all);
    }

    /// Takes the front of the highest band that is not empty.
    pub fn pop(&mut self) -> (r: Option<SummonerTask>)
        ensures
            pop_order(old(self)@).len() == 0 ==> r is None && final(self)@ == old(self)@,
            pop_order(old(self)@).len() > 0 ==> {
                &&& r == Some(pop_order(old(self)@)[0])
                &&& pop_order(final(self)@) == pop_order(old(self)@).drop_first()
                &&& final(self)@ == (if old(self)@.high.len() > 0 {
                    QueueView { high: old(self)@.high.drop_first(), ..old(self)@ }
                } else if old(self)@.medium.len() > 0 {
                    QueueView { medium: old(self)@.medium.drop_first(), ..old(self)@ }
                } else {
                    QueueView { low: old(self)@.low.drop_first(), ..old(self)@ }
                })
            },
    {
        let ghost v = self@;
        if let Some(t) = self.high_priority.pop_front() {
            assert(pop_order(self@) =~= pop_order(v).drop_first());
            return Some(t);
        }
        if let Some(t) = self.medium_priority.pop_front() {
            assert(pop_order(self@) =~= pop_order(v).drop_first());
            return Some(t);
        }
        let r = self.low_priority.pop_front();
        proof {
            if pop_order(v).len() > 0 {
                assert(pop_order(self@) =~= pop_order(v).drop_first());
            }
        }
        r
    }

    /// The lengths of the High, Medium and Low bands.
    pub fn size(&self) -> (r: (usize, usize, usize))
        ensures
            r.0 == self@.high.len(),
            r.1 == self@.medium.len(),
            r.2 == self@.low.len(),
    {
        (self.high_priority.len(), self.medium_priority.len(), self.low_priority.len())
    }

    /// The number of tasks in all bands (saturating at `usize::MAX`).
    pub fn total_size(&self) -> (n: usize)
        ensures
            n == (if pop_order(self@).len() <= usize::MAX {
                pop_order(self@).len()
            } else {
                usize::MAX as nat
            }),
    {
        let (h, m, l) = self.size();
        let total: u128 = h as u128 + m as u128 + l as u128;
        if total <= usize::MAX as u128 {
            total as usize
        } else {
            usize::MAX
        }
    }

    pub fn is_empty(&self) -> (r: bool)
        ensures
            r == (pop_order(self@).len() == 0),
    {
        self.high_priority.len() == 0 && self.medium_priority.len() == 0
            && self.low_priority.len() == 0
    }

    /// Empties all bands.
    pub fn clear(&mut self)
        ensures
            final(self)@ == empty_queue(),
    {
        self.high_priority.clear();
        self.medium_priority.clear();
        self.low_priority.clear();
        assert(self@ =~= empty_queue());
    }

    /// The band that the next pop would take from, if any.
    pub fn peek_next(&self) -> (r: Option<SummonerPriority>)
        ensures
            r == (if self@.high.len() > 0 {
                Some(SummonerPriority::High)
            } else if self@.medium.len() > 0 {
                Some(SummonerPriority::Medium)
            } else if self@.low.len() > 0 {
                Some(SummonerPriority::Low)
            } else {
                None
            }),
    {
        if self.high_priority.len() > 0 {
            Some(SummonerPriority::High)
        } else if self.medium_priority.len() > 0 {
            Some(SummonerPriority::Medium)
        } else if self.low_priority.len() > 0 {
            Some(SummonerPriority::Low)
        } else {
            None
        }
    }

    /// Rewrites each band keeping only the first task of each player.
    pub fn remove_duplicates(&mut self)
        ensures
            final(self)@ == (QueueView {
                high: dedup(old(self)@.high),
                medium: dedup(old(self)@.medium),
                low: dedup(old(self)@.low),
            }),
    {
        remove_duplicates_from_queue(&mut self.high_priority);
        remove_duplicates_from_queue(&mut self.medium_priority);
        remove_duplicates_from_queue(&mut self.low_priority);
    }
}

impl Default for SummonerQueue {
    fn default() -> (q: Self)
        ensures
            q@ == empty_queue(),
    {
        SummonerQueue::new()
    }
}

fn contains_pid(kept: &VecDeque<SummonerTask>, pid: &String) -> (r: bool)
    ensures
        r == has_pid(kept@, pid@),
{
    let mut i: usize = 0;
    while i < kept.len()
        invariant
            i <= kept@.len(),
            forall|k: int| 0 <= k < i ==> (#[trigger] kept@[k]).puuid@ != pid@,
        decreases kept@.len() - i,
    {
        if kept[i].puuid == *pid {
            return true;
        }
        i = i + 1;
    }
    false
}

fn remove_duplicates_from_queue(band: &mut VecDeque<SummonerTask>)
    ensures
        final(band)@ == dedup(old(band)@),
{
    let ghost all = band@;
    let mut kept: VecDeque<SummonerTask> = VecDeque::new();
    let mut seen: usize = 0;
    let count = band.len();
    while band.len() > 0
        invariant
            all.len() == count,
            seen + band@.len() == all.len(),
            band@ == all.subrange(seen as int, all.len() as int),
            kept@ == dedup(all.subrange(0, seen as int)),
        decreases band@.len(),
    {
        let t = band.pop_front().unwrap();
        let ghost prefix = all.subrange(0, seen as int);
        let ghost next = all.subrange(0, seen + 1);
        assert(next.drop_last() =~= prefix);
        assert(next.last() == t);
        proof {
            lemma_dedup_pids(prefix);
        }
        if !contains_pid(&kept, &t.puuid) {
            kept.push_back(t);
        }
        seen = seen + 1;
        assert(band@ =~= all.subrange(seen as int, all.len() as int));
    }
    assert(all.subrange(0, seen as int) =~= all);
    *band = kept;
}

} // verus!
