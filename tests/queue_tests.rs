use lol_crawler::engine::{requeue_after_failure, WorkerProgress};
use lol_crawler::queue::{SummonerPriority, SummonerQueue, SummonerTask};

fn create_test_task(puuid: &str, priority: SummonerPriority) -> SummonerTask {
    SummonerTask {
        puuid: puuid.to_string(),
        summoner_name: format!("Player{}", puuid),
        region: "na1".to_string(),
        priority,
        added_at: 1_700_000_000_000,
        retries: 0,
    }
}

#[test]
fn test_queue_priority_order() {
    let mut queue = SummonerQueue::new();

    queue.push(create_test_task("low", SummonerPriority::Low));
    queue.push(create_test_task("high", SummonerPriority::High));
    queue.push(create_test_task("medium", SummonerPriority::Medium));

    assert_eq!(queue.pop().unwrap().puuid, "high");
    assert_eq!(queue.pop().unwrap().puuid, "medium");
    assert_eq!(queue.pop().unwrap().puuid, "low");
    assert!(queue.pop().is_none());
}

#[test]
fn test_queue_sizes() {
    let mut queue = SummonerQueue::new();

    queue.push(create_test_task("1", SummonerPriority::High));
    queue.push(create_test_task("2", SummonerPriority::High));
    queue.push(create_test_task("3", SummonerPriority::Medium));
    queue.push(create_test_task("4", SummonerPriority::Low));

    let (high, medium, low) = queue.size();
    assert_eq!(high, 2);
    assert_eq!(medium, 1);
    assert_eq!(low, 1);
    assert_eq!(queue.total_size(), 4);
}

#[test]
fn test_batch_push() {
    let mut queue = SummonerQueue::new();

    let tasks = vec![
        create_test_task("1", SummonerPriority::High),
        create_test_task("2", SummonerPriority::Medium),
        create_test_task("3", SummonerPriority::Low),
    ];

    queue.push_batch(tasks);

    let (high, medium, low) = queue.size();
    assert_eq!(high, 1);
    assert_eq!(medium, 1);
    assert_eq!(low, 1);
}

#[test]
fn test_summoner_queue_priority_management() {
    let mut queue = SummonerQueue::new();
    queue.push(SummonerTask {
        puuid: "low-priority-puuid".to_string(),
        summoner_name: "LowPriorityPlayer".to_string(),
        region: "na1".to_string(),
        priority: SummonerPriority::Low,
        added_at: 0,
        retries: 0,
    });
    queue.push(SummonerTask {
        puuid: "high-priority-puuid".to_string(),
        summoner_name: "HighPriorityPlayer".to_string(),
        region: "na1".to_string(),
        priority: SummonerPriority::High,
        added_at: 0,
        retries: 0,
    });
    queue.push(SummonerTask {
        puuid: "medium-priority-puuid".to_string(),
        summoner_name: "MediumPriorityPlayer".to_string(),
        region: "na1".to_string(),
        priority: SummonerPriority::Medium,
        added_at: 0,
        retries: 0,
    });

    let (h, m, l) = queue.size();
    assert_eq!((h, m, l), (1, 1, 1));
    assert_eq!(queue.total_size(), 3);
    assert!(!queue.is_empty());
    assert_eq!(queue.peek_next(), Some(SummonerPriority::High));

    let first = queue.pop().unwrap();
    assert_eq!(first.puuid, "high-priority-puuid");
    assert_eq!(first.priority, SummonerPriority::High);
    assert_eq!(queue.peek_next(), Some(SummonerPriority::Medium));
    let second = queue.pop().unwrap();
    assert_eq!(second.puuid, "medium-priority-puuid");
    let third = queue.pop().unwrap();
    assert_eq!(third.puuid, "low-priority-puuid");
    assert!(queue.is_empty());
    assert_eq!(queue.peek_next(), None);
}

#[test]
fn test_batch_queue_operations() {
    let mut queue = SummonerQueue::new();
    queue.push_batch(vec![
        create_test_task("batch-high-1", SummonerPriority::High),
        create_test_task("batch-low-1", SummonerPriority::Low),
        create_test_task("batch-medium-1", SummonerPriority::Medium),
        create_test_task("batch-high-2", SummonerPriority::High),
    ]);
    assert_eq!(queue.size(), (2, 1, 1));
    assert_eq!(queue.pop().unwrap().puuid, "batch-high-1");
    assert_eq!(queue.pop().unwrap().puuid, "batch-high-2");
    assert_eq!(queue.pop().unwrap().puuid, "batch-medium-1");
    assert_eq!(queue.pop().unwrap().puuid, "batch-low-1");
    assert!(queue.pop().is_none());
}

#[test]
fn fifo_within_band_and_bands_in_order() {
    let mut queue = SummonerQueue::new();
    queue.push(create_test_task("m1", SummonerPriority::Medium));
    queue.push(create_test_task("l1", SummonerPriority::Low));
    queue.push(create_test_task("h1", SummonerPriority::High));
    queue.push(create_test_task("m2", SummonerPriority::Medium));
    queue.push(create_test_task("h2", SummonerPriority::High));
    queue.push(create_test_task("l2", SummonerPriority::Low));
    let mut order = Vec::new();
    while let Some(t) = queue.pop() {
        order.push(t.puuid);
    }
    assert_eq!(order, vec!["h1", "h2", "m1", "m2", "l1", "l2"]);
}

#[test]
fn priority_preemption_scenario() {
    let mut queue = SummonerQueue::new();
    queue.push(create_test_task("a", SummonerPriority::Low));
    queue.push(create_test_task("b", SummonerPriority::Medium));
    queue.push(create_test_task("c", SummonerPriority::High));
    assert_eq!(queue.pop().unwrap().puuid, "c");
    assert_eq!(queue.pop().unwrap().puuid, "b");
    assert_eq!(queue.pop().unwrap().puuid, "a");
}

#[test]
fn remove_duplicates_keeps_first_per_band_and_is_idempotent() {
    let mut queue = SummonerQueue::new();
    let mut first = create_test_task("x", SummonerPriority::Low);
    first.summoner_name = "first".to_string();
    let mut again = create_test_task("x", SummonerPriority::Low);
    again.summoner_name = "second".to_string();
    queue.push(first);
    queue.push(create_test_task("y", SummonerPriority::Low));
    queue.push(again);
    queue.push(create_test_task("x", SummonerPriority::High));
    queue.push(create_test_task("y", SummonerPriority::Low));

    queue.remove_duplicates();
    assert_eq!(queue.size(), (1, 0, 2));
    queue.remove_duplicates();
    assert_eq!(queue.size(), (1, 0, 2));

    let h = queue.pop().unwrap();
    assert_eq!(h.puuid, "x");
    let l1 = queue.pop().unwrap();
    assert_eq!(l1.puuid, "x");
    assert_eq!(l1.summoner_name, "first");
    assert_eq!(queue.pop().unwrap().puuid, "y");
    assert!(queue.pop().is_none());
}

#[test]
fn clear_empties_every_band() {
    let mut queue = SummonerQueue::new();
    queue.push(create_test_task("1", SummonerPriority::High));
    queue.push(create_test_task("2", SummonerPriority::Low));
    queue.clear();
    assert!(queue.is_empty());
    assert_eq!(queue.total_size(), 0);
}

#[test]
fn retry_demotion_scenario() {
    let mut queue = SummonerQueue::new();
    queue.push(create_test_task("p", SummonerPriority::High));

    let task = queue.pop().unwrap();
    let retry = requeue_after_failure(task).unwrap();
    queue.push(retry);
    let task = queue.pop().unwrap();
    let retry = requeue_after_failure(task).unwrap();
    queue.push(retry);

    assert_eq!(queue.size(), (0, 0, 1));
    let t = queue.pop().unwrap();
    assert_eq!(t.priority, SummonerPriority::Low);
    assert_eq!(t.retries, 2);
}

#[test]
fn task_is_dropped_after_third_retry() {
    let mut t = create_test_task("p", SummonerPriority::Medium);
    t.retries = 2;
    let t = requeue_after_failure(t).unwrap();
    assert_eq!(t.retries, 3);
    assert!(requeue_after_failure(t).is_none());
}

#[test]
fn failed_high_task_is_found_in_low_band_after_two_requeues() {
    let mut queue = SummonerQueue::new();
    let mut progress = WorkerProgress::new();
    queue.push(create_test_task("p", SummonerPriority::High));
    for _ in 0..2 {
        let task = queue.pop().unwrap();
        assert!(!progress.settle_task(&mut queue, task, None));
    }
    assert_eq!(queue.size(), (0, 0, 1));
    let t = queue.pop().unwrap();
    assert_eq!(t.retries, 2);
    assert_eq!(t.priority, SummonerPriority::Low);
    assert_eq!(progress.processed(), 0);
}

#[test]
fn settled_successes_push_discoveries_and_prune_every_hundredth() {
    let mut queue = SummonerQueue::new();
    let mut progress = WorkerProgress::new();
    for i in 0..100 {
        let found = vec![create_test_task("dup", SummonerPriority::Low)];
        let pruned = progress.settle_task(&mut queue, create_test_task("t", SummonerPriority::High), Some(found));
        assert_eq!(pruned, i == 99);
    }
    assert_eq!(queue.size(), (0, 0, 1));
}
