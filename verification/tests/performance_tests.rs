use weft_terminal::performance::{
    MemoryPool, PerformanceManager, PerformanceMetrics, PoolError, TaskPriority, TaskScheduler, TaskType,
};

#[test]
fn tasks_queue_by_priority_in_arrival_order() {
    let mut s = TaskScheduler::new();
    s.schedule_task("a".to_string(), TaskPriority::Normal, TaskType::UpdateUI, 10, 1);
    s.schedule_task("b".to_string(), TaskPriority::High, TaskType::UpdateUI, 10, 2);
    s.schedule_task("c".to_string(), TaskPriority::Normal, TaskType::UpdateUI, 10, 3);
    s.schedule_task("d".to_string(), TaskPriority::Background, TaskType::UpdateUI, 10, 4);
    let ids: Vec<&str> = s.task_queue.iter().map(|t| t.id.as_str()).collect();
    assert_eq!(ids, vec!["b", "a", "c", "d"]);
    let first = s.get_next_task().unwrap();
    assert_eq!(first.id, "b");
    assert_eq!(s.task_queue.len(), 3);
}

#[test]
fn scheduler_sizes_for_cores() {
    let mut s = TaskScheduler::new();
    assert_eq!(s.max_concurrent_tasks, 4);
    s.configure_for_cores(8);
    assert_eq!(s.max_concurrent_tasks, 16);
    s.configure_for_host();
    assert!(s.cpu_cores >= 1);
    assert!(s.max_concurrent_tasks >= 2);
}

#[test]
fn pools_hand_out_blocks_until_full() {
    let mut p = MemoryPool::with_default_pools();
    assert_eq!(p.allocate(32, "small", 1), Ok(0));
    assert_eq!(p.allocate(32, "small", 2), Ok(64));
    assert_eq!(p.pools[0].allocated_blocks, 2);
    assert_eq!(p.allocate(32, "tiny", 3), Err(PoolError::PoolNotFound));
    assert_eq!(p.deallocate_at_address(0, 64, "small"), Ok(()));
    assert_eq!(p.pools[0].allocated_blocks, 1);
    assert_eq!(p.allocate(16, "small", 4), Ok(0));
}

#[test]
fn average_command_time_divides_like_duration() {
    let mut m = PerformanceMetrics::new();
    m.add_command_time(1_000_000_000);
    m.add_command_time(2_000_000_001);
    assert_eq!(m.get_average_command_time(), 1_500_000_000);
    assert_eq!(PerformanceMetrics::new().get_average_frame_time(), 0);
}

#[test]
fn pool_errors() {
    let mut p = MemoryPool::with_default_pools();
    for i in 0..100usize {
        assert_eq!(p.allocate(100, "large", i as u64), Ok(i * 16384));
    }
    assert_eq!(p.allocate(100, "large", 200), Err(PoolError::PoolFull));
    assert_eq!(p.deallocate_at_address(16384, 1, "large"), Err(PoolError::BlockMismatch));
    assert_eq!(p.deallocate_at_address(3, 16384, "large"), Err(PoolError::BlockMismatch));
    assert_eq!(p.deallocate_at_address(16384, 16384, "large"), Ok(()));
    assert_eq!(p.allocate(20_000, "large", 201), Err(PoolError::NoAvailableBlocks));
    assert_eq!(p.allocate(16_000, "large", 202), Ok(16384));
}

#[test]
fn optimizing_sorts_and_caps_the_queue() {
    let mut m = PerformanceManager::new();
    m.task_scheduler.configure_for_cores(1);
    for (i, p) in [TaskPriority::Low, TaskPriority::Critical, TaskPriority::Normal, TaskPriority::Critical, TaskPriority::Background].iter().enumerate() {
        m.task_scheduler.task_queue.push(weft_terminal::performance::ScheduledTask {
            id: format!("t{}", i),
            priority: *p,
            task_type: TaskType::BackgroundSync,
            created_at: 0,
            estimated_duration: 1,
            dependencies: Vec::new(),
            retry_count: 0,
        });
    }
    m.optimize_task_scheduling();
    let ids: Vec<&str> = m.task_scheduler.task_queue.iter().map(|t| t.id.as_str()).collect();
    assert_eq!(ids, vec!["t1", "t3", "t2", "t0"]);
    assert_eq!(m.allocate_memory(10, "medium", 1), Ok(0));
    assert_eq!(m.deallocate_memory(0, 1024, "medium"), Ok(()));
    assert_eq!(m.deallocate_memory(0, 1024, "nope"), Err(PoolError::PoolNotFound));
}
