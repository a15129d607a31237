use weft_terminal::debugging::DebugEvent;
use weft_terminal::debugging::{
    metric_name, CommandTracer, DebuggingEngine, MemorySample, MemoryUsage, MetricType, NetworkDirection,
    PerformanceMonitor, Profiler,
};

fn start(t: &mut CommandTracer, session: &str, command: &str) {
    t.add_command_started(format!("id-{}", command), session.to_string(), command.to_string(), 0, Vec::new(), "/".to_string());
}

#[test]
fn tracer_counts_outcomes() {
    let mut t = CommandTracer::new();
    start(&mut t, "s", "ls");
    start(&mut t, "s", "ls");
    start(&mut t, "s", "make");
    t.add_command_completed("s", "ls", 2_000_000_000, 0);
    t.add_command_completed("s", "make", 4_000_000_000, 2);
    assert_eq!(t.get_command_count(), 3);
    assert_eq!(t.get_successful_command_count(), 1);
    assert_eq!(t.get_failed_command_count(), 1);
    assert_eq!(t.entries[1].exit_code, 0);
    assert_eq!(t.entries[0].exit_code, -1);
    assert_eq!(t.get_average_command_time(), 3_000_000_000);
}

#[test]
fn most_common_and_slowest_commands() {
    let mut t = CommandTracer::new();
    for c in ["a", "b", "b", "c", "b", "a"] {
        start(&mut t, "s", c);
    }
    let common = t.get_most_common_commands();
    assert_eq!(common, vec![("b".to_string(), 3), ("a".to_string(), 2), ("c".to_string(), 1)]);
    t.add_command_completed("s", "c", 5, 0);
    t.add_command_completed("s", "a", 9, 0);
    let slow = t.get_slowest_commands();
    assert_eq!(slow, vec![("a".to_string(), 9), ("c".to_string(), 5)]);
}

#[test]
fn errors_are_tallied_and_listed_newest_first() {
    let mut t = CommandTracer::new();
    t.add_error("lost".to_string(), "nowhere".to_string());
    assert_eq!(t.get_error_count(), 0);
    start(&mut t, "s", "x");
    t.add_error("E1".to_string(), "ctx".to_string());
    start(&mut t, "s", "y");
    t.add_error("E2".to_string(), "ctx".to_string());
    t.add_error("E1".to_string(), "again".to_string());
    assert_eq!(t.get_error_count(), 2);
    assert_eq!(t.get_error_types(), vec![("E1".to_string(), 2)]);
    assert_eq!(t.get_recent_errors(), vec!["E1".to_string(), "E1".to_string()]);
    assert_eq!(t.entries[1].metadata.len(), 2);
}

#[test]
fn profiler_memory_figures() {
    let mut p = Profiler::new();
    assert_eq!(p.get_peak_memory(), 0);
    for (h, s) in [(10usize, 1usize), (30, 2), (5, 5)] {
        p.add_memory_sample(MemorySample { timestamp: 0, heap_size: h, stack_size: s, allocations: 0, deallocations: 0 });
    }
    assert_eq!(p.get_peak_memory(), 32);
    assert_eq!(p.get_initial_memory(), 11);
    assert_eq!(p.get_current_memory(), 10);
}

#[test]
fn network_counters_add_up() {
    let mut m = PerformanceMonitor::new();
    m.record_network_activity(NetworkDirection::Upload, 10);
    m.record_network_activity(NetworkDirection::Download, 5);
    m.record_network_activity(NetworkDirection::Upload, 7);
    assert_eq!(m.counters, vec![("network_upload_bytes".to_string(), 17), ("network_download_bytes".to_string(), 5)]);
    assert_eq!(metric_name(MetricType::RenderFps), "render_fps");
}

#[test]
fn report_sums_up_the_session() {
    let mut e = DebuggingEngine::new();
    e.tracer.enabled = true;
    e.profiler.enabled = true;
    start(&mut e.tracer, "s", "ls");
    e.handle_command_completed("s", "ls", 10, 1);
    e.handle_error_occurred("boom".to_string(), "ls".to_string());
    e.handle_memory_snapshot(1, MemoryUsage { total: 100, used: 50, free: 50, heap: 20, stack: 3 });
    let r = e.generate_report("s");
    assert_eq!(r.session_id, "s");
    assert_eq!(r.command_summary.total_commands, 1);
    assert_eq!(r.command_summary.failed_commands, 1);
    assert_eq!(r.error_summary.total_errors, 1);
    assert_eq!(r.error_summary.recent_errors, vec!["boom".to_string()]);
    assert_eq!(r.memory_summary.peak_usage, 23);
    assert_eq!(r.performance_summary.average_command_time, 10);
    let s = DebuggingEngine::startup(false, true, true, true);
    assert!(!s.performance_monitoring && !s.memory_profiling && !s.command_tracing);
}

#[test]
fn metrics_keep_the_latest_reading() {
    let mut m = PerformanceMonitor::new();
    assert_eq!(f64::from_bits(m.get_average_fps()), 60.0);
    assert_eq!(m.get_peak_cpu(), 0);
    m.add_metric(MetricType::CpuUsage, 12.5f64.to_bits(), 1);
    m.add_metric(MetricType::CpuUsage, 40.0f64.to_bits(), 2);
    m.add_metric(MetricType::RenderFps, 30.0f64.to_bits(), 3);
    assert_eq!(f64::from_bits(m.get_peak_cpu()), 40.0);
    assert_eq!(f64::from_bits(m.get_average_fps()), 30.0);
    assert_eq!(m.metrics.len(), 2);
    m.update_metrics(5);
    assert_eq!(m.metrics.len(), 4);
    assert_eq!(m.metrics[2].0, "cpu");
}

#[test]
fn debug_events_reach_their_part() {
    let mut e = DebuggingEngine::new();
    e.tracer.enabled = true;
    e.handle_event(
        DebugEvent::CommandStarted { session_id: "s".to_string(), command: "ls".to_string(), timestamp: 1 },
        Vec::new(),
        "/".to_string(),
    );
    assert_eq!(e.tracer.entries.len(), 1);
    assert_eq!(e.tracer.entries[0].id.len(), 36);
    e.handle_event(
        DebugEvent::NetworkActivity { direction: NetworkDirection::Download, bytes: 4, endpoint: "x".to_string() },
        Vec::new(),
        "/".to_string(),
    );
    assert_eq!(e.monitor.counters, vec![("network_download_bytes".to_string(), 4)]);
    let mut off = DebuggingEngine::new();
    off.handle_event(
        DebugEvent::CommandStarted { session_id: "s".to_string(), command: "ls".to_string(), timestamp: 1 },
        Vec::new(),
        "/".to_string(),
    );
    assert!(off.tracer.entries.is_empty());
}
