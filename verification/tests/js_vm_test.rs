use networking::js_vm::{JavaScriptVmManager, TimerType};
use networking::renderer::RendererConfig;
use networking::time::{Duration, Timestamp};

fn manager() -> JavaScriptVmManager {
    let config = RendererConfig::default();
    JavaScriptVmManager::new(&config, serde_json::Value::Null).unwrap()
}

#[test]
fn test_js_vm_manager_creation() {
    let config = RendererConfig::default();
    let manager = JavaScriptVmManager::new(&config, serde_json::Value::Null);
    assert!(manager.is_ok());
}

#[test]
fn test_js_vm_initialization() {
    let mut manager = manager();
    let result = manager.initialize();
    assert!(result.is_ok());
}

#[test]
fn test_timer_management() {
    let mut manager = manager();
    manager.initialize().unwrap();

    let now = Timestamp::from_unix_secs(1_700_000_000);
    let timer_id = manager.set_timeout(100, now);
    assert!(timer_id.is_ok());
    let timer_id = timer_id.unwrap();

    // A bit later the timer is due, and its callback is to run
    let later = now.plus(Duration::from_millis(150));
    let due = manager.update_timers(later).unwrap();
    assert_eq!(due, vec![timer_id]);
    // A timeout runs once
    assert!(manager.update_timers(later).unwrap().is_empty());
}

#[test]
fn js_vm_test_event_listener_management() {
    let mut manager = manager();
    manager.initialize().unwrap();

    let result = manager.add_event_listener("click", Some("test-element"));
    assert!(result.is_ok());

    let result = manager.remove_event_listener("click", Some("test-element"));
    assert!(result.is_ok());
    assert_eq!(result.unwrap(), vec![0]);
    assert_eq!(manager.event_listener_count(), 0);
}

#[test]
fn test_vm_stats() {
    let manager = manager();
    assert!(manager.config().jit_enabled);
    assert!(manager.config().wasm_enabled);
    assert_eq!(manager.config().execution_timeout_ms, 5000);
    assert_eq!(manager.active_timer_count(), 0);
}

#[test]
fn timers_are_numbered_and_intervals_repeat() {
    let mut manager = manager();
    let now = Timestamp::from_unix_secs(1_000);
    let a = manager.set_timeout(10, now).unwrap();
    let b = manager.set_interval(20, now).unwrap();
    let c = manager.set_timeout(500, now).unwrap();
    assert_eq!((a.as_str(), b.as_str(), c.as_str()), ("timer_1", "timer_2", "timer_3"));
    assert_eq!(manager.active_timer_count(), 3);

    let t1 = now.plus(Duration::from_millis(25));
    assert_eq!(manager.update_timers(t1).unwrap(), vec!["timer_1".to_string(), "timer_2".to_string()]);
    // The interval is next due 20 ms after t1
    assert!(manager.update_timers(now.plus(Duration::from_millis(44))).unwrap().is_empty());
    assert_eq!(manager.update_timers(now.plus(Duration::from_millis(45))).unwrap(), vec!["timer_2".to_string()]);
    assert_eq!(manager.active_timer_count(), 2);

    manager.clear_timer("timer_2").unwrap();
    manager.clear_timer("timer_9").unwrap();
    assert_eq!(manager.active_timer_count(), 1);
    let much_later = now.plus(Duration::from_secs(10));
    assert_eq!(manager.update_timers(much_later).unwrap(), vec!["timer_3".to_string()]);
    assert_eq!(manager.active_timer_count(), 0);
    assert_eq!(TimerType::Interval, TimerType::Interval);
}

#[test]
fn events_reach_the_matching_listeners() {
    let mut manager = manager();
    manager.add_event_listener("click", Some("a")).unwrap();
    manager.add_event_listener("keydown", None).unwrap();
    manager.add_event_listener("click", None).unwrap();
    manager.add_event_listener("click", Some("a")).unwrap();
    assert_eq!(manager.trigger_event("click").unwrap(), vec![0, 2, 3]);
    assert_eq!(manager.trigger_event("scroll").unwrap(), Vec::<usize>::new());
    assert_eq!(manager.remove_event_listener("click", Some("a")).unwrap(), vec![0, 3]);
    assert_eq!(manager.trigger_event("click").unwrap(), vec![1]);
    assert_eq!(manager.event_listener_count(), 2);
}

#[test]
fn renderer_defaults() {
    let c = RendererConfig::default();
    assert!(c.site_isolation_enabled);
    assert_eq!(c.max_processes, 10);
    assert_eq!(c.memory_limit_mb, 512);
    assert!(!c.webgpu_enabled);
}
