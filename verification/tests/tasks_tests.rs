use ukiapi::background_tasks::BackgroundTasks;
use ukiapi::dependencies::DependencyCache;
use ukiapi::exception::HTTPException;
use ukiapi::status::INTERNAL_SERVER_ERROR;

#[test]
fn test_background_tasks_default() {
    let mut tasks: BackgroundTasks<fn()> = BackgroundTasks::new();
    let taken = tasks.take_tasks();
    assert!(taken.is_empty());
}

#[test]
fn test_background_tasks_add_task() {
    let mut tasks = BackgroundTasks::new();
    tasks.add_task(1u8);
    let taken = tasks.take_tasks();
    assert_eq!(taken.len(), 1);
}

#[test]
fn test_background_tasks_add_multiple_tasks() {
    let mut tasks = BackgroundTasks::new();
    tasks.add_task(1u8);
    tasks.add_task(2u8);
    tasks.add_task(3u8);
    let taken = tasks.take_tasks();
    assert_eq!(taken.len(), 3);
}

#[test]
fn test_background_tasks_take_drains() {
    let mut tasks = BackgroundTasks::new();
    tasks.add_task(1u8);
    let _ = tasks.take_tasks();
    let taken = tasks.take_tasks();
    assert!(taken.is_empty());
}

#[test]
fn tasks_come_out_in_order() {
    let mut tasks = BackgroundTasks::new();
    for i in 0..5u8 {
        tasks.add_task(i);
    }
    assert_eq!(tasks.len(), 5);
    assert_eq!(tasks.take_tasks(), vec![0, 1, 2, 3, 4]);
    assert_eq!(tasks.len(), 0);
}

#[test]
fn dependency_resolved_once_per_request() {
    let mut cache: DependencyCache<String> = DependencyCache::new();
    assert!(cache.cached().is_none());
    assert!(cache.settle(Ok("resolved_value".to_string())).is_ok());
    assert_eq!(cache.cached().unwrap(), "resolved_value");
    assert_eq!(cache.cached().unwrap(), "resolved_value");
}

#[test]
fn failed_dependency_is_passed_on_and_not_kept() {
    let mut cache: DependencyCache<String> = DependencyCache::new();
    let e = cache
        .settle(Err(HTTPException::new(INTERNAL_SERVER_ERROR, "Dependency failed")))
        .unwrap_err();
    assert_eq!(e.status_code, INTERNAL_SERVER_ERROR);
    assert_eq!(e.detail, "Dependency failed");
    assert!(cache.cached().is_none());
}
