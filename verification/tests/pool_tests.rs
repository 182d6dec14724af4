use rust_browser_mcp::config::Config;
use rust_browser_mcp::driver::DriverType;
use rust_browser_mcp::pool::{ConnectionPool, DriverPool, PoolConfig, PooledConnection};
use std::time::Duration;

fn create_test_config() -> Config {
    Config {
        webdriver_endpoint: "auto".to_string(),
        default_session_timeout_ms: 2000,
        auto_start_driver: true,
        preferred_driver: None,
        headless: true,
        concurrent_drivers: vec!["chrome".to_string()],
        driver_startup_timeout_ms: 10000,
        enable_performance_memory: false,
        pool_max_connections_per_driver: 3,
        pool_idle_timeout_secs: 300,
        pool_acquire_timeout_ms: 30000,
        pool_enabled: true,
    }
}

#[test]
fn test_pool_config_from_config() {
    let config = create_test_config();
    let pool_config = PoolConfig::from(&config);

    assert_eq!(pool_config.max_connections_per_driver, 3);
    assert_eq!(Duration::from_secs(pool_config.idle_timeout_secs), Duration::from_secs(300));
    assert_eq!(Duration::from_millis(pool_config.acquire_timeout_ms), Duration::from_millis(30000));
}

#[test]
fn test_driver_pool_capacity() {
    let pool: DriverPool<u32> = DriverPool::new(2);
    assert!(pool.has_capacity());
}

#[test]
fn test_idle_time_check() {
    // A session last used 100 seconds ago.
    let now_ms: u64 = 1_000_000;
    let last_used_ms = now_ms - Duration::from_secs(100).as_millis() as u64;
    let conn = PooledConnection::new(7u32, "s".to_string(), last_used_ms);

    assert!(conn.is_idle_for(Duration::from_secs(50).as_millis() as u64, now_ms));
    assert!(!conn.is_idle_for(Duration::from_secs(200).as_millis() as u64, now_ms));
}

#[test]
fn pooled_connection_in_use_is_never_idle() {
    let mut conn = PooledConnection::new(1u32, "a".to_string(), 0);
    conn.mark_in_use(10);
    assert!(!conn.is_idle_for(0, 1_000_000));
    conn.mark_released(20);
    assert!(conn.is_idle_for(5, 26));
    assert!(!conn.is_idle_for(6, 26));
}

#[test]
fn driver_pool_fills_to_capacity() {
    let mut pool: DriverPool<u32> = DriverPool::new(2);
    assert!(pool.add(1, "s1".to_string(), 0));
    assert!(pool.add(2, "s2".to_string(), 0));
    assert!(!pool.has_capacity());
    assert!(!pool.add(3, "s3".to_string(), 0));
    let stats = pool.get_stats();
    assert_eq!(stats.total_connections, 2);
    // A session added to the pool is handed out at once.
    assert_eq!(stats.in_use, 2);
    assert_eq!(stats.idle, 0);
}

#[test]
fn driver_pool_acquire_then_release_restores_idle() {
    let mut pool: DriverPool<u32> = DriverPool::new(3);
    assert!(pool.add(10, "s1".to_string(), 0));
    assert!(pool.try_acquire(1).is_none());
    assert!(pool.release("s1", 2));
    let stats = pool.get_stats();
    assert_eq!((stats.in_use, stats.idle, stats.total_releases), (0, 1, 1));
    let (client, session) = pool.try_acquire(5).expect("an idle session");
    assert_eq!(client, 10);
    assert_eq!(session, "s1");
    let stats = pool.get_stats();
    assert_eq!(stats.in_use, 1);
    assert_eq!(stats.idle, 0);
    assert_eq!(stats.total_acquisitions, 1);
    assert!(pool.release("s1", 7));
    let stats = pool.get_stats();
    assert_eq!(stats.in_use, 0);
    assert_eq!(stats.idle, 1);
    assert_eq!(stats.total_releases, 2);
    assert!(!pool.release("unknown", 8));
}

#[test]
fn driver_pool_removes_idle_sessions() {
    let mut pool: DriverPool<u32> = DriverPool::new(3);
    assert!(pool.add(1, "old".to_string(), 0));
    assert!(pool.release("old", 0));
    assert!(pool.add(2, "new".to_string(), 250_000));
    assert!(pool.release("new", 250_000));
    assert!(pool.add(3, "busy".to_string(), 0));
    let removed = pool.remove_idle(300, 400_000);
    assert_eq!(removed, vec![1]);
    assert_eq!(pool.get_stats().total_connections, 2);
    assert_eq!(pool.remove("new"), Some(2));
    assert_eq!(pool.get_stats().total_connections, 1);
    assert_eq!(pool.remove("new"), None);
}

#[test]
fn connection_pool_acquire_by_driver() {
    let config = create_test_config();
    let mut pool: ConnectionPool<u32> = ConnectionPool::new(&config);
    assert!(pool.is_enabled());
    assert!(pool.acquire(&DriverType::Chrome, 0).is_none());
    assert!(pool.add(DriverType::Chrome, 5, "c1".to_string(), 0));
    pool.release(&DriverType::Chrome, "c1", 1);
    assert!(pool.acquire(&DriverType::Firefox, 1).is_none());
    let (session, client) = pool.acquire(&DriverType::Chrome, 1).expect("pooled chrome session");
    assert_eq!(session, "c1");
    assert_eq!(client, 5);
    pool.release(&DriverType::Chrome, "c1", 2);
    assert!(pool.has_capacity(&DriverType::Chrome));
    let closed = pool.close_all();
    assert_eq!(closed, vec![5]);
}
