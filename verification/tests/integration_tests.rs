use rust_browser_mcp::config::{parse_driver_list, parse_flag, parse_number, Config, EnvValues};
use rust_browser_mcp::driver::{
    determine_driver_type, driver_command_args, extract_port_from_endpoint, localhost_url, parse_pgrep_output,
    parse_tasklist_output, DriverManager, DriverType, Platform,
};

#[test]
fn test_config_validation() {
    let mut config = Config::from_env_values(&EnvValues::unset());

    // Valid configuration should pass
    assert!(config.validate().is_ok());

    // Invalid timeout should fail
    config.default_session_timeout_ms = 0;
    assert!(config.validate().is_err());

    // Invalid endpoint should fail
    config.webdriver_endpoint = "invalid-url".to_string();
    assert!(config.validate().is_err());
}

#[test]
fn test_driver_detection() {
    // Test that we can detect different driver types
    assert_eq!(DriverType::Firefox.executable_name(), "geckodriver");
    assert_eq!(DriverType::Firefox.default_port(), 4444);
    assert_eq!(DriverType::Firefox.browser_name(), "Firefox");

    assert_eq!(DriverType::Chrome.executable_name(), "chromedriver");
    assert_eq!(DriverType::Chrome.default_port(), 9515);
    assert_eq!(DriverType::Chrome.browser_name(), "Chrome");
}

#[test]
fn test_headless_configuration() {
    let config = Config::from_env_values(&EnvValues::unset());
    assert!(config.headless, "Default configuration should enable headless mode");

    let mut env = EnvValues::unset();
    env.headless = Some("false".to_string());
    let config = Config::from_env_values(&env);
    assert!(!config.headless, "WEBDRIVER_HEADLESS=false should disable headless mode");

    env.headless = Some("true".to_string());
    let config = Config::from_env_values(&env);
    assert!(config.headless, "WEBDRIVER_HEADLESS=true should enable headless mode");
}

#[test]
fn test_automatic_cleanup_config() {
    let config = Config::from_env_values(&EnvValues::unset());
    assert!(config.auto_start_driver, "Auto-start should be enabled by default");

    let mut env = EnvValues::unset();
    env.auto_start = Some("false".to_string());
    let config = Config::from_env_values(&env);
    assert!(!config.auto_start_driver, "WEBDRIVER_AUTO_START=false should disable auto-start");
}

#[test]
fn headless_and_auto_start_defaults() {
    let config = Config::from_env_values(&EnvValues::unset());
    assert!(config.headless, "Default configuration should enable headless mode");
    assert!(config.auto_start_driver, "Auto-start should be enabled by default");
    assert_eq!(config.webdriver_endpoint, "auto");
    assert_eq!(config.default_session_timeout_ms, 2000);
    assert_eq!(config.driver_startup_timeout_ms, 10000);
    assert_eq!(config.concurrent_drivers, vec!["firefox".to_string(), "chrome".to_string()]);
    assert!(!config.enable_performance_memory);

    let mut env = EnvValues::unset();
    env.headless = Some("false".to_string());
    env.auto_start = Some("false".to_string());
    let config = Config::from_env_values(&env);
    assert!(!config.headless, "WEBDRIVER_HEADLESS=false should disable headless mode");
    assert!(!config.auto_start_driver, "WEBDRIVER_AUTO_START=false should disable auto-start");

    let mut env = EnvValues::unset();
    env.headless = Some("TRUE".to_string());
    env.concurrent_drivers = Some(" chrome , edge".to_string());
    env.timeout_ms = Some("abc".to_string());
    let config = Config::from_env_values(&env);
    assert!(config.headless, "WEBDRIVER_HEADLESS=true should enable headless mode");
    assert_eq!(config.concurrent_drivers, vec!["chrome".to_string(), "edge".to_string()]);
    assert_eq!(config.default_session_timeout_ms, 2000);
}

#[test]
fn environment_value_parsing() {
    assert!(parse_flag(&Some("1".to_string()), false));
    assert!(parse_flag(&Some("True".to_string()), false));
    assert!(!parse_flag(&Some("yes".to_string()), true));
    assert!(parse_flag(&None, true));
    assert_eq!(parse_number(&Some("15000".to_string()), 1), 15000);
    assert_eq!(parse_number(&Some("-5".to_string()), 7), 7);
    assert_eq!(parse_number(&None, 7), 7);
    assert_eq!(parse_driver_list(&Some("firefox".to_string())), vec!["firefox".to_string()]);
}

#[test]
fn config_validation_messages() {
    let mut config = Config::from_env_values(&EnvValues::unset());
    config.webdriver_endpoint = "ftp://x".to_string();
    assert_eq!(
        config.validate(),
        Err("Invalid WebDriver endpoint 'ftp://x'. Must be 'auto' or start with http:// or https://".to_string())
    );
    config.webdriver_endpoint = "https://grid:4444".to_string();
    config.driver_startup_timeout_ms = 0;
    assert_eq!(config.validate(), Err("Driver startup timeout must be greater than 0".to_string()));
    config.driver_startup_timeout_ms = 1;
    config.concurrent_drivers = vec!["Chrome".to_string(), "opera".to_string()];
    assert_eq!(
        config.validate(),
        Err("Invalid concurrent driver 'opera'. Must be one of: firefox, chrome, edge".to_string())
    );
    config.concurrent_drivers = vec!["FIREFOX".to_string()];
    assert!(config.validate().is_ok());
}

#[test]
fn driver_names_and_ports() {
    assert_eq!(DriverType::from_string("Chromium"), Some(DriverType::Chrome));
    assert_eq!(DriverType::from_string("GECKO"), Some(DriverType::Firefox));
    assert_eq!(DriverType::from_string("edge"), Some(DriverType::Edge));
    assert_eq!(DriverType::from_string("safari"), None);
    assert_eq!(DriverType::Edge.executable_name_for(Platform::Windows), "msedgedriver.exe");
    assert_eq!(DriverType::Edge.browser_name(), "Edge");
    assert_eq!(determine_driver_type(4444), DriverType::Firefox);
    assert_eq!(determine_driver_type(9515), DriverType::Chrome);
    assert_eq!(localhost_url(4444), "http://localhost:4444");
    assert_eq!(
        driver_command_args(DriverType::Firefox, 4444),
        vec!["--port".to_string(), "4444".to_string(), "--host".to_string(), "127.0.0.1".to_string()]
    );
}

#[test]
fn endpoint_ports() {
    assert_eq!(extract_port_from_endpoint("http://localhost:9515"), Ok(9515));
    assert_eq!(extract_port_from_endpoint("http://localhost:4444/wd/hub"), Ok(4444));
    // Without a colon the scheme decides; after `https:` no port can be read.
    assert_eq!(extract_port_from_endpoint("https-grid"), Ok(443));
    assert_eq!(extract_port_from_endpoint("localhost"), Ok(80));
    assert_eq!(
        extract_port_from_endpoint("https://grid.example.com"),
        Err("Invalid port in endpoint: https://grid.example.com".to_string())
    );
    assert_eq!(
        extract_port_from_endpoint("http://localhost:99999"),
        Err("Invalid port in endpoint: http://localhost:99999".to_string())
    );
}

#[test]
fn process_listings() {
    assert_eq!(parse_pgrep_output("123\n456\n\nabc\n"), vec![123, 456]);
    assert_eq!(
        parse_tasklist_output("\"chromedriver.exe\",\"4242\",\"Console\",\"1\",\"9,000 K\"\r\n"),
        vec![4242]
    );
}

#[test]
fn stopping_a_driver_forgets_it() {
    let mut m = DriverManager::new();
    m.register_process(DriverType::Firefox, 100, 4444);
    m.register_process(DriverType::Chrome, 200, 9515);
    m.mark_healthy(DriverType::Firefox, "http://localhost:4444".to_string());
    assert!(m.is_driver_managed(&DriverType::Firefox));
    assert!(m.is_driver_healthy(&DriverType::Firefox));
    let pids = m.stop_driver_by_type(&DriverType::Firefox);
    assert_eq!(pids, vec![100]);
    assert!(!m.is_driver_managed(&DriverType::Firefox));
    assert!(!m.is_driver_healthy(&DriverType::Firefox));
    assert!(m.is_driver_managed(&DriverType::Chrome));
    assert_eq!(m.stop_all_drivers(), vec![200]);
    assert!(m.get_managed_processes_status().is_empty());
}

#[test]
fn stopping_one_driver_keeps_the_others() {
    let mut m = DriverManager::new();
    m.register_process(DriverType::Chrome, 1, 9515);
    m.register_process(DriverType::Firefox, 2, 4444);
    m.register_process(DriverType::Chrome, 3, 9516);
    assert_eq!(m.stop_driver_by_type(&DriverType::Chrome), vec![1, 3]);
    assert_eq!(m.get_managed_processes_status(), vec![(DriverType::Firefox, 2, 4444)]);
}

#[test]
fn driver_names_in_any_case() {
    for d in [DriverType::Chrome, DriverType::Firefox, DriverType::Edge] {
        assert_eq!(DriverType::from_string(d.browser_name()), Some(d));
        assert_eq!(DriverType::from_string(&d.browser_name().to_uppercase()), Some(d));
    }
}

#[test]
fn health_refresh_marks_answering_targets() {
    let mut m = DriverManager::new();
    m.register_process(DriverType::Firefox, 7, 4455);
    let targets = m.health_probe_targets();
    assert_eq!(
        targets,
        vec![(DriverType::Firefox, 4455), (DriverType::Chrome, 9515), (DriverType::Firefox, 4444), (DriverType::Edge, 9515)]
    );
    m.refresh_driver_health(&targets, &vec![true, true, false, true]);
    assert_eq!(m.healthy_endpoint(DriverType::Firefox), Some("http://localhost:4455".to_string()));
    assert_eq!(m.healthy_endpoint(DriverType::Chrome), Some("http://localhost:9515".to_string()));
    assert_eq!(m.healthy_endpoint(DriverType::Edge), Some("http://localhost:9515".to_string()));
    m.refresh_driver_health(&targets, &vec![false, false, false, false]);
    assert_eq!(m.healthy_count(), 0);
    assert_eq!(m.get_managed_processes_status(), vec![(DriverType::Firefox, 7, 4455)]);
}

#[test]
fn setup_guidance_states_the_defaults() {
    let guidance = Config::setup_guidance();
    let config = Config::from_env_values(&EnvValues::unset());
    assert!(guidance.contains(&format!("chromedriver --port={}", DriverType::Chrome.default_port())));
    assert!(guidance.contains(&format!("geckodriver --port={}", DriverType::Firefox.default_port())));
    assert!(guidance.contains(&format!("Connection timeout in ms (default: {})", config.default_session_timeout_ms)));
    assert!(guidance.contains(&format!("Driver startup timeout (default: {})", config.driver_startup_timeout_ms)));
    assert!(guidance.contains(&format!("comma-separated list (default: {})", config.concurrent_drivers.join(","))));
}

#[test]
fn client_config_check_reports_configuration_errors() {
    let mut config = Config::from_env_values(&EnvValues::unset());
    assert!(rust_browser_mcp::client::check_client_config(&config).is_ok());
    config.default_session_timeout_ms = 0;
    match rust_browser_mcp::client::check_client_config(&config) {
        Err(e) => assert_eq!(
            e.message(),
            "Generic error: Configuration error: WebDriver timeout must be greater than 0"
        ),
        Ok(()) => panic!("a zero timeout must be refused"),
    }
}
