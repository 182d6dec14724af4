use rust_browser_mcp::auth::{
    auth_cookie, authorization_server_metadata, base_url_from_host, check_callback, check_consent,
    demo_access_token, extract_token, join_with_spaces, plan_user_session, protected_resource_metadata,
    provider_access_token, require_token, require_valid, user_session_id, CallbackForm, CallbackQuery,
    KeyedStore, SessionPlan,
};
use rust_browser_mcp::client::{
    any_driver_endpoint, browser_preference, capabilities_for, connect_failure_message, is_session_conflict,
    plan_endpoint, session_name, targets_firefox, EndpointPlan,
};
use rust_browser_mcp::config::{Config, EnvValues};
use rust_browser_mcp::driver::{DriverManager, DriverType};
use rust_browser_mcp::error::WebDriverError;
use rust_browser_mcp::keycloak::{token_from_introspection, KeycloakConfig, TokenIntrospectionResponse};
use rust_browser_mcp::tools::{
    is_tool_served, AutomationTools, DriverManagementTools, PerformanceTools, RecipeTools, ServerMode,
    ToolDefinitions,
};

#[test]
fn session_browser_preference() {
    assert_eq!(browser_preference("firefox_session1"), Some(DriverType::Firefox));
    assert_eq!(browser_preference("Gecko-x"), Some(DriverType::Firefox));
    assert_eq!(browser_preference("chrome_session1"), Some(DriverType::Chrome));
    assert_eq!(browser_preference("EDGE"), Some(DriverType::Edge));
    assert_eq!(browser_preference("default_session"), None);
    assert_eq!(session_name(None), "default");
    assert_eq!(session_name(Some("s".to_string())), "s");
}

fn config() -> Config {
    Config::from_env_values(&EnvValues::unset())
}

#[test]
fn endpoint_plans() {
    let mut c = config();
    c.webdriver_endpoint = "http://grid:4444".to_string();
    let m = DriverManager::new();
    assert!(matches!(plan_endpoint(&c, &m, "x"), EndpointPlan::Use(e) if e == "http://grid:4444"));

    let c = config();
    let mut m = DriverManager::new();
    m.mark_healthy(DriverType::Firefox, "http://localhost:4444".to_string());
    m.mark_healthy(DriverType::Chrome, "http://localhost:9515".to_string());
    assert!(matches!(plan_endpoint(&c, &m, "firefox_a"), EndpointPlan::Use(e) if e == "http://localhost:4444"));
    assert!(matches!(plan_endpoint(&c, &m, "whatever"), EndpointPlan::Use(e) if e == "http://localhost:9515"));
    assert!(matches!(plan_endpoint(&c, &m, "edge_1"), EndpointPlan::StartDriver(DriverType::Edge)));

    let mut c = config();
    c.preferred_driver = Some("Firefox".to_string());
    assert!(matches!(plan_endpoint(&c, &m, "whatever"), EndpointPlan::Use(e) if e == "http://localhost:4444"));

    let empty = DriverManager::new();
    assert!(matches!(plan_endpoint(&c, &empty, "s"), EndpointPlan::StartAt(e) if e == "http://localhost:4444"));
    c.preferred_driver = Some("opera".to_string());
    match plan_endpoint(&c, &empty, "s") {
        EndpointPlan::Fail(WebDriverError::Generic(m)) => assert_eq!(m, "Unknown preferred driver: opera"),
        other => panic!("unexpected {other:?}"),
    }
    c.preferred_driver = None;
    assert!(matches!(plan_endpoint(&c, &empty, "s"), EndpointPlan::StartAny));
    c.auto_start_driver = false;
    match plan_endpoint(&c, &empty, "s") {
        EndpointPlan::Fail(WebDriverError::Generic(m)) => assert!(m.starts_with("No pre-started WebDriver services")),
        other => panic!("unexpected {other:?}"),
    }
}

#[test]
fn driver_start_endpoints() {
    assert_eq!(any_driver_endpoint(&vec![DriverType::Firefox, DriverType::Chrome]).unwrap(), "http://localhost:4444");
    match any_driver_endpoint(&vec![]) {
        Err(WebDriverError::Generic(m)) => assert!(m.starts_with("No WebDriver executables found.")),
        other => panic!("unexpected {other:?}"),
    }
}

#[test]
fn test_browser_capabilities() {
    let mut env = EnvValues::unset();
    env.headless = Some("true".to_string());
    env.preferred_driver = Some("firefox".to_string());
    let config = Config::from_env_values(&env);
    assert!(config.headless);
    assert_eq!(config.preferred_driver.as_deref(), Some("firefox"));

    assert!(targets_firefox("firefox_1", "http://localhost:9515", &None));
    assert!(!targets_firefox("chrome_1", "http://localhost:4444", &None));
    assert!(targets_firefox("s", "http://localhost:4444", &None));
    assert!(targets_firefox("s", "http://localhost:9515", &Some("Firefox".to_string())));
    assert!(!targets_firefox("s", "http://localhost:9515", &Some("chrome".to_string())));

    let f = capabilities_for(true, true);
    assert_eq!(f.browser_name, "firefox");
    assert_eq!(f.options_key, Some("moz:firefoxOptions".to_string()));
    assert_eq!(f.args, vec!["--headless".to_string()]);
    let f = capabilities_for(true, false);
    assert_eq!(f.options_key, None);
    assert!(f.args.is_empty());
    let c = capabilities_for(false, true);
    assert_eq!(c.browser_name, "chrome");
    assert_eq!(c.options_key, Some("goog:chromeOptions".to_string()));
    assert_eq!(
        c.args,
        vec!["--no-sandbox", "--disable-dev-shm-usage", "--disable-gpu", "--remote-debugging-port=0", "--headless"]
            .into_iter()
            .map(String::from)
            .collect::<Vec<_>>()
    );
    assert_eq!(capabilities_for(false, false).args.len(), 4);
}

#[test]
fn session_conflicts() {
    assert!(is_session_conflict("Session is already started"));
    assert!(is_session_conflict("error: SESSION ALREADY EXISTS here"));
    assert!(!is_session_conflict("connection refused"));
    assert!(connect_failure_message("http://x", "refused").starts_with("Failed to connect to WebDriver at 'http://x': refused\n\n"));
}

#[test]
fn tokens_from_requests() {
    assert_eq!(extract_token(&Some("Bearer abc".to_string()), &None), Some("abc".to_string()));
    assert_eq!(
        extract_token(&Some("Basic x".to_string()), &Some("a=1; auth_token=tok ; b=2".to_string())),
        Some("tok".to_string())
    );
    assert_eq!(extract_token(&None, &Some("a=1;b=2".to_string())), None);
    assert_eq!(extract_token(&None, &None), None);
    let e = require_token(&None, &None).unwrap_err();
    assert_eq!((e.status, e.body.as_str()), (401, "Missing authentication token"));
    let e = require_valid(None).unwrap_err();
    assert_eq!((e.status, e.body.as_str()), (401, "Invalid token"));
    assert_eq!(user_session_id("bob"), "oauth-session-bob");
}

#[test]
fn user_sessions() {
    assert!(matches!(plan_user_session(Some("s".to_string()), true), SessionPlan::Reuse(s) if s == "s"));
    assert!(matches!(plan_user_session(Some("s".to_string()), false), SessionPlan::Create { forget_existing: true }));
    assert!(matches!(plan_user_session(None, false), SessionPlan::Create { forget_existing: false }));
}

#[test]
fn authorization_callbacks() {
    let q = CallbackQuery { code: None, state: None, error: Some("denied".to_string()), error_description: None };
    let e = check_callback(&q).unwrap_err();
    assert_eq!((e.status, e.body.as_str()), (400, "OAuth error: Unknown error"));
    let q = CallbackQuery { code: None, state: Some("s".to_string()), error: None, error_description: None };
    assert_eq!(check_callback(&q).unwrap_err().body, "Missing authorization code");
    let q = CallbackQuery { code: Some("c".to_string()), state: None, error: None, error_description: None };
    assert_eq!(check_callback(&q).unwrap_err().body, "Missing state parameter");
    let q = CallbackQuery { code: Some("c".to_string()), state: Some("s".to_string()), error: None, error_description: None };
    assert_eq!(check_callback(&q).unwrap(), ("c".to_string(), "s".to_string()));

    let deny = CallbackForm { state: "s".to_string(), action: "deny".to_string() };
    let e = check_consent(&deny).unwrap_err();
    assert_eq!((e.status, e.body.as_str()), (403, "Access denied"));
    assert!(check_consent(&CallbackForm { state: "s".to_string(), action: "authorize".to_string() }).is_ok());
}

#[test]
fn issued_tokens() {
    let t = demo_access_token("id1".to_string(), "r1".to_string());
    assert_eq!(t.user_id, "demo_user");
    assert_eq!(auth_cookie(&t), "auth_token=id1; HttpOnly; SameSite=Strict; Path=/; Max-Age=3600");
    let t = provider_access_token(
        "tok".to_string(),
        Some(60),
        None,
        Some(vec!["openid".to_string(), "email".to_string()]),
        "u".to_string(),
    );
    assert_eq!(t.scope, Some("openid email".to_string()));
    assert_eq!(auth_cookie(&t), "auth_token=tok; HttpOnly; SameSite=Strict; Path=/; Max-Age=60");
    assert_eq!(join_with_spaces(&vec![]), "");
}

#[test]
fn discovery_metadata() {
    let base = base_url_from_host(&Some("example.org:8080".to_string()));
    assert_eq!(base, "http://example.org:8080");
    assert_eq!(base_url_from_host(&None), "http://localhost:8080");
    let m = authorization_server_metadata(&base);
    assert_eq!(m.authorization_endpoint, "http://example.org:8080/oauth/authorize");
    assert_eq!(m.token_endpoint, "http://example.org:8080/oauth/callback");
    assert_eq!(m.scopes_supported, vec!["webdriver".to_string(), "openid".to_string()]);
    let p = protected_resource_metadata(&base);
    assert_eq!(p.resource, "http://example.org:8080/mcp");
    assert_eq!(p.authorization_servers, vec![base.clone()]);
}

#[test]
fn keyed_store_reads_back_writes() {
    let mut s: KeyedStore<u32> = KeyedStore::new();
    assert_eq!(s.get("a"), None);
    s.insert("a".to_string(), 1);
    s.insert("b".to_string(), 2);
    s.insert("a".to_string(), 3);
    assert_eq!(s.get("a"), Some(&3));
    assert_eq!(s.get("b"), Some(&2));
    assert_eq!(s.remove("a"), Some(3));
    assert_eq!(s.get("a"), None);
    assert_eq!(s.remove("a"), None);
}

#[test]
fn keycloak_endpoints_and_introspection() {
    let c = KeycloakConfig::default();
    assert_eq!(c.issuer_url(), "http://localhost:8080/realms/master");
    assert_eq!(c.token_url(), "http://localhost:8080/realms/master/protocol/openid-connect/token");
    assert_eq!(
        c.introspect_url(),
        "http://localhost:8080/realms/master/protocol/openid-connect/token/introspect"
    );
    let params = c.introspect_params("t");
    assert_eq!(params.len(), 3);
    assert_eq!(params[2], ("client_secret".to_string(), "your-client-secret".to_string()));

    let resp = TokenIntrospectionResponse {
        active: true,
        scope: Some("webdriver".to_string()),
        client_id: None,
        username: None,
        exp: Some(100),
        iat: None,
        sub: None,
        aud: None,
        iss: None,
        token_type: None,
    };
    let t = token_from_introspection("t", &resp, 50).unwrap();
    assert_eq!(t.user_id, "unknown");
    assert_eq!(t.expires_in, Some(100));
    assert!(resp.is_expired_at(101));
    assert!(token_from_introspection("t", &resp, 101).is_none());
}

const LIFECYCLE_TOOLS: [&str; 6] =
    ["get_healthy_endpoints", "refresh_driver_health", "list_managed_drivers", "start_driver", "stop_driver", "stop_all_drivers"];

#[test]
fn test_mode_tool_enforcement() {
    let stdio = ToolDefinitions::names_for_mode(ServerMode::Stdio);
    let http = ToolDefinitions::names_for_mode(ServerMode::Http);
    for tool in LIFECYCLE_TOOLS {
        assert!(stdio.iter().any(|t| t == tool), "STDIO mode should declare {}", tool);
        assert!(!http.iter().any(|t| t == tool), "HTTP mode should NOT declare {}", tool);
    }
}

#[test]
fn test_tool_count_by_mode() {
    let stdio = ToolDefinitions::names_for_mode(ServerMode::Stdio);
    let http = ToolDefinitions::names_for_mode(ServerMode::Http);
    assert!(stdio.len() > http.len(), "STDIO mode should have more tools than HTTP mode");
    let expected_difference = 6;
    assert_eq!(
        stdio.len() - http.len(),
        expected_difference,
        "STDIO mode should have exactly {} more tools than HTTP mode",
        expected_difference
    );
    for tool in LIFECYCLE_TOOLS {
        assert!(stdio.iter().any(|t| t == tool), "STDIO mode should include {}", tool);
        assert!(!http.iter().any(|t| t == tool), "HTTP mode should NOT include {}", tool);
    }
}

#[test]
fn test_new_mcp_tools_exist() {
    let mut config = Config::from_env_values(&EnvValues::unset());
    config.auto_start_driver = false;
    assert!(config.validate().is_ok());

    let stdio = ToolDefinitions::names_for_mode(ServerMode::Stdio);
    let http = ToolDefinitions::names_for_mode(ServerMode::Http);
    for tool in LIFECYCLE_TOOLS {
        assert!(stdio.iter().any(|t| t == tool), "{} tool should be exposed in stdio mode", tool);
        assert!(!http.iter().any(|t| t == tool), "{} tool should NOT be exposed in http mode", tool);
    }
    assert!(stdio.len() >= 25, "Should have at least 25 tools with new additions in stdio mode");
    assert_eq!(http.len(), stdio.len() - 6, "HTTP mode should have 6 fewer tools than stdio mode");
}

#[test]
fn tools_by_mode() {
    let stdio = ToolDefinitions::names_for_mode(ServerMode::Stdio);
    let http = ToolDefinitions::names_for_mode(ServerMode::Http);
    assert!(stdio.len() >= 25);
    assert_eq!(stdio.len() - http.len(), 6);
    for tool in ["get_healthy_endpoints", "refresh_driver_health", "list_managed_drivers", "start_driver", "stop_driver", "stop_all_drivers"] {
        assert!(stdio.iter().any(|t| t == tool), "STDIO mode should declare {}", tool);
        assert!(!http.iter().any(|t| t == tool), "HTTP mode should NOT declare {}", tool);
        assert!(is_tool_served(tool, ServerMode::Stdio));
        assert!(!is_tool_served(tool, ServerMode::Http));
    }
    assert!(is_tool_served("navigate", ServerMode::Http));
    assert!(!is_tool_served("force_cleanup_orphaned_processes", ServerMode::Stdio));
    assert!(!is_tool_served("force_cleanup_orphaned_processes", ServerMode::Http));
    assert!(!is_tool_served("fly", ServerMode::Stdio));
    assert_eq!(AutomationTools::tool_names().len(), 25);
    assert_eq!(PerformanceTools::tool_names().len(), 5);
    assert_eq!(RecipeTools::tool_names().len(), 6);
    assert_eq!(DriverManagementTools::tool_names().len(), 6);
    assert_eq!(ToolDefinitions::list_all_names(), stdio);
}
