use rust_browser_mcp::driver::DriverType;
use rust_browser_mcp::driver_tools::{
    aggressive_cleanup_command_text, browser_cleanup_command_list, driver_cleanup_command_list,
    driver_type_argument, health_check_message, healthy_endpoints_message, managed_drivers_message,
    manager_cleanup_command_list, temp_cleanup_command_list, LifecycleReport,
};
use rust_browser_mcp::recipe_tools::{execute_recipe_request, required_argument, RecipeReport};
use serde_json::Value;

type JsonMap = serde_json::Map<String, Value>;

fn args(pairs: &[(&str, Value)]) -> Option<JsonMap> {
    let mut m = JsonMap::new();
    for (k, v) in pairs {
        m.insert(k.to_string(), v.clone());
    }
    Some(m)
}

#[test]
fn driver_type_arguments() {
    assert_eq!(driver_type_argument(&args(&[("driver_type", Value::from("Firefox"))])), Ok(DriverType::Firefox));
    assert_eq!(driver_type_argument(&None), Err("driver_type parameter required".to_string()));
    assert_eq!(
        driver_type_argument(&args(&[("driver_type", Value::from("opera"))])),
        Err("Invalid driver_type. Use: chrome, firefox, or edge".to_string())
    );
}

#[test]
fn driver_reports() {
    assert_eq!(managed_drivers_message(&vec![]), "No managed WebDriver processes running");
    assert_eq!(
        managed_drivers_message(&vec![(DriverType::Chrome, 12, 9515), (DriverType::Firefox, 34, 4444)]),
        "Managed WebDriver processes:\n  Chrome - PID: 12, Port: 9515\n  Firefox - PID: 34, Port: 4444\n"
    );
    assert_eq!(health_check_message(2), "Health check completed. 2 healthy endpoints found");
    let text = healthy_endpoints_message(&vec![(DriverType::Firefox, "http://localhost:4444".to_string())]);
    assert_eq!(text, "Healthy endpoints:\n{\n  \"firefox\": \"http://localhost:4444\"\n}");
    assert_eq!(healthy_endpoints_message(&vec![]), "Healthy endpoints:\n{}");
    assert_eq!(
        LifecycleReport::Started { driver: DriverType::Edge, endpoint: "http://localhost:9515".to_string() }.message(),
        "Successfully started Edge WebDriver at http://localhost:9515"
    );
    assert_eq!(
        LifecycleReport::StopFailed { driver: DriverType::Chrome, error: "busy".to_string() }.message(),
        "Failed to stop Chrome WebDriver: busy"
    );
    assert_eq!(LifecycleReport::AllStopped.message(), "Successfully stopped all WebDriver processes");
}

#[test]
fn cleanup_commands() {
    let drivers = driver_cleanup_command_list();
    assert_eq!(drivers.len(), 3);
    assert_eq!(drivers[1], ("geckodriver processes".to_string(), "pkill -f geckodriver".to_string()));
    assert_eq!(browser_cleanup_command_list().len(), 11);
    assert_eq!(temp_cleanup_command_list().len(), 3);
    assert!(aggressive_cleanup_command_text().ends_with("xargs -r kill -9"));
    let all = manager_cleanup_command_list();
    assert_eq!(all.len(), 14);
    assert_eq!(all[13], "pkill -f 'chrome.*renderer'");
}

#[test]
fn recipe_call_arguments() {
    assert_eq!(required_argument(&None, "name"), Err("name parameter required".to_string()));
    assert_eq!(required_argument(&args(&[("name", Value::from("x"))]), "name"), Ok("x".to_string()));

    let mut params = JsonMap::new();
    params.insert("base_url".to_string(), Value::from("https://e.com"));
    params.insert("count".to_string(), Value::from(3u64));
    let q = execute_recipe_request(&args(&[
        ("name", Value::from("login")),
        ("parameters", Value::Object(params)),
        ("continue_on_error", Value::Bool(true)),
    ]))
    .unwrap();
    assert_eq!(q.name, "login");
    assert_eq!(q.parameters, Some(vec![("base_url".to_string(), "https://e.com".to_string())]));
    assert!(q.continue_on_error);
    assert_eq!(q.session_id, None);

    let q = execute_recipe_request(&args(&[("name", Value::from("n")), ("continue_on_error", Value::from("yes"))])).unwrap();
    assert!(!q.continue_on_error);
    assert_eq!(q.parameters, None);
    assert_eq!(execute_recipe_request(&None).unwrap_err(), "name parameter required");
}

#[test]
fn recipe_reports() {
    assert_eq!(
        RecipeReport::Created { name: "a".to_string(), path: "/r/a.json".to_string() }.message(),
        "Recipe 'a' created successfully at /r/a.json"
    );
    assert_eq!(RecipeReport::Deleted("a".to_string()).message(), "Recipe 'a' deleted successfully");
    assert_eq!(
        RecipeReport::LoadFailed { name: "a".to_string(), error: "Not found: x".to_string() }.message(),
        "Failed to load recipe 'a': Not found: x"
    );
    assert_eq!(RecipeReport::InvalidJson("eof".to_string()).message(), "Invalid recipe JSON: eof");
}
