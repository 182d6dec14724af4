use rust_browser_mcp::error::WebDriverError;
use rust_browser_mcp::manager::{
    create_recipe_from_template, has_json_extension, recipe_file_name, recipe_listing, sanitize_filename,
    sort_by_name, template_from_arguments, RecipeInfo, RecipeManager, RecipeTemplate, TemplateCallError,
};
use rust_browser_mcp::recipe::{default_browsers, substitute_variables, Recipe, RecipeStep};
use serde_json::Value;
type JsonMap = serde_json::Map<String, Value>;

fn navigate_step(name: Option<&str>, url: &str) -> RecipeStep {
    RecipeStep {
        name: name.map(|s| s.to_string()),
        description: None,
        action: "navigate".to_string(),
        arguments: {
            let mut map = JsonMap::new();
            map.insert("url".to_string(), Value::String(url.to_string()));
            map
        },
        continue_on_error: None,
        retry_count: None,
        retry_delay_ms: None,
        condition: None,
        session_id: None,
        browser: None,
    }
}

#[test]
fn test_recipe_validation() {
    let mut recipe = Recipe {
        name: "Test Recipe".to_string(),
        description: Some("A test recipe".to_string()),
        version: "1.0.0".to_string(),
        author: None,
        created_at: None,
        parameters: None,
        browsers: vec!["auto".to_string()],
        steps: vec![navigate_step(Some("Navigate to page"), "https://example.com")],
    };

    assert!(recipe.validate().is_ok());

    // Test empty name
    recipe.name = "".to_string();
    assert!(recipe.validate().is_err());
}

#[test]
fn test_parameter_substitution() {
    let recipe = Recipe {
        name: "Test Recipe".to_string(),
        description: None,
        version: "1.0.0".to_string(),
        author: None,
        created_at: None,
        parameters: None,
        browsers: vec!["auto".to_string()],
        steps: vec![navigate_step(None, "${base_url}/login")],
    };

    let parameters = vec![("base_url".to_string(), "https://example.com".to_string())];

    let substituted = recipe.substitute_parameters(&parameters).unwrap();
    let url = substituted.steps[0].arguments.get("url").unwrap().as_str().unwrap();
    assert_eq!(url, "https://example.com/login");
}

fn simple_recipe() -> Recipe {
    Recipe {
        name: "r".to_string(),
        description: None,
        version: "1.0.0".to_string(),
        author: None,
        created_at: None,
        parameters: None,
        browsers: vec!["auto".to_string()],
        steps: vec![navigate_step(None, "https://example.com")],
    }
}

#[test]
fn recipe_validation_messages() {
    let mut r = simple_recipe();
    r.name = String::new();
    assert_eq!(r.validate(), Err("Recipe name cannot be empty".to_string()));

    let mut r = simple_recipe();
    r.steps.clear();
    assert_eq!(r.validate(), Err("Recipe must have at least one step".to_string()));

    let mut r = simple_recipe();
    r.browsers = vec!["safari".to_string()];
    assert_eq!(r.validate(), Err("Unsupported browser: safari".to_string()));

    let mut r = simple_recipe();
    r.steps[0].action = String::new();
    assert_eq!(r.validate(), Err("Step 1 has empty action".to_string()));

    let mut r = simple_recipe();
    r.steps[0].browser = Some("auto".to_string());
    assert_eq!(r.validate(), Err("Step 1 has unsupported browser: auto".to_string()));

    let mut r = simple_recipe();
    r.steps[0].arguments = JsonMap::new();
    assert_eq!(r.validate(), Err("Step 1 (navigate) missing required 'url' argument".to_string()));

    let mut r = simple_recipe();
    r.steps[0].action = "hover".to_string();
    assert_eq!(r.validate(), Err("Step 1 (hover) missing required 'selector' argument".to_string()));

    let mut r = simple_recipe();
    r.steps[0].action = "login_form".to_string();
    assert_eq!(
        r.validate(),
        Err("Step 1 (login_form) missing required 'username' or 'password' argument".to_string())
    );

    let mut r = simple_recipe();
    r.steps[0].action = "custom_action".to_string();
    assert!(r.validate().is_ok());
}

#[test]
fn substitution_replaces_every_placeholder() {
    let params = vec![("a".to_string(), "1".to_string()), ("b".to_string(), "${a}".to_string())];
    // Parameters are substituted one after another, in order.
    assert_eq!(substitute_variables("${a}-${b}-${a}", &params), "1-${a}-1");
    assert_eq!(substitute_variables("no placeholders", &params), "no placeholders");
    assert_eq!(substitute_variables("${c}", &params), "${c}");
}

#[test]
fn substitution_with_no_parameters_keeps_arguments() {
    let recipe = simple_recipe();
    let same = recipe.substitute_parameters(&Vec::new()).unwrap();
    assert_eq!(same.steps[0].arguments.get("url").unwrap().as_str().unwrap(), "https://example.com");
    assert_eq!(same.name, recipe.name);
}

#[test]
fn substitution_also_rewrites_conditions() {
    let mut recipe = simple_recipe();
    recipe.steps[0].condition = Some("${flag}".to_string());
    let params = vec![("flag".to_string(), "true".to_string())];
    let s = recipe.substitute_parameters(&params).unwrap();
    assert_eq!(s.steps[0].condition, Some("true".to_string()));
}

#[test]
fn default_browsers_is_auto() {
    assert_eq!(default_browsers(), vec!["auto".to_string()]);
}

#[test]
fn file_names_are_sanitized() {
    assert_eq!(sanitize_filename("my recipe/v1.0"), "my_recipe_v1_0");
    assert_eq!(sanitize_filename("ok-name_1"), "ok-name_1");
    assert_eq!(sanitize_filename("é"), "é");
    assert_eq!(recipe_file_name("login test"), "login_test.json");
    // Sanitising twice changes nothing more.
    let once = sanitize_filename("a b!c");
    assert_eq!(sanitize_filename(&once), once);
}

#[test]
fn manager_paths() {
    let m = RecipeManager::new(Some("/data/recipes".to_string()), None);
    assert_eq!(m.recipes_dir(), "/data/recipes");
    assert_eq!(m.recipe_path("my recipe"), "/data/recipes/my_recipe.json");
    let m = RecipeManager::new(None, Some("/home/u/".to_string()));
    assert_eq!(m.recipes_dir(), "/home/u/recipes");
    let m = RecipeManager::new(None, None);
    assert_eq!(m.recipes_dir(), "./recipes");
}

#[test]
fn json_extension() {
    assert!(has_json_extension("a.json"));
    assert!(!has_json_extension(".json"));
    assert!(!has_json_extension("a.yaml"));
    assert!(!has_json_extension("json"));
}

fn info(name: &str, desc: Option<&str>, steps: usize) -> RecipeInfo {
    RecipeInfo {
        name: name.to_string(),
        description: desc.map(|s| s.to_string()),
        version: "1.0.0".to_string(),
        author: None,
        created_at: None,
        step_count: steps,
        file_path: format!("/r/{name}.json"),
    }
}

#[test]
fn listing_is_sorted_and_worded() {
    let sorted = sort_by_name(vec![info("beta", None, 2), info("alpha", Some("first"), 1), info("Zed", None, 3)]);
    let names: Vec<&str> = sorted.iter().map(|i| i.name.as_str()).collect();
    assert_eq!(names, vec!["Zed", "alpha", "beta"]);
    assert_eq!(
        recipe_listing(&sorted),
        "Available recipes:\n  Zed (v1.0.0) - 3 steps\n  alpha (v1.0.0) - first - 1 steps\n  beta (v1.0.0) - 2 steps\n"
    );
    assert_eq!(recipe_listing(&Vec::new()), "No recipes found");
}

#[test]
fn templates_build_valid_recipes() {
    let t = RecipeTemplate::MultiBrowserScreenshot {
        url: "https://example.com".to_string(),
        browsers: vec!["chrome".to_string(), "firefox".to_string()],
    };
    let r = create_recipe_from_template(t).expect("a valid recipe");
    assert!(r.validate().is_ok());
    assert_eq!(r.browsers, vec!["chrome".to_string(), "firefox".to_string()]);

    let t = RecipeTemplate::ResponsiveTest {
        url: "https://example.com".to_string(),
        browsers: vec!["auto".to_string()],
        resolutions: vec![(1920, 1080), (375, 667)],
    };
    let r = create_recipe_from_template(t).expect("a valid recipe");
    assert!(r.validate().is_ok());

    let t = RecipeTemplate::LoginAndScreenshot {
        base_url: "http://localhost:3000".to_string(),
        username: "user".to_string(),
        password: "password".to_string(),
        browsers: None,
    };
    let r = create_recipe_from_template(t).expect("a valid recipe");
    assert!(r.validate().is_ok());
    assert_eq!(r.browsers, vec!["auto".to_string()]);
}

#[test]
fn template_with_unsupported_browser_is_refused() {
    let t = RecipeTemplate::MultiBrowserScreenshot {
        url: "https://example.com".to_string(),
        browsers: vec!["safari".to_string()],
    };
    match create_recipe_from_template(t) {
        Err(WebDriverError::InvalidRecipe(m)) => {
            assert_eq!(m, "Generated recipe validation failed: Unsupported browser: safari")
        }
        other => panic!("unexpected {other:?}"),
    }
}

#[test]
fn template_arguments() {
    let mut m = JsonMap::new();
    m.insert("template".to_string(), Value::String("multi_browser_screenshot".to_string()));
    m.insert(
        "browsers".to_string(),
        Value::Array(vec![Value::String("firefox".to_string()), Value::Bool(true)]),
    );
    match template_from_arguments(&Some(m), None) {
        Ok(RecipeTemplate::MultiBrowserScreenshot { url, browsers }) => {
            assert_eq!(url, "https://example.com");
            assert_eq!(browsers, vec!["firefox".to_string()]);
        }
        other => panic!("unexpected {other:?}"),
    }

    let mut m = JsonMap::new();
    m.insert("template".to_string(), Value::String("responsive_test".to_string()));
    m.insert("browsers".to_string(), Value::Array(vec![]));
    match template_from_arguments(&Some(m), None) {
        Ok(RecipeTemplate::ResponsiveTest { browsers, resolutions, .. }) => {
            assert_eq!(browsers, vec!["auto".to_string()]);
            assert_eq!(resolutions, vec![(1920, 1080), (768, 1024), (375, 667)]);
        }
        other => panic!("unexpected {other:?}"),
    }

    let mut m = JsonMap::new();
    m.insert("template".to_string(), Value::String("nope".to_string()));
    match template_from_arguments(&Some(m), None) {
        Err(TemplateCallError::UnknownTemplate(msg)) => assert_eq!(msg, "Unknown template type: nope"),
        other => panic!("unexpected {other:?}"),
    }
    assert!(matches!(template_from_arguments(&None, None), Err(TemplateCallError::MissingTemplate)));
}

#[test]
fn placeholders_and_absent_keys() {
    let params = vec![("token".to_string(), "abc".to_string())];
    assert_eq!(substitute_variables("${token}", &params), "abc");
    assert_eq!(substitute_variables("{\"url\":\"https://x\"}", &params), "{\"url\":\"https://x\"}");
}

#[test]
fn file_names_stay_in_the_recipe_directory() {
    assert_eq!(recipe_file_name("../etc/passwd"), "___etc_passwd.json");
    assert_eq!(recipe_file_name("a b.c"), "a_b_c.json");
    assert!(has_json_extension(&recipe_file_name("x")));
}

#[test]
fn no_parameters_keep_step_arguments() {
    let mut arguments = serde_json::Map::new();
    arguments.insert("url".to_string(), Value::String("${site}".to_string()));
    arguments.insert("n".to_string(), Value::from(3u64));
    let step = RecipeStep {
        name: None,
        description: None,
        action: "navigate".to_string(),
        arguments: arguments.clone(),
        continue_on_error: None,
        retry_count: None,
        retry_delay_ms: None,
        condition: None,
        session_id: None,
        browser: None,
    };
    let r = Recipe {
        name: "r".to_string(),
        description: None,
        version: "1".to_string(),
        author: None,
        created_at: None,
        parameters: None,
        browsers: default_browsers(),
        steps: vec![step],
    };
    let s = r.substitute_parameters(&vec![]).unwrap();
    assert_eq!(s.steps[0].arguments, arguments);
}

#[test]
fn sanitized_names_hold_no_path_characters() {
    let f = sanitize_filename("a/b\\c.d:e");
    assert_eq!(f, "a_b_c_d_e");
    assert!(!f.contains('/') && !f.contains('\\') && !f.contains('.') && !f.contains(':'));
}
