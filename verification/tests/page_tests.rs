use rust_browser_mcp::actions::extract_session_id;
use rust_browser_mcp::elements::{
    check_png, client_failure_message, found_element_line, found_element_message,
    found_elements_header, png_data_url, screenshot_content, search_failure_message, text_preview, SearchFailure,
};
use rust_browser_mcp::login::{
    login_arguments, ClickOutcome, FillOutcome, LoginAction, LoginArguments, LoginForm,
};
use serde_json::Value;
type JsonMap = serde_json::Map<String, Value>;

fn login_args(username_selector: Option<&str>, submit_selector: Option<&str>) -> LoginArguments {
    LoginArguments {
        username: "alice".to_string(),
        password: "secret".to_string(),
        username_selector: username_selector.map(String::from),
        password_selector: None,
        submit_selector: submit_selector.map(String::from),
        session_id: None,
    }
}

fn fill_selector(a: LoginAction) -> (String, String) {
    match a {
        LoginAction::Fill { selector, value } => (selector, value),
        other => panic!("expected a fill, got {other:?}"),
    }
}

#[test]
fn login_with_default_selectors() {
    let mut form = LoginForm::new(login_args(None, None), "s1".to_string());
    assert_eq!(fill_selector(form.next_action()), ("input[type='email']".to_string(), "alice".to_string()));
    form.record_fill(FillOutcome::NotFound("no such element".to_string()));
    assert_eq!(fill_selector(form.next_action()).0, "input[type='text'][name*='user']");
    form.record_fill(FillOutcome::Filled);
    assert_eq!(fill_selector(form.next_action()), ("input[type='password']".to_string(), "secret".to_string()));
    form.record_fill(FillOutcome::Filled);
    match form.next_action() {
        LoginAction::Click { selector } => assert_eq!(selector, "button[type='submit']"),
        other => panic!("unexpected {other:?}"),
    }
    form.record_click(ClickOutcome::Clicked);
    match form.next_action() {
        LoginAction::Respond(Ok(m)) => assert_eq!(m, "Successfully filled login form and submitted (session: s1)"),
        other => panic!("unexpected {other:?}"),
    }
}

#[test]
fn login_with_custom_selector_fails_fast() {
    let mut form = LoginForm::new(login_args(Some("#user"), None), "s".to_string());
    assert_eq!(fill_selector(form.next_action()).0, "#user");
    form.record_fill(FillOutcome::ClearFailed("stale".to_string()));
    match form.next_action() {
        LoginAction::Respond(Err(m)) => assert_eq!(m, "Failed to clear username field '#user': stale"),
        other => panic!("unexpected {other:?}"),
    }
}

#[test]
fn login_runs_out_of_submit_buttons() {
    let mut form = LoginForm::new(login_args(None, None), "s".to_string());
    form.record_fill(FillOutcome::Filled);
    form.record_fill(FillOutcome::Filled);
    for _ in 0..8 {
        assert!(matches!(form.next_action(), LoginAction::Click { .. }));
        form.record_click(ClickOutcome::NotFound("none".to_string()));
    }
    match form.next_action() {
        LoginAction::Respond(Err(m)) => {
            assert_eq!(m, "Could not find submit button. Try providing a custom submit_selector")
        }
        other => panic!("unexpected {other:?}"),
    }
}

#[test]
fn login_custom_submit_failure() {
    let mut form = LoginForm::new(login_args(None, Some(".go")), "s".to_string());
    form.record_fill(FillOutcome::Filled);
    form.record_fill(FillOutcome::Filled);
    form.record_click(ClickOutcome::ClickFailed("blocked".to_string()));
    match form.next_action() {
        LoginAction::Respond(Err(m)) => {
            assert_eq!(m, "Login form filled but failed to click submit button. Error: blocked")
        }
        other => panic!("unexpected {other:?}"),
    }
}

#[test]
fn login_arguments_are_required() {
    let mut m = JsonMap::new();
    m.insert("username".to_string(), Value::String("u".to_string()));
    assert_eq!(login_arguments(&Some(m.clone())).unwrap_err(), "password parameter required");
    assert_eq!(login_arguments(&None).unwrap_err(), "username parameter required");
    m.insert("password".to_string(), Value::String("p".to_string()));
    m.insert("session_id".to_string(), Value::String("x".to_string()));
    let a = login_arguments(&Some(m.clone())).unwrap();
    assert_eq!(a.username, "u");
    assert_eq!(a.session_id, Some("x".to_string()));
    assert_eq!(extract_session_id(&Some(m)), Some("x".to_string()));
    assert_eq!(extract_session_id(&None), None);
}

#[test]
fn previews_and_reports() {
    assert_eq!(text_preview("short"), "short");
    let long = "a".repeat(150);
    let p = text_preview(&long);
    assert_eq!(p.len(), 100);
    assert!(p.ends_with("..."));
    assert_eq!(&p[..97], &long[..97]);
    let exactly = "b".repeat(100);
    assert_eq!(text_preview(&exactly), exactly);

    assert_eq!(
        found_element_message("#a", &Some("form".to_string()), "s", "input", "hi"),
        "Found element '#a' within parent 'form' (session: s): <input> - Text: \"hi\""
    );
    assert_eq!(found_elements_header(2, "li", &None, "s"), "Found 2 element(s) matching 'li' (session: s):\n\n");
    assert_eq!(found_element_line(0, "li", "x"), "1. <li> - Text: \"x\"\n");
    assert_eq!(
        search_failure_message("li", true, &SearchFailure::Child { parent: "ul".to_string(), error: "e".to_string() }),
        "Child elements 'li' not found within parent 'ul': e"
    );
    assert_eq!(
        search_failure_message("li", false, &SearchFailure::Page { error: "e".to_string() }),
        "Element 'li' not found: e"
    );
    assert_eq!(client_failure_message("down"), "Failed to create webdriver client: down");
}

#[test]
fn screenshots() {
    let png = vec![0x89, b'P', b'N', b'G', 1, 2];
    assert!(check_png(&png).is_ok());
    assert_eq!(check_png(&vec![]).unwrap_err(), "Screenshot data is empty");
    assert_eq!(check_png(&vec![1, 2, 3]).unwrap_err(), "Screenshot data is not valid PNG format");
    assert_eq!(png_data_url(&vec![b'M', b'a', b'n']), "data:image/png;base64,TWFu");
    assert_eq!(png_data_url(&vec![b'M']), "data:image/png;base64,TQ==");
    let c = screenshot_content(&png, &None, &None).unwrap();
    assert_eq!(c.text, "Screenshot taken (6 bytes)");
    assert_eq!(c.image_base64, "iVBORwEC");
    let c = screenshot_content(&png, &Some("/tmp/x.png".to_string()), &None).unwrap();
    assert_eq!(c.text, "Screenshot saved to: /tmp/x.png (6 bytes)");
    assert_eq!(
        screenshot_content(&png, &Some("/x".to_string()), &Some("denied".to_string())).unwrap_err(),
        "Failed to save screenshot to /x: denied"
    );
    assert_eq!(png_data_url(&vec![b'M', b'a', b'n']), "data:image/png;base64,TWFu");
}

#[test]
fn login_attempts_end_within_the_selector_budget() {
    let args = LoginArguments {
        username: "u".to_string(),
        password: "p".to_string(),
        username_selector: None,
        password_selector: None,
        submit_selector: None,
        session_id: None,
    };
    // Every field is found at its last default selector: 11 + 4 + 8 = 23 outcomes.
    let mut form = LoginForm::new(args, "s".to_string());
    let mut recorded = 0;
    let mut tries = 0;
    loop {
        match form.next_action() {
            LoginAction::Respond(r) => {
                assert_eq!(r, Ok("Successfully filled login form and submitted (session: s)".to_string()));
                break;
            }
            LoginAction::Fill { .. } => {
                tries += 1;
                let last = if recorded < 11 { tries == 11 } else { tries == 4 };
                if last {
                    form.record_fill(FillOutcome::Filled);
                    tries = 0;
                } else {
                    form.record_fill(FillOutcome::NotFound("no".to_string()));
                }
            }
            LoginAction::Click { .. } => {
                tries += 1;
                if tries == 8 {
                    form.record_click(ClickOutcome::Clicked);
                } else {
                    form.record_click(ClickOutcome::NotFound("no".to_string()));
                }
            }
        }
        recorded += 1;
        assert!(recorded <= 23);
    }
    assert_eq!(recorded, 23);
}
