use kb::{get_user_layout, next_layout, start, Command, ConfigFault, Environment, LayoutError, Step, ToolRun};

fn with_layouts(value: Option<&str>) -> Environment {
    Environment {
        layouts: value.map(String::from),
        home: Some(String::from("/home/user")),
        state_file: None,
    }
}

fn answer(text: &str) -> ToolRun {
    ToolRun::Exited { status: Some(0), stdout: text.as_bytes().to_vec(), stderr: Vec::new() }
}

#[test]
fn test_get_user_layout_custom_env_var() {
    assert_eq!(get_user_layout(&with_layouts(Some("ca,us,pl"))), &["ca", "us", "pl"]);
}

#[test]
fn test_get_user_layout_empty() {
    assert_eq!(get_user_layout(&with_layouts(Some(""))).len(), 0);
}

#[test]
fn test_get_user_layout_default_case() {
    assert_eq!(get_user_layout(&with_layouts(None)), &["us", "fr"]);
}

#[test]
fn test_get_user_layout_wrong_env_var() {
    assert_eq!(get_user_layout(&with_layouts(Some(","))).len(), 0);
}

#[test]
fn test_get_user_layout_duplicate() {
    assert_eq!(get_user_layout(&with_layouts(Some("us,us"))), &["us"]);
}

#[test]
fn test_next_layout_empty() {
    let env = with_layouts(Some(""));
    let layouts = get_user_layout(&env);
    assert!(next_layout(&layouts, "us").is_err(), "Empty variable must lead to Error");
    assert_eq!(
        start(Command::Next, true, env),
        Step::Done(Err(LayoutError::Config(ConfigFault::NoLayouts)))
    );
}

#[test]
fn test_next_layout_current_layout_not_in_available() {
    let env = with_layouts(Some("doesnotexist"));
    let layouts = get_user_layout(&env);
    let layout = kb::get_layout(answer("rules:      evdev\nlayout:     us\n")).unwrap();
    kb::set_layout(&layout, true, answer(""), &env).unwrap();
    assert!(
        next_layout(&layouts, &layout).is_err(),
        "Current layout not in available must lead to Error"
    );
    let step = match start(Command::Next, true, env) {
        Step::Query(after) => after.resume(answer("rules:      evdev\nlayout:     us\n")),
        other => panic!("expected a query, got {:?}", other),
    };
    assert_eq!(step, Step::Done(Err(LayoutError::NotFound)));
}
