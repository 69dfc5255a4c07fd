use kb::{get_layout, parse_layout, LayoutError, ToolRun};

const ANSWER: &str = "rules:      evdev\nmodel:      pc105\nlayout:     us\n";

fn exited(status: Option<i32>, stdout: &[u8], stderr: &[u8]) -> ToolRun {
    ToolRun::Exited { status, stdout: stdout.to_vec(), stderr: stderr.to_vec() }
}

#[test]
fn layout_is_read_from_the_answer() {
    assert_eq!(get_layout(exited(Some(0), ANSWER.as_bytes(), b"")), Ok(String::from("us")));
}

#[test]
fn layout_is_the_last_word_of_its_line() {
    assert_eq!(parse_layout("layout:     fr"), Some(String::from("fr")));
    assert_eq!(parse_layout("layout:  a  b  c  \n"), Some(String::from("c")));
    assert_eq!(parse_layout("layout:\tus,fr\r\nvariant:\t,bepo\r\n"), Some(String::from("us,fr")));
    assert_eq!(parse_layout("layout"), Some(String::from("layout")));
    assert_eq!(parse_layout("my-layout-is us"), Some(String::from("us")));
}

#[test]
fn last_line_with_the_marker_wins() {
    assert_eq!(parse_layout("layout: us\nlayout: fr\nmodel: pc105\n"), Some(String::from("fr")));
    assert_eq!(parse_layout("layout: us\nmodel: pc105\nxkb_layout de\n\n"), Some(String::from("de")));
}

#[test]
fn answer_without_the_marker_names_no_layout() {
    assert_eq!(parse_layout(""), None);
    assert_eq!(parse_layout("rules: evdev\nmodel: pc105\n"), None);
    assert_eq!(parse_layout("lay\nout"), None);
    assert_eq!(parse_layout("Layout: us"), None);
    assert_eq!(get_layout(exited(Some(0), b"rules: evdev\n", b"")), Err(LayoutError::Parse));
    assert_eq!(get_layout(exited(Some(0), b"", b"layout: us")), Err(LayoutError::Parse));
}

#[test]
fn answer_that_is_not_text_names_no_layout() {
    assert_eq!(get_layout(exited(Some(0), &[b'l', 0xff, b'\n'], b"")), Err(LayoutError::Parse));
    assert_eq!(
        get_layout(exited(Some(0), b"layout: us\n\xc3", b"")),
        Err(LayoutError::Parse)
    );
}

#[test]
fn tool_that_did_not_start_is_an_error() {
    assert_eq!(get_layout(ToolRun::NotStarted), Err(LayoutError::ExternalTool(ToolRun::NotStarted)));
}

#[test]
fn tool_that_failed_is_an_error_with_its_run() {
    let run = exited(Some(255), ANSWER.as_bytes(), b"Cannot open display \"default display\"\n");
    assert_eq!(get_layout(run.clone()), Err(LayoutError::ExternalTool(run)));
    let killed = exited(None, ANSWER.as_bytes(), b"");
    assert_eq!(get_layout(killed.clone()), Err(LayoutError::ExternalTool(killed)));
    let negative = exited(Some(-1), ANSWER.as_bytes(), b"");
    assert_eq!(get_layout(negative.clone()), Err(LayoutError::ExternalTool(negative)));
}

#[test]
fn run_succeeds_on_exit_code_zero_only() {
    assert!(exited(Some(0), b"", b"").succeeded());
    assert!(!exited(Some(1), b"", b"").succeeded());
    assert!(!exited(Some(-1), b"", b"").succeeded());
    assert!(!exited(None, b"", b"").succeeded());
    assert!(!ToolRun::NotStarted.succeeded());
}

#[test]
fn complaint_is_the_trimmed_error_text() {
    let run = exited(Some(255), b"", b"  Cannot open display \"default display\"\n\n");
    assert_eq!(run.complaint(), Some(String::from("Cannot open display \"default display\"")));
    assert_eq!(exited(Some(1), b"", b"").complaint(), Some(String::new()));
    assert_eq!(exited(Some(1), b"", &[0xff]).complaint(), None);
    assert_eq!(ToolRun::NotStarted.complaint(), None);
}
