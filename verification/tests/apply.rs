use kb::apply::NOTICE_TIMEOUT;
use kb::{notice, set_layout, write_layout, ConfigFault, Environment, LayoutError, Notice, Plan, StateWrite, ToolRun};
use std::path::PathBuf;

fn env(home: Option<&str>, state_file: Option<&str>) -> Environment {
    Environment { layouts: None, home: home.map(String::from), state_file: state_file.map(String::from) }
}

fn done() -> ToolRun {
    ToolRun::Exited { status: Some(0), stdout: Vec::new(), stderr: Vec::new() }
}

fn write(path: &str, contents: &[u8]) -> StateWrite {
    StateWrite { path: String::from(path), contents: contents.to_vec() }
}

#[test]
fn state_file_is_in_the_home_directory() {
    assert_eq!(write_layout("us", &env(Some("/home/user"), None)), Ok(write("/home/user/.layout", b"us")));
}

#[test]
fn home_directory_and_name_are_joined_as_paths_are() {
    for home in ["/home/user", "/home/user/", "/", "", "relative", "a//", "/h\u{f4}me"] {
        let mut expected = PathBuf::from(home);
        expected.push(".layout");
        let got = write_layout("fr", &env(Some(home), None)).unwrap();
        assert_eq!(got.path, expected.to_str().unwrap(), "{:?}", home);
    }
    assert_eq!(write_layout("fr", &env(Some("/home/user/"), None)).unwrap().path, "/home/user/.layout");
    assert_eq!(write_layout("fr", &env(Some(""), None)).unwrap().path, ".layout");
    assert_eq!(write_layout("fr", &env(Some("/"), None)).unwrap().path, "/.layout");
}

#[test]
fn configured_state_file_goes_first() {
    assert_eq!(
        write_layout("us", &env(Some("/home/user"), Some("/tmp/kb"))),
        Ok(write("/tmp/kb", b"us"))
    );
    assert_eq!(write_layout("us", &env(None, Some("/tmp/kb"))), Ok(write("/tmp/kb", b"us")));
}

#[test]
fn configured_state_file_is_taken_as_written() {
    assert_eq!(
        write_layout("us", &env(Some("/home/user"), Some("~/.layout"))),
        Ok(write("~/.layout", b"us"))
    );
    assert_eq!(write_layout("us", &env(Some("/home/user"), Some(""))), Ok(write("", b"us")));
}

#[test]
fn no_home_and_no_state_file_is_a_configuration_error() {
    assert_eq!(write_layout("us", &env(None, None)), Err(LayoutError::Config(ConfigFault::NoHome)));
}

#[test]
fn state_file_holds_the_bytes_of_the_layout() {
    for layout in ["us", "", "us(intl)", "gr\u{e9}c", "fr\n", " de "] {
        let got = write_layout(layout, &env(Some("/home/user"), None)).unwrap();
        assert_eq!(got.contents, layout.as_bytes());
        assert_eq!(String::from_utf8(got.contents).unwrap(), layout);
    }
}

#[test]
fn notice_names_the_layout() {
    assert_eq!(
        notice("fr"),
        Notice {
            summary: String::from("kb"),
            body: String::from("Keyboard layout set to 'fr'"),
            timeout: 2000,
        }
    );
    assert_eq!(notice("").body, "Keyboard layout set to ''");
    assert_eq!(NOTICE_TIMEOUT, 2000);
}

#[test]
fn set_layout_plans_the_write_and_the_notice() {
    assert_eq!(
        set_layout("fr", false, done(), &env(Some("/home/user"), None)),
        Ok(Plan { write: write("/home/user/.layout", b"fr"), notice: Some(notice("fr")) })
    );
}

#[test]
fn set_layout_plans_no_notice_when_quiet() {
    assert_eq!(
        set_layout("fr", true, done(), &env(None, Some("/tmp/kb"))),
        Ok(Plan { write: write("/tmp/kb", b"fr"), notice: None })
    );
}

#[test]
fn set_layout_hands_back_a_failed_run() {
    let failed = ToolRun::Exited {
        status: Some(255),
        stdout: Vec::new(),
        stderr: b"Error loading new keyboard description\n".to_vec(),
    };
    assert_eq!(
        set_layout("zz", false, failed.clone(), &env(Some("/home/user"), None)),
        Err(LayoutError::ExternalTool(failed.clone()))
    );
    assert_eq!(set_layout("zz", true, failed.clone(), &env(None, None)), Err(LayoutError::ExternalTool(failed)));
    assert_eq!(
        set_layout("us", false, ToolRun::NotStarted, &env(Some("/home/user"), None)),
        Err(LayoutError::ExternalTool(ToolRun::NotStarted))
    );
}

#[test]
fn set_layout_needs_a_place_for_the_state_file() {
    assert_eq!(set_layout("us", false, done(), &env(None, None)), Err(LayoutError::Config(ConfigFault::NoHome)));
}
