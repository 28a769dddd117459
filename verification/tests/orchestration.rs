use anchor_dev::cases::TestCase;
use anchor_dev::config::{mode_of_verbosity, LogLevel, Mode};
use anchor_dev::errors::HarnessError;
use anchor_dev::plan::{build_plan, render_listing, BuildStep};

fn case(name: &str, path: &str) -> TestCase {
    TestCase { name: String::from(name), path: String::from(path) }
}

#[test]
fn build_plan_enters_runs_and_restores_per_case() {
    let cases = vec![case("x", "/r/x"), case("y-z", "/r/y/z")];
    let steps = build_plan(&cases);
    assert_eq!(steps.len(), 6);
    match &steps[0] {
        BuildStep::Enter { path } => assert_eq!(path, "/r/x"),
        other => panic!("wrong step: {:?}", step_label(other)),
    }
    match &steps[1] {
        BuildStep::RunTool { name } => assert_eq!(name, "x"),
        other => panic!("wrong step: {:?}", step_label(other)),
    }
    assert!(matches!(steps[2], BuildStep::Restore));
    match &steps[3] {
        BuildStep::Enter { path } => assert_eq!(path, "/r/y/z"),
        other => panic!("wrong step: {:?}", step_label(other)),
    }
    match &steps[4] {
        BuildStep::RunTool { name } => assert_eq!(name, "y-z"),
        other => panic!("wrong step: {:?}", step_label(other)),
    }
    assert!(matches!(steps[5], BuildStep::Restore));
}

fn step_label(s: &BuildStep) -> &'static str {
    match s {
        BuildStep::Enter { .. } => "enter",
        BuildStep::RunTool { .. } => "run",
        BuildStep::Restore => "restore",
    }
}

#[test]
fn replaying_a_plan_restores_the_starting_directory() {
    let cases = vec![case("a", "/r/a"), case("b", "/r/b"), case("c", "/r/c")];
    let steps = build_plan(&cases);
    let mut cwd = String::from("/start");
    let mut saved: Vec<String> = Vec::new();
    for step in &steps {
        match step {
            BuildStep::Enter { path } => {
                saved.push(cwd.clone());
                cwd = path.clone();
            }
            BuildStep::RunTool { .. } => {}
            BuildStep::Restore => {
                cwd = saved.pop().expect("restore without a matching enter");
            }
        }
    }
    assert_eq!(cwd, "/start");
    assert!(saved.is_empty());
}

#[test]
fn empty_plan_has_no_steps() {
    let cases: Vec<TestCase> = Vec::new();
    let steps = build_plan(&cases);
    assert!(steps.is_empty());
}

#[test]
fn listing_prints_bracketed_name_then_path() {
    let cases = vec![case("x", "/r/x"), case("y-z", "/r/y/z")];
    let lines = render_listing(&cases);
    assert_eq!(lines.len(), 4);
    assert_eq!(lines[0], "[x]");
    assert_eq!(lines[1], "  - path: /r/x");
    assert_eq!(lines[2], "[y-z]");
    assert_eq!(lines[3], "  - path: /r/y/z");
}

#[test]
fn mode_labels() {
    assert_eq!(Mode::Prod.label(), "production");
    assert_eq!(Mode::Dev.label(), "development");
    assert_eq!(Mode::Debug.label(), "debug");
    assert_eq!(Mode::Verbose.label(), "verbose");
}

#[test]
fn verbosity_selects_the_mode() {
    assert!(matches!(mode_of_verbosity(Some(0)), Mode::Prod));
    assert!(matches!(mode_of_verbosity(Some(1)), Mode::Dev));
    assert!(matches!(mode_of_verbosity(None), Mode::Dev));
    assert!(matches!(mode_of_verbosity(Some(2)), Mode::Debug));
    assert!(matches!(mode_of_verbosity(Some(3)), Mode::Verbose));
    assert!(matches!(mode_of_verbosity(Some(100)), Mode::Verbose));
}

#[test]
fn modes_ask_for_their_levels() {
    assert!(matches!(Mode::Prod.level(), LogLevel::Warn));
    assert!(matches!(Mode::Dev.level(), LogLevel::Info));
    assert!(matches!(Mode::Debug.level(), LogLevel::Debug));
    assert!(matches!(Mode::Verbose.level(), LogLevel::Trace));
}

#[test]
fn traversal_and_directory_errors_carry_their_context() {
    let t = HarnessError::Traversal {
        root: String::from("/r"),
        cause: String::from("permission denied"),
    };
    assert_eq!(t.describe(), "unable to traverse root directory /r: permission denied");
    let d = HarnessError::DirectoryChange {
        path: String::from("/r/x"),
        cause: String::from("gone"),
    };
    assert_eq!(d.describe(), "unable to change working directory to /r/x: gone");
}
