use anchor_dev::command::{expect_stdout_only, interpret_output, RawOutput};
use anchor_dev::errors::{HarnessError, StreamKind};

fn raw(success: bool, code: Option<i32>, stdout: &[u8], stderr: &[u8]) -> RawOutput {
    RawOutput { success, code, stdout: stdout.to_vec(), stderr: stderr.to_vec() }
}

fn cmd() -> (String, Vec<String>) {
    (String::from("tool"), vec![String::from("--version")])
}

#[test]
fn command_success_path() {
    let (program, args) = cmd();
    let out = expect_stdout_only(program, args, raw(true, Some(0), b"v1.2.3\n", b"")).unwrap();
    assert_eq!(out, "v1.2.3");
}

#[test]
fn command_stderr_strictness() {
    let (program, args) = cmd();
    let err = expect_stdout_only(program, args, raw(true, Some(0), b"v1.2.3\n", b"warning: noise\n"))
        .unwrap_err();
    match &err {
        HarnessError::UnexpectedStream { stderr, .. } => assert_eq!(stderr, "warning: noise"),
        other => panic!("wrong error: {:?}", other),
    }
    assert_eq!(
        err.describe(),
        "command tool --version outputs stderr unexpectedly: warning: noise"
    );
}

#[test]
fn command_non_zero_exit() {
    let (program, args) = cmd();
    let err = interpret_output(program, args, raw(false, Some(1), b"partial", b"boom")).unwrap_err();
    match &err {
        HarnessError::NonZeroExit { code, .. } => assert_eq!(*code, Some(1)),
        other => panic!("wrong error: {:?}", other),
    }
    assert_eq!(err.describe(), "command tool --version returned a non-zero exit code: 1");
}

#[test]
fn command_non_zero_exit_through_stdout_only() {
    let (program, args) = cmd();
    let err = expect_stdout_only(program, args, raw(false, Some(42), b"", b"")).unwrap_err();
    match &err {
        HarnessError::NonZeroExit { code, .. } => assert_eq!(*code, Some(42)),
        other => panic!("wrong error: {:?}", other),
    }
}

#[test]
fn command_signal_exit_describes_itself() {
    let (program, args) = cmd();
    let err = interpret_output(program, args, raw(false, None, b"", b"")).unwrap_err();
    assert_eq!(
        err.describe(),
        "command tool --version returned a non-zero exit code: terminated by signal"
    );
}

#[test]
fn command_empty_streams_are_absent() {
    let (program, args) = cmd();
    let (out, err) = interpret_output(program, args, raw(true, Some(0), b"", b"")).unwrap();
    assert!(out.is_none());
    assert!(err.is_none());
}

#[test]
fn command_both_streams_decoded_and_trimmed() {
    let (program, args) = cmd();
    let (out, err) = interpret_output(program, args, raw(true, Some(0), b"out \t\n", b"err\r\n"))
        .unwrap();
    assert_eq!(out.as_deref(), Some("out"));
    assert_eq!(err.as_deref(), Some("err"));
}

#[test]
fn command_non_utf8_stdout_fails() {
    let (program, args) = cmd();
    let err = interpret_output(program, args, raw(true, Some(0), b"\xff\xfe", b"fine")).unwrap_err();
    match &err {
        HarnessError::Decoding { stream, .. } => assert!(matches!(stream, StreamKind::Stdout)),
        other => panic!("wrong error: {:?}", other),
    }
    assert_eq!(err.describe(), "command tool --version outputs non-utf8 stdout");
}

#[test]
fn command_non_utf8_stderr_fails() {
    let (program, args) = cmd();
    let err = interpret_output(program, args, raw(true, Some(0), b"good", b"\x80")).unwrap_err();
    match &err {
        HarnessError::Decoding { stream, .. } => assert!(matches!(stream, StreamKind::Stderr)),
        other => panic!("wrong error: {:?}", other),
    }
}

#[test]
fn command_absent_stdout_defaults_to_empty_string() {
    let (program, args) = cmd();
    let out = expect_stdout_only(program, args, raw(true, Some(0), b"", b"")).unwrap();
    assert_eq!(out, "");
}

#[test]
fn execution_error_message_names_the_command() {
    let err = HarnessError::Execution {
        program: String::from("ghost"),
        args: vec![String::from("--x"), String::from("--y")],
        cause: String::from("no such file"),
    };
    assert_eq!(err.describe(), "unable to execute command ghost --x --y: no such file");
}

#[test]
fn negative_exit_code_is_rendered() {
    let err = HarnessError::NonZeroExit {
        program: String::from("tool"),
        args: Vec::new(),
        code: Some(-7),
    };
    assert_eq!(err.describe(), "command tool  returned a non-zero exit code: -7");
}
