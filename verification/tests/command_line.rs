use rivect::cli::{default_data_root, frame_request, parse_args, CliError, Frame, USAGE};
use rivect::contracts::REQUEST_MAX_BYTES;
use rivect::owner::{elect, owner_paths, LockOutcome, OwnerError};

fn args(words: &[&str]) -> Vec<String> {
    words.iter().map(|w| w.to_string()).collect()
}

#[test]
fn flags_are_read_in_order() {
    let options = parse_args(
        &args(&["--headless", "--tui", "fullscreen", "--no-mouse", "--data-root", "/a", "--data-root", "/b"]),
        "/home/.rivect".to_string(),
    )
    .expect("legal flags");
    assert!(options.headless);
    assert_eq!(options.data_root, "/b");
    let none = parse_args(&args(&[]), "/home/.rivect".to_string()).expect("no flags");
    assert!(!none.headless);
    assert_eq!(none.data_root, "/home/.rivect");
}

#[test]
fn a_wrong_flag_ends_with_the_usage() {
    let unknown = parse_args(&args(&["--fast"]), String::new()).expect_err("unknown");
    assert_eq!(unknown.message(), "unknown flag --fast");
    assert_eq!(unknown.diagnostic(), format!("unknown flag --fast\n{USAGE}"));
    assert_eq!(unknown.exit_code(), 2);
    let missing = parse_args(&args(&["--data-root"]), String::new()).expect_err("missing");
    assert_eq!(missing.diagnostic(), format!("missing value for --data-root\n{USAGE}"));
    let mode = parse_args(&args(&["--tui", "inline", "--fast"]), String::new()).expect_err("mode");
    assert_eq!(mode.diagnostic(), "unsupported render mode in this build: inline");
    assert_eq!(mode.exit_code(), 2);
    let bare = parse_args(&args(&["--tui"]), String::new()).expect_err("bare");
    assert_eq!(bare.message(), "unsupported render mode in this build: ");
}

#[test]
fn runtime_failures_exit_with_one() {
    let stdin = CliError::Stdin("closed".to_string());
    assert_eq!(stdin.diagnostic(), "stdin failed: closed");
    assert_eq!(stdin.exit_code(), 1);
    assert_eq!(CliError::Stdout("x".to_string()).message(), "stdout failed: x");
    assert_eq!(CliError::Tui("x".to_string()).message(), "tui failed: x");
    assert_eq!(
        CliError::RequestTooLarge { limit: 1048576 }.message(),
        "stdin request exceeds 1048576 bytes"
    );
    assert_eq!(
        CliError::Owner(OwnerError::AlreadyOwned).message(),
        "runtime open failed: another owner already holds this data root"
    );
}

#[test]
fn the_default_data_root_prefers_the_variable() {
    assert_eq!(default_data_root(Some("/x".to_string()), Some("/home/a".to_string())), "/x");
    assert_eq!(default_data_root(None, Some("/home/a".to_string())), "/home/a/.rivect");
    assert_eq!(default_data_root(None, Some("/".to_string())), "/.rivect");
    assert_eq!(default_data_root(None, None), "./.rivect");
}

#[test]
fn a_line_end_is_not_content() {
    for line in ["{}", "{}\n", "{}\r\n"] {
        match frame_request(line.as_bytes().to_vec()) {
            Frame::Request(text) => assert_eq!(text, "{}"),
            other => panic!("{other:?}"),
        }
    }
    assert!(matches!(frame_request(b"\n\n".to_vec()), Frame::Request(text) if text == "\n"));
}

#[test]
fn frames_end_skip_overflow_and_refuse_bytes() {
    assert!(matches!(frame_request(Vec::new()), Frame::End));
    assert!(matches!(frame_request(b"\r\n".to_vec()), Frame::Skip));
    assert!(matches!(frame_request(b"\n".to_vec()), Frame::Skip));
    assert!(matches!(frame_request(vec![0xff, b'\n']), Frame::NotText));
    let mut full = vec![b'a'; REQUEST_MAX_BYTES];
    full.push(b'\n');
    assert!(matches!(frame_request(full), Frame::Request(_)));
    assert!(matches!(frame_request(vec![b'a'; REQUEST_MAX_BYTES + 1]), Frame::TooLarge));
}

#[test]
fn one_owner_holds_a_data_root() {
    assert!(elect(LockOutcome::Held).is_ok());
    assert!(matches!(elect(LockOutcome::WouldBlock), Err(OwnerError::AlreadyOwned)));
    let failed = elect(LockOutcome::Failed("denied".to_string())).expect_err("failed");
    assert_eq!(failed.message(), "owner I/O failed: denied");
    let paths = owner_paths("/data");
    assert!(paths.lock.starts_with("/data/"));
    assert!(paths.database.starts_with("/data/"));
    assert_eq!(
        OwnerError::ConfigTooLarge { path: "/c".to_string(), limit: 9 }.message(),
        "owner configuration /c exceeds 9 bytes"
    );
    assert_eq!(
        OwnerError::ConfigRead { path: "/c".to_string(), source: "gone".to_string() }.message(),
        "owner configuration /c could not be read: gone"
    );
}
