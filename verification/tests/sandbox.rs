use rivect::executor::command::{helper_confined_command, helper_launch_command, helper_probe_write};
use rivect::executor::linux::{self, run_confined, SandboxLauncher};
use rivect::executor::macos::{
    self, exec_profile, read_profile, scheme_literal, split_deprecation_stderr,
    write_once_on_opened_file, write_profile, FileFacts, FileIdentity, DEPRECATION_PREFIX,
    WRITE_MAX_BYTES,
};
use rivect::executor::{InspectedTarget, WorkerError};
use rivect::helper::{
    apply_landlock, boundary_built, helper_binary, helper_plan, join_path, kill_process_group,
    launch_failed, move_data, override_helper_binary, probe_write_verdict, rlimits, DataMode,
    DataStep, HelperPlan, HelperSearch, LandlockStep, Platform, EXIT_DATA_IO, EXIT_DATA_MUTATED,
    EXIT_LAUNCH_EXEC, EXIT_LAUNCH_NOT_FOUND, EXIT_PROTOCOL, EXIT_SANDBOX_INIT, HANDLED_FS,
};

fn words(list: &[&str]) -> Vec<String> {
    list.iter().map(|w| w.to_string()).collect()
}

#[test]
fn a_confined_run_names_its_whole_boundary() {
    let line = run_confined(
        &SandboxLauncher::default(),
        &words(&["path-beneath:read-file:/s"]),
        "/tmp/f.bpf",
        "/usr/bin/cat",
        words(&["/s/f"]),
    );
    assert_eq!(
        line,
        words(&[
            "/usr/bin/unshare",
            "--net",
            "--",
            "/usr/bin/setpriv",
            "--nnp",
            "--landlock-access",
            "fs",
            "--landlock-rule",
            "path-beneath:read-file:/s",
            "--seccomp-filter",
            "/tmp/f.bpf",
            "--",
            "/usr/bin/cat",
            "/s/f",
        ])
    );
}

#[test]
fn the_helper_is_started_behind_the_network_boundary() {
    assert_eq!(helper_launch_command("/h"), words(&["/h", "launch", "--"]));
    assert_eq!(
        helper_confined_command(true, "/h", "/f", "linux", "read", ""),
        words(&[
            "/h", "launch", "--", "/usr/bin/unshare", "--net", "--", "/usr/bin/setpriv", "--nnp",
            "--seccomp-filter", "/f", "--", "/h", "confined", "linux", "read",
        ])
    );
    assert_eq!(
        helper_confined_command(false, "/h", "/f", "macos", "write", "(version 1)"),
        words(&["/h", "confined", "macos", "write", "(version 1)"])
    );
    assert_eq!(
        helper_probe_write(false, "/h", "/f", "macos", "", "/s/p"),
        words(&["/h", "probe-write", "macos", "", "/s/p"])
    );
}

#[test]
fn a_scope_never_leaves_its_literal() {
    let quoted = scheme_literal("/a\"b\\c").map_err(|e| e.message()).expect("quoted");
    assert!(quoted.contains("\\\"") && quoted.contains("\\\\"), "{quoted}");
    assert!(scheme_literal("/a\nb").is_err());
    let scope = Ok(Some("/s".to_string()));
    for profile in [read_profile(&scope), write_profile(&scope), exec_profile(&scope)] {
        let profile = profile.map_err(|e| e.message()).expect("profile");
        assert!(profile.contains("\"/s\""), "{profile}");
    }
    assert!(matches!(
        read_profile(&Err("gone".to_string())),
        Err(WorkerError::ScopeRootUnavailable { .. })
    ));
}

#[test]
fn deprecation_lines_are_no_failure() {
    let raw = format!("{DEPRECATION_PREFIX} x\nreal trouble\n");
    let (notices, rest) = split_deprecation_stderr(&raw);
    let joined = format!("{notices}|{rest}");
    assert!(joined.contains("real trouble"));
    assert!(notices.contains(DEPRECATION_PREFIX) != rest.contains(DEPRECATION_PREFIX));
}

#[test]
fn the_helper_is_found_in_order() {
    let search = |pinned: Option<&str>, environment: Option<&str>, beside| HelperSearch {
        pinned: pinned.map(str::to_string),
        environment: environment.map(str::to_string),
        directory: Ok(Some("/bin".to_string())),
        beside,
        above: None,
    };
    assert_eq!(helper_binary(search(Some("/p"), Some("/e"), true)).expect("pinned"), "/p");
    assert_eq!(helper_binary(search(None, Some("/e"), true)).expect("variable"), "/e");
    assert_eq!(
        helper_binary(search(None, None, true)).expect("beside"),
        "/bin/rivect-sandbox-helper"
    );
    let mut slot = None;
    override_helper_binary(&mut slot, Some("/x".to_string()));
    assert_eq!(slot.as_deref(), Some("/x"));
    assert_eq!(join_path("/a", "b"), "/a/b");
    assert_eq!(join_path("/a/", "b"), "/a/b");
    assert_eq!(join_path("/a", "/b"), "/b");
    assert_eq!(join_path("", "b"), "b");
}

#[test]
fn helper_arguments_are_a_protocol() {
    let plan = |list: &[&str]| {
        let mut all = vec!["helper".to_string()];
        all.extend(words(list));
        helper_plan(&all)
    };
    assert!(matches!(plan(&["launch", "--", "/bin/true"]), Ok(HelperPlan::Launch { .. })));
    assert!(matches!(
        plan(&["confined", "linux", "read"]),
        Ok(HelperPlan::Confined { platform: Platform::Linux, mode: Some(DataMode::Read), .. })
    ));
    assert!(matches!(
        plan(&["probe-write", "linux", "", "/s/p"]),
        Ok(HelperPlan::ProbeWrite { .. })
    ));
    for wrong in [&["launch"][..], &["launch", "--"], &["unknown"], &[], &["confined", "beos", "read"]] {
        assert_eq!(plan(wrong).map(|_| ()).expect_err("protocol").code, EXIT_PROTOCOL, "{wrong:?}");
    }
    assert!(boundary_built(Platform::Linux, true).is_ok());
    assert_eq!(
        boundary_built(Platform::Linux, false).expect_err("other").code,
        EXIT_PROTOCOL
    );
    assert_eq!(launch_failed(true, "x").code, EXIT_LAUNCH_NOT_FOUND);
    assert_eq!(launch_failed(false, "x").code, EXIT_LAUNCH_EXEC);
}

#[test]
fn a_write_that_fails_after_the_resize_has_mutated() {
    let at = move_data(DataMode::Write, DataStep::Take, Ok(5));
    assert!(matches!(at, DataStep::Resize { len: 5 }), "{at:?}");
    let before = move_data(DataMode::Write, DataStep::Resize { len: 5 }, Err("full".to_string()));
    assert!(matches!(before, DataStep::Return(Err(f)) if f.code == EXIT_DATA_IO));
    let after = move_data(DataMode::Write, DataStep::Put, Err("full".to_string()));
    assert!(matches!(after, DataStep::Return(Err(f)) if f.code == EXIT_DATA_MUTATED));
    let read = move_data(DataMode::Read, DataStep::Put, Err("gone".to_string()));
    assert!(matches!(read, DataStep::Return(Err(f)) if f.code == EXIT_DATA_IO));
    assert!(probe_write_verdict(Ok(()), Ok(())).is_ok());
    assert_eq!(
        probe_write_verdict(Err("denied".to_string()), Ok(())).expect_err("denied").code,
        EXIT_DATA_IO
    );
}

#[test]
fn landlock_needs_every_call() {
    let at = apply_landlock(LandlockStep::NoNewPrivs, Ok(0));
    assert!(matches!(at, LandlockStep::CreateRuleset { handled: HANDLED_FS }));
    let at = apply_landlock(at, Ok(3));
    assert!(matches!(at, LandlockStep::RestrictSelf { ruleset: 3 }));
    let at = apply_landlock(at, Ok(0));
    assert!(matches!(at, LandlockStep::Return { verdict: Ok(()), close: Some(3) }));
    let failed = apply_landlock(LandlockStep::NoNewPrivs, Err("denied".to_string()));
    assert!(matches!(
        failed,
        LandlockStep::Return { verdict: Err(f), close: None } if f.code == EXIT_SANDBOX_INIT
    ));
    assert_eq!(HANDLED_FS, 0x7fff);
    assert!(!rlimits(true).is_empty());
    assert_eq!(kill_process_group(5), Ok(-5));
    assert!(kill_process_group(u32::MAX).is_err());
}

#[test]
fn an_egress_control_reaches_only_the_loopback_listener() {
    assert_eq!(linux::egress_control(8080), "exec 3<>/dev/tcp/127.0.0.1/8080");
    assert_eq!(macos::egress_control(8080), ["-w", "1", "127.0.0.1", "8080"]);
    assert!(macos::egress_profile().contains("(allow process-exec (literal \"/usr/bin/nc\"))"));
}

#[test]
fn bytes_move_only_through_the_handle_of_the_admitted_file() {
    let scope = Ok(Some("/s".to_string()));
    let facts = FileFacts { regular: true, dev: 1, ino: 2, len: 3 };
    let expected = FileIdentity { dev: 1, ino: 2 };
    let inspected = || Ok(InspectedTarget { canonical: "/s/f".to_string(), facts });
    let write = |found, opened, bytes: &Vec<u8>| {
        write_once_on_opened_file(&scope, "/s/f", found, opened, expected, bytes)
    };
    let few = b"abc".to_vec();
    assert_eq!(
        write(inspected(), Ok(facts), &few).expect("profile"),
        write_profile(&scope).expect("profile")
    );
    let replaced = FileFacts { ino: 9, ..facts };
    assert!(matches!(
        write(inspected(), Ok(replaced), &few),
        Err(WorkerError::TargetChanged { target }) if target == "/s/f"
    ));
    let both = Ok(InspectedTarget { canonical: "/s/f".to_string(), facts: replaced });
    assert!(matches!(write(both, Ok(replaced), &few), Err(WorkerError::TargetChanged { .. })));
    assert!(matches!(
        write(inspected(), Err("stale".to_string()), &few),
        Err(WorkerError::MetadataUnavailable { source }) if source == "stale"
    ));
    assert!(matches!(
        write(Err(WorkerError::OutsideScope { target: "/s/f".to_string() }), Ok(facts), &few),
        Err(WorkerError::OutsideScope { .. })
    ));
    let many = vec![0u8; WRITE_MAX_BYTES + 1];
    assert!(matches!(write(inspected(), Ok(facts), &many), Err(WorkerError::WriteTooLarge)));
}
