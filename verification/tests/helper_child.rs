use rivect::executor::{
    drain_retaining_cap, helper_launch_init_failed, require_helper_file, ObservedChild,
    WorkerError, STDERR_RETAIN_BYTES,
};
use std::io::Read;

#[test]
fn a_missing_helper_path_is_sandbox_unavailable() {
    let path = "/no/such/rivect-sandbox-helper";
    let result = require_helper_file(path, std::path::Path::new(path).is_file());
    assert!(
        matches!(result, Err(WorkerError::SandboxUnavailable { .. })),
        "missing helper must surface SandboxUnavailable, got {result:?}"
    );
}

#[test]
fn setpriv_exec_denied_is_not_helper_init_failure() {
    let observed = ObservedChild {
        code: Some(126),
        stdout: Vec::new(),
        stderr:
            b"setpriv: failed to execute /tmp/rivect-denied-exec/denied-exec: Permission denied"
                .to_vec(),
    };
    assert!(
        helper_launch_init_failed(&observed).is_none(),
        "Landlock-denied setpriv 126 must stay a confined-run outcome"
    );
}

#[test]
fn helper_prefixed_launch_exec_is_init_failure() {
    let observed = ObservedChild {
        code: Some(126),
        stdout: Vec::new(),
        stderr: b"rivect-sandbox-helper: exec failed: No such file or directory".to_vec(),
    };
    assert!(
        matches!(
            helper_launch_init_failed(&observed),
            Some(WorkerError::SandboxSpawnFailed { .. })
        ),
        "helper-prefixed 126 is launcher init failure"
    );
}

#[test]
fn helper_prefix_must_be_a_full_line() {
    let observed = ObservedChild {
        code: Some(10),
        stdout: Vec::new(),
        stderr: b"confined-program said rivect-sandbox-helper: spoof\n".to_vec(),
    };
    assert!(
        helper_launch_init_failed(&observed).is_none(),
        "a substring that is not a full-line prefix must not spoof helper init"
    );
}

fn drain(stream: &mut impl Read) -> std::io::Result<Vec<u8>> {
    let mut retained = Vec::new();
    let mut scratch = [0u8; 8192];
    loop {
        let read = stream.read(&mut scratch)?;
        if read == 0 {
            return Ok(retained);
        }
        drain_retaining_cap(&mut retained, &scratch[..read].to_vec(), STDERR_RETAIN_BYTES);
    }
}

#[test]
fn linux_drain_retains_only_the_cap_and_drains_to_eof() {
    let oversized = STDERR_RETAIN_BYTES + 4096;
    let mut stream = std::io::Cursor::new(vec![b'e'; oversized]);
    let retained = drain(&mut stream).expect("drain oversized stderr");
    assert_eq!(
        retained.len(),
        STDERR_RETAIN_BYTES,
        "a spamming child retains exactly the cap"
    );
    assert!(retained.iter().all(|&byte| byte == b'e'));
    let mut tail = Vec::new();
    stream.read_to_end(&mut tail).expect("stream already at eof");
    assert!(tail.is_empty());

    let mut small = std::io::Cursor::new(b"operation not permitted".to_vec());
    let retained = drain(&mut small).expect("drain bounded stderr");
    assert_eq!(retained, b"operation not permitted");
}

#[test]
fn macos_drain_retains_only_the_cap_and_drains_to_eof() {
    let oversized = STDERR_RETAIN_BYTES + 4096;
    let mut stream = std::io::Cursor::new(vec![b'e'; oversized]);
    let retained = drain(&mut stream).expect("drain oversized stderr");
    assert_eq!(
        retained.len(),
        STDERR_RETAIN_BYTES,
        "a spamming child retains exactly the cap"
    );
    assert!(retained.iter().all(|&byte| byte == b'e'));
    let mut tail = Vec::new();
    stream.read_to_end(&mut tail).expect("stream already at eof");
    assert!(tail.is_empty());

    let mut small = std::io::Cursor::new(b"operation not permitted".to_vec());
    let retained = drain(&mut small).expect("drain bounded stderr");
    assert_eq!(retained, b"operation not permitted");
}
