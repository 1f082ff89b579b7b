use rivect::executor::linux::{
    landlock_rules, native_net_syscalls, net_deny_filter, sys_clone, system_execute_rules,
    Confinement, CLONE_NEWIPC, CLONE_NEWNS, CLONE_NEWPID, CLONE_NEWUSER,
    CLONE_NEW_NAMESPACE_FLAGS, SYS_CLONE3,
};

fn filter_is_sound(arch_name: &str) -> Result<(), Box<dyn std::error::Error>> {
    let (arch, denied) =
        native_net_syscalls(arch_name).ok_or("no syscall table on this architecture")?;
    let filter = net_deny_filter(arch_name).map_err(|e| e.message())?;
    assert_eq!(filter.len(), (4 + 2 * denied.len() + 6) * 8);
    let insn = |index: usize| {
        let base = index * 8;
        let code = u16::from_le_bytes([
            *filter.get(base).ok_or("missing code byte")?,
            *filter.get(base + 1).ok_or("missing code byte")?,
        ]);
        let jt = *filter.get(base + 2).ok_or("missing jt byte")?;
        let jf = *filter.get(base + 3).ok_or("missing jf byte")?;
        let k = u32::from_le_bytes([
            *filter.get(base + 4).ok_or("missing k byte")?,
            *filter.get(base + 5).ok_or("missing k byte")?,
            *filter.get(base + 6).ok_or("missing k byte")?,
            *filter.get(base + 7).ok_or("missing k byte")?,
        ]);
        Ok::<(u16, u8, u8, u32), Box<dyn std::error::Error>>((code, jt, jf, k))
    };
    assert_eq!(
        insn(0)?,
        (0x20, 0, 0, 4),
        "the first load reads the arch word"
    );
    assert_eq!(
        insn(1)?,
        (0x15, 0, 3, arch),
        "the guard pins the native arch: jt falls through, jf fails closed"
    );
    assert_eq!(
        insn(5)?,
        (0x06, 0, 0, 0x0005_0001),
        "the guard's miss jump lands on a deny verdict, not the allow tail"
    );
    assert_eq!(
        insn(2)?,
        (0x20, 0, 0, 0),
        "the second load reads the nr word"
    );
    assert_eq!(
        insn(3)?,
        (0x54, 0, 0, 0xBFFF_FFFF),
        "the compat band bit is masked before every deny comparison"
    );
    for (position, &nr) in denied.iter().enumerate() {
        assert_eq!(insn(4 + position * 2)?, (0x15, 0, 1, nr));
        let ret = if nr == SYS_CLONE3 {
            0x0005_0026
        } else {
            0x0005_0001
        };
        assert_eq!(
            insn(5 + position * 2)?,
            (0x06, 0, 0, ret),
            "clone3 returns ERRNO|ENOSYS; every other denied nr returns ERRNO|EPERM"
        );
    }
    let clone_check = 4 + denied.len() * 2;
    let clone = sys_clone(arch_name).ok_or("no clone syscall on this architecture")?;
    assert_eq!(
        insn(clone_check)?,
        (0x15, 0, 4, clone),
        "clone is judged by args[0] rather than denied by number"
    );
    assert_eq!(
        insn(clone_check + 1)?,
        (0x20, 0, 0, 16),
        "clone flag check loads seccomp_data.args[0]"
    );
    assert_eq!(
        insn(clone_check + 2)?,
        (0x54, 0, 0, CLONE_NEW_NAMESPACE_FLAGS),
        "clone flags are AND-masked to the NEW* namespace bits"
    );
    assert_eq!(
        insn(clone_check + 3)?,
        (0x15, 1, 0, 0),
        "no NEW* bits jump over EPERM to the allow tail"
    );
    assert_eq!(
        insn(clone_check + 4)?,
        (0x06, 0, 0, 0x0005_0001),
        "any NEW* bit returns ERRNO|EPERM"
    );
    assert_eq!(
        insn(clone_check + 5)?,
        (0x06, 0, 0, 0x7FFF_0000),
        "the tail allows every other syscall"
    );

    let verdict = |arch_word: u32, nr: u32, arg0: u32| -> u32 {
        let mut acc = 0u32;
        let mut index = 0usize;
        loop {
            let (code, jt, jf, k) = insn(index).expect("decoded instruction");
            match code {
                0x20 => {
                    acc = match k {
                        4 => arch_word,
                        0 => nr,
                        16 => arg0,
                        _ => 0,
                    };
                    index += 1;
                }
                0x15 => index += 1 + usize::from(if acc == k { jt } else { jf }),
                0x54 => {
                    acc &= k;
                    index += 1;
                }
                0x06 => return k,
                _ => return 0x0005_0001,
            }
        }
    };
    assert_eq!(
        verdict(arch, denied[0], 0),
        0x0005_0001,
        "a denied nr returns ERRNO|EPERM"
    );
    assert_eq!(
        verdict(arch, SYS_CLONE3, 0),
        0x0005_0026,
        "clone3 returns ERRNO|ENOSYS so glibc fork falls back to clone"
    );
    assert_eq!(
        verdict(arch, clone, 17),
        0x7FFF_0000,
        "clone(SIGCHLD) stays allowed so glibc fork works"
    );
    assert_eq!(
        verdict(arch, clone, CLONE_NEWPID | 17),
        0x0005_0001,
        "clone(CLONE_NEWPID) is EPERM so a grandchild cannot leave the group"
    );
    assert_eq!(
        verdict(arch, clone, CLONE_NEWIPC | 17),
        0x0005_0001,
        "clone(CLONE_NEWIPC) is EPERM so the filter matches its own NEW* mask"
    );
    assert_eq!(
        verdict(arch, clone, CLONE_NEWUSER | CLONE_NEWNS),
        0x0005_0001,
        "clone(CLONE_NEWUSER|CLONE_NEWNS) is EPERM"
    );
    assert_eq!(
        verdict(arch, denied[0] | 0x4000_0000, 0),
        0x0005_0001,
        "a compat-band nr is masked into the deny list"
    );
    let bystander = (0u32..)
        .find(|candidate| !denied.contains(candidate) && *candidate != clone)
        .expect("a bystander nr exists");
    assert_eq!(
        verdict(arch, bystander, 0),
        0x7FFF_0000,
        "every other nr is allowed"
    );
    assert_eq!(
        verdict(arch ^ 1, denied[0], 0),
        0x0005_0001,
        "a foreign architecture fails closed"
    );
    Ok(())
}

#[test]
fn net_deny_filter_masks_the_compat_band_and_fails_closed()
-> Result<(), Box<dyn std::error::Error>> {
    filter_is_sound("x86_64")?;
    filter_is_sound("aarch64")
}

#[test]
fn an_architecture_without_a_table_has_no_filter() {
    assert!(native_net_syscalls("riscv64").is_none());
    assert!(net_deny_filter("riscv64").is_err());
}

#[test]
fn confinement_rules_grant_exactly_the_admitted_operation() {
    let loaders = vec!["/lib64".to_string(), "/usr/lib".to_string()];
    let read = landlock_rules(&Confinement::Read { scope: "/scope".to_string() }, &loaders);
    assert_eq!(
        read.last().map(String::as_str),
        Some("path-beneath:read-file:/scope")
    );
    let write = landlock_rules(&Confinement::Write { scope: "/scope".to_string() }, &loaders);
    assert_eq!(
        write.last().map(String::as_str),
        Some("path-beneath:write-file,make-reg,truncate:/scope")
    );
    let exec = landlock_rules(&Confinement::Exec { scope: "/scope".to_string() }, &loaders);
    assert_eq!(
        exec.last().map(String::as_str),
        Some("path-beneath:execute,read-file:/scope")
    );
    let system = system_execute_rules();
    assert!(!exec
        .iter()
        .any(|rule| { system.contains(rule) || rule.contains("execute:/usr/bin") }));
    assert!(landlock_rules(&Confinement::Egress, &loaders).is_empty());
}
