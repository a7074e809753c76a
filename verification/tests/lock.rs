use std::path::{Path, PathBuf};
use wwrpc::lock::{pid_alive_by_us, recorded_pid, SingleInstance};

#[test]
fn a_running_copy_blocks_a_second_one() {
    let path = PathBuf::from("/run/wwrpc/wwrpc.pid");
    let refused = SingleInstance::acquire(path, Some("4711\n"), Some("/usr/bin/wwrpc\0--quiet\0"));
    assert_eq!(
        refused.unwrap_err(),
        "another wwrpc instance is running (pid 4711)"
    );
}

#[test]
fn stale_files_do_not_block() {
    let path = PathBuf::from("/run/wwrpc/wwrpc.pid");
    // No file, text that is no pid, a dead process, another program.
    for (text, cmdline) in [
        (None, None),
        (Some("not-a-pid"), Some("/usr/bin/wwrpc")),
        (Some("2147483647"), None),
        (Some("4711"), Some("/usr/bin/vim\0/home/x/wwrpc/src\0")),
        (Some("4294967296"), Some("/usr/bin/wwrpc")),
    ] {
        let claim = SingleInstance::acquire(path.clone(), text, cmdline).unwrap();
        assert_eq!(claim.path(), &path);
    }
}

#[test]
fn the_program_is_known_by_its_file_name() {
    let lines = [
        "wwrpc", "./wwrpc", "/a/b/wwrpc-git", "/a/wwrpc/", "/a/wwrpc/.", "/a/wwrpc/..", "..", ".",
        "/", "", "/wwrpc/vim", "wwrpc/x", "/x/./wwrpc/./", "a\u{301}wwrpc",
    ];
    for argv0 in lines {
        let expected = Path::new(argv0)
            .file_name()
            .map(|name| name.to_string_lossy().contains("wwrpc"))
            .unwrap_or(false);
        assert_eq!(pid_alive_by_us(Some(argv0)), expected, "{argv0}");
        let line = format!("{argv0}\0wwrpc\0");
        assert_eq!(pid_alive_by_us(Some(&line)), expected, "{argv0}");
    }
    assert!(!pid_alive_by_us(None));
    assert_eq!(recorded_pid(Some(" 12 \n")), Some(12));
    assert_eq!(recorded_pid(Some("x")), None);
    assert_eq!(recorded_pid(None), None);
}
