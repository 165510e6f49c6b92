use monkeyos::initproc::{
    all_finished, clear, command, command_iperf, command_next, get_dyn_path, get_glibc_path,
    get_libc_path, initproc, kill_all_tasks, parse_command, run_glibc_tests, run_musl_tests,
    set_dyn_path, set_glibc_path, set_libc_path, CommandAction, Excluded, InitStep, LibPaths,
};
use monkeyos::signal::Arch;
use monkeyos::task::TaskType;

fn cmd(step: &InitStep) -> Option<(&str, &str)> {
    match step {
        InitStep::Command { cmd, dir } => Some((cmd.as_str(), dir)),
        _ => None,
    }
}

#[test]
fn library_paths() {
    let mut paths = LibPaths::new();
    assert_eq!(get_libc_path(&paths), "");
    set_libc_path(&mut paths, "/a".to_string());
    set_glibc_path(&mut paths, "/b".to_string());
    set_dyn_path(&mut paths, "/c".to_string());
    assert_eq!(get_libc_path(&paths), "/a");
    assert_eq!(get_glibc_path(&paths), "/b");
    assert_eq!(get_dyn_path(&paths), "/c");
}

#[test]
fn words_of_a_command_line() {
    assert_eq!(parse_command("a  bc d "), vec!["a", "bc", "d"]);
    assert!(parse_command("").is_empty());
    assert!(parse_command("   ").is_empty());
    assert_eq!(parse_command("x label=\"File a b:\" y"), vec!["x", "label=File a b:", "y"]);
    assert_eq!(parse_command("'a b' c"), vec!["a b", "c"]);
    assert_eq!(parse_command("a\\ b \\\"c"), vec!["a b", "\"c"]);
    assert_eq!(parse_command("'' a"), vec!["a"]);
    assert_eq!(parse_command("\"a' b"), vec!["a", "b"]);
}

#[test]
fn commands_are_run_step_by_step() {
    let plan = command("prog x y", "/musl");
    assert!(plan.env.is_empty());
    assert_eq!(plan.dir, "/musl");
    assert_eq!(plan.args, vec!["prog", "x", "y"]);
    assert_eq!(plan.action, CommandAction::Open);
    assert_eq!(command(" ", "/").action, CommandAction::PrintEmpty);
    assert_eq!(command_next(CommandAction::PrintEmpty, true), CommandAction::Done);
    assert_eq!(command_next(CommandAction::Open, false), CommandAction::PrintUnknown);
    assert_eq!(command_next(CommandAction::Open, true), CommandAction::Exec);
    assert_eq!(command_next(CommandAction::Exec, false), CommandAction::PrintExecFailed);
    assert_eq!(command_next(CommandAction::Exec, true), CommandAction::Wait);
    assert_eq!(command_next(CommandAction::Wait, false), CommandAction::Wait);
    assert_eq!(command_next(CommandAction::Wait, true), CommandAction::Release);
    assert_eq!(command_next(CommandAction::Release, true), CommandAction::Settle);
    assert_eq!(command_next(CommandAction::Settle, true), CommandAction::Fence);
    assert_eq!(command_next(CommandAction::Fence, true), CommandAction::Done);
}

#[test]
fn screen_is_cleared() {
    assert_eq!(&clear(), b"\x1b[H\x1b[2J");
}

#[test]
fn user_threads_are_killed() {
    let tasks = [Some(TaskType::MonolithicTask), None, Some(TaskType::BlankKernel)];
    let (killed, code) = kill_all_tasks(&tasks);
    assert_eq!(killed, vec![true, false, false]);
    assert_eq!(code, 100);
    assert!(!all_finished(&tasks));
    assert!(all_finished(&tasks[1..]));
}

#[test]
fn network_tests_run_alone() {
    let steps = command_iperf("x", "/d");
    assert_eq!(steps.len(), 7);
    assert!(matches!(steps[0], InitStep::KillAll));
    assert!(matches!(steps[2], InitStep::Spin(100000)));
    assert_eq!(cmd(&steps[3]), Some(("x", "/d")));
    assert!(matches!(steps[6], InitStep::Spin(200000)));
}

#[test]
fn library_tests_and_exclusions() {
    let all = run_musl_tests("/musl", &Vec::new());
    assert_eq!(all.len(), 217);
    assert_eq!(cmd(&all[0]), Some(("/musl/runtest.exe -w entry-static.exe argv", "/musl")));
    let exclude = vec![
        Excluded {
            runtest: "/musl/runtest.exe",
            entry: "entry-static.exe",
            name: "argv",
            dir: "/musl",
        },
        Excluded {
            runtest: "/musl/runtest.exe",
            entry: "entry-static.exe",
            name: "basename",
            dir: "/elsewhere",
        },
    ];
    let some = run_musl_tests("/musl", &exclude);
    assert_eq!(some.len(), 216);
    assert_eq!(cmd(&some[0]), Some(("/musl/runtest.exe -w entry-static.exe basename", "/musl")));
    let glibc = run_glibc_tests("/glibc", &exclude);
    assert_eq!(glibc.len(), 217);
    let last = cmd(&glibc[216]).unwrap();
    assert!(last.0.starts_with("/glibc/runtest.exe -w entry-dynamic.exe "));
}

#[test]
fn script_for_most_machines() {
    let steps = initproc(Arch::Other);
    assert!(matches!(steps[0], InitStep::SetLibc("/musl/lib/libc.so")));
    assert!(matches!(steps[1], InitStep::SetDyn("/musl/lib/libc.so")));
    assert_eq!(cmd(&steps[2]), Some(("/musl/busybox mkdir -p /bin", "/musl/basic")));
    let n = steps.len();
    assert_eq!(n, 2 + 26 + 48 + 2 + 8 + 5 + 7 + 35 + 3);
    assert!(matches!(steps[n - 3], InitStep::Print("!TEST FINISH!")));
    assert!(matches!(steps[n - 2], InitStep::Shutdown));
    assert!(matches!(steps[n - 1], InitStep::ShutdownIfIdle));
    assert_eq!(cmd(&steps[n - 4]), Some(("/glibc/busybox sh lua_testcode.sh", "/glibc")));
}

#[test]
fn script_for_loongarch() {
    let steps = initproc(Arch::LoongArch64);
    assert!(matches!(steps[2], InitStep::Print("start kernel tasks")));
    let tests = steps
        .iter()
        .filter(|s| cmd(s).map_or(false, |c| c.0.starts_with("/musl/runtest.exe")))
        .count();
    let all = run_musl_tests("/musl", &Vec::new());
    assert!(tests < all.len());
    assert!(!steps.iter().any(|s| cmd(s).map_or(false, |c| c.0.ends_with(" pthread_cond"))));
    assert!(steps.iter().any(|s| cmd(s).map_or(false, |c| c.0.ends_with(" argv"))));
}

#[test]
fn program_gets_words_and_directory() {
    let line = "/musl/lmbench_all lmdd label=\"File /var/tmp/XXX write bandwidth:\" print=3";
    let plan = command(line, "/musl");
    let label = "label=File /var/tmp/XXX write bandwidth:";
    assert_eq!(plan.args, vec!["/musl/lmbench_all", "lmdd", label, "print=3"]);
    assert!(plan.env.is_empty());
    assert_eq!(plan.dir, "/musl");
    assert_eq!(command_next(plan.action, true), CommandAction::Exec);
}
