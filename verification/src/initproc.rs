//! The first process: what it runs, and how it takes a command line apart.
use vstd::prelude::*;
use vstd::string::StringExecFns;

use crate::scripts::{
    DYNAMIC_TESTS, GLIBC_BASIC, GLIBC_LINKS, GLIBC_MAIN, LOONG_EXCLUDED, LOONG_GLIBC_BASIC,
    LOONG_GLIBC_MAIN, LOONG_MUSL_BASIC, LOONG_MUSL_END, LOONG_MUSL_LTP, LOONG_MUSL_MAIN,
    MUSL_BASIC, MUSL_MAIN, STATIC_TESTS,
};
use crate::signal::Arch;
use crate::task::TaskType;

verus! {

/// Where programs find their C library and their dynamic linker.
pub struct LibPaths {
    pub libc: String,
    pub glibc: String,
    pub dynamic: String,
}

impl LibPaths {
    /// No paths are known.
    pub fn new() -> (r: LibPaths)
        ensures
            r.libc@.len() == 0,
            r.glibc@.len() == 0,
            r.dynamic@.len() == 0,
    {
        LibPaths { libc: String::new(), glibc: String::new(), dynamic: String::new() }
    }
}

/// Sets the path of the C library.
pub fn set_libc_path(paths: &mut LibPaths, path: String)
    ensures
        *final(paths) == (LibPaths { libc: path, ..*old(paths) }),
{
    paths.libc = path;
}

/// The path of the C library.
pub fn get_libc_path(paths: &LibPaths) -> (r: String)
    ensures
        r@ == paths.libc@,
{
    paths.libc.clone()
}

/// Sets the path of the GNU C library.
pub fn set_glibc_path(paths: &mut LibPaths, path: String)
    ensures
        *final(paths) == (LibPaths { glibc: path, ..*old(paths) }),
{
    paths.glibc = path;
}

/// The path of the GNU C library.
pub fn get_glibc_path(paths: &LibPaths) -> (r: String)
    ensures
        r@ == paths.glibc@,
{
    paths.glibc.clone()
}

/// Sets the path of the dynamic linker.
pub fn set_dyn_path(paths: &mut LibPaths, path: String)
    ensures
        *final(paths) == (LibPaths { dynamic: path, ..*old(paths) }),
{
    paths.dynamic = path;
}

/// The path of the dynamic linker.
pub fn get_dyn_path(paths: &LibPaths) -> (r: String)
    ensures
        r@ == paths.dynamic@,
{
    paths.dynamic.clone()
}

/// What is printed to clear the screen.
pub fn clear() -> (r: [u8; 7])
    ensures
        r@ == seq![0x1bu8, 0x5bu8, 0x48u8, 0x1bu8, 0x5bu8, 0x32u8, 0x4au8],
{
    let bytes: [u8; 7] = [0x1b, 0x5b, 0x48, 0x1b, 0x5b, 0x32, 0x4a];
    assert(bytes@ =~= seq![0x1bu8, 0x5bu8, 0x48u8, 0x1bu8, 0x5bu8, 0x32u8, 0x4au8]);
    bytes
}

/// The exit code of a task that was killed to clean up.
pub const KILL_ALL_CODE: usize = 100;

/// The entry stands for a user thread that is still there.
pub open spec fn is_killed(task: Option<TaskType>) -> bool {
    task == Some(TaskType::MonolithicTask)
}

/// Which tasks are to be ended to clean up, and with which exit code: all user threads that are
/// still there. A task that is gone has no type.
pub fn kill_all_tasks(tasks: &[Option<TaskType>]) -> (r: (Vec<bool>, usize))
    ensures
        r.0@.len() == tasks@.len(),
        forall|i: int| 0 <= i < tasks@.len() ==> #[trigger] r.0@[i] == is_killed(tasks@[i]),
        r.1 == KILL_ALL_CODE,
{
    let mut out: Vec<bool> = Vec::new();
    let mut i: usize = 0;
    while i < tasks.len()
        invariant
            i <= tasks@.len(),
            out@.len() == i,
            forall|j: int| 0 <= j < i ==> #[trigger] out@[j] == is_killed(tasks@[j]),
        decreases tasks@.len() - i,
    {
        let killed: bool = match tasks[i] {
            Some(TaskType::MonolithicTask) => true,
            _ => false,
        };
        out.push(killed);
        i = i + 1;
    }
    (out, KILL_ALL_CODE)
}

/// Whether nothing is left but what keeps the kernel going.
pub fn all_finished(tasks: &[Option<TaskType>]) -> (r: bool)
    ensures
        r == forall|i: int|
            0 <= i < tasks@.len() ==> {
                ||| (#[trigger] tasks@[i]) is None
                ||| tasks@[i] == Some(TaskType::BlankKernel)
            },
{
    let mut i: usize = 0;
    while i < tasks.len()
        invariant
            i <= tasks@.len(),
            forall|j: int|
                0 <= j < i ==> {
                    ||| (#[trigger] tasks@[j]) is None
                    ||| tasks@[j] == Some(TaskType::BlankKernel)
                },
        decreases tasks@.len() - i,
    {
        match tasks[i] {
            Some(TaskType::BlankKernel) => {},
            None => {},
            Some(_) => {
                return false;
            },
        }
        i = i + 1;
    }
    true
}

/// `String::push` appends one character.
pub assume_specification[ String::push ](s: &mut String, c: char)
    ensures
        final(s)@ == old(s)@.push(c),
;

/// How far a command line has been taken apart.
pub struct Scan {
    pub args: Seq<Seq<char>>,
    pub current: Seq<char>,
    pub in_quotes: bool,
    pub escaped: bool,
}

/// The words so far, with the one that was being read if it is not empty.
pub open spec fn closed_words(args: Seq<Seq<char>>, current: Seq<char>) -> Seq<Seq<char>> {
    if current.len() == 0 {
        args
    } else {
        args.push(current)
    }
}

/// One more character. A backslash takes the next character as it is. Quotes of either kind begin
/// and end text in which a space does not end a word. Any other space ends a word, and words are
/// never empty.
pub open spec fn scan_char(scan: Scan, c: char) -> Scan {
    if scan.escaped {
        Scan { current: scan.current.push(c), escaped: false, ..scan }
    } else if c == '\\' {
        Scan { escaped: true, ..scan }
    } else if c == '\'' || c == '"' {
        Scan { in_quotes: !scan.in_quotes, ..scan }
    } else if c == ' ' && !scan.in_quotes {
        Scan { args: closed_words(scan.args, scan.current), current: Seq::empty(), ..scan }
    } else {
        Scan { current: scan.current.push(c), ..scan }
    }
}

/// A command line, character by character.
pub open spec fn scan_line(line: Seq<char>) -> Scan
    decreases line.len(),
{
    if line.len() == 0 {
        Scan { args: Seq::empty(), current: Seq::empty(), in_quotes: false, escaped: false }
    } else {
        scan_char(scan_line(line.drop_last()), line.last())
    }
}

/// The words of a command line.
pub open spec fn words(line: Seq<char>) -> Seq<Seq<char>> {
    closed_words(scan_line(line).args, scan_line(line).current)
}

/// The texts of a list of strings.
pub open spec fn texts(strings: Seq<String>) -> Seq<Seq<char>> {
    strings.map_values(|s: String| s@)
}

/// Takes a command line apart into words.
pub fn parse_command(cmd: &str) -> (r: Vec<String>)
    ensures
        texts(r@) == words(cmd@),
{
    let mut args: Vec<String> = Vec::new();
    let mut current: String = String::new();
    let mut in_quotes: bool = false;
    let mut escape_next: bool = false;
    assert(texts(args@) =~= Seq::empty());
    assert(cmd@.take(0) =~= Seq::empty());
    for ch in chars: cmd.chars()
        invariant
            chars.seq() == cmd@,
            cmd@.take(cmd@.len() as int) == cmd@,
            scan_line(cmd@.take(chars.index() as int)) == (Scan {
                args: texts(args@),
                current: current@,
                in_quotes,
                escaped: escape_next,
            }),
        ensures
            scan_line(cmd@) == (Scan {
                args: texts(args@),
                current: current@,
                in_quotes,
                escaped: escape_next,
            }),
    {
        proof {
            let line = cmd@.take(chars.index() + 1);
            assert(line.drop_last() =~= cmd@.take(chars.index() as int));
            assert(line.last() == ch);
        }
        if escape_next {
            current.push(ch);
            escape_next = false;
        } else if ch == '\\' {
            escape_next = true;
        } else if ch == '\'' || ch == '"' {
            in_quotes = !in_quotes;
        } else if ch == ' ' && !in_quotes {
            let ghost before = args@;
            if !current.as_str().is_empty() {
                args.push(current);
                current = String::new();
                assert(texts(args@) =~= texts(before).push(args@.last()@));
            }
            assert(current@ =~= Seq::empty());
        } else {
            current.push(ch);
        }
    }
    let ghost before = args@;
    if !current.as_str().is_empty() {
        args.push(current);
        assert(texts(args@) =~= texts(before).push(args@.last()@));
    }
    args
}

/// What is to be done next about a command.
#[derive(Clone, Copy, Debug, PartialEq, Eq, Structural)]
pub enum CommandAction {
    /// Say that there is no command.
    PrintEmpty,
    /// Try to open the program that the first word names.
    Open,
    /// Say that there is no such program.
    PrintUnknown,
    /// Load the program with its arguments, its environment and its directory.
    Exec,
    /// Say that the program cannot be loaded.
    PrintExecFailed,
    /// Let others run, and look whether the program has ended.
    Wait,
    /// Forget the program.
    Release,
    /// Let others run for a while.
    Settle,
    /// Order all memory accesses.
    Fence,
    /// Nothing.
    Done,
}

/// How often others may run after a program has ended.
pub const SETTLE_YIELDS: usize = 100000;

/// A command line that was taken apart, and what is to be done first. The first word names the
/// program, and all words are its arguments.
pub struct CommandPlan {
    pub args: Vec<String>,
    /// The environment of the program.
    pub env: Vec<String>,
    /// The directory that the program works in.
    pub dir: String,
    pub action: CommandAction,
}

/// Begins to run a command line: with an empty environment, and in the directory.
pub fn command(cmd: &str, work_dir: &str) -> (r: CommandPlan)
    ensures
        texts(r.args@) == words(cmd@),
        r.env@.len() == 0,
        r.dir@ == work_dir@,
        r.action == (if words(cmd@).len() == 0 {
            CommandAction::PrintEmpty
        } else {
            CommandAction::Open
        }),
{
    let args: Vec<String> = parse_command(cmd);
    assert(texts(args@).len() == args@.len());
    let action: CommandAction = if args.len() == 0 {
        CommandAction::PrintEmpty
    } else {
        CommandAction::Open
    };
    CommandPlan { args, env: Vec::new(), dir: work_dir.to_owned(), action }
}

/// What follows an action: `ok` tells whether opening or loading worked, or whether the program has
/// ended.
pub open spec fn after_action(action: CommandAction, ok: bool) -> CommandAction {
    match action {
        CommandAction::Open => if ok {
            CommandAction::Exec
        } else {
            CommandAction::PrintUnknown
        },
        CommandAction::Exec => if ok {
            CommandAction::Wait
        } else {
            CommandAction::PrintExecFailed
        },
        CommandAction::Wait => if ok {
            CommandAction::Release
        } else {
            CommandAction::Wait
        },
        CommandAction::Release => CommandAction::Settle,
        CommandAction::Settle => CommandAction::Fence,
        _ => CommandAction::Done,
    }
}

/// Goes on with a command after an action.
pub fn command_next(action: CommandAction, ok: bool) -> (r: CommandAction)
    ensures
        r == after_action(action, ok),
{
    match action {
        CommandAction::Open => {
            if ok {
                CommandAction::Exec
            } else {
                CommandAction::PrintUnknown
            }
        },
        CommandAction::Exec => {
            if ok {
                CommandAction::Wait
            } else {
                CommandAction::PrintExecFailed
            }
        },
        CommandAction::Wait => {
            if ok {
                CommandAction::Release
            } else {
                CommandAction::Wait
            }
        },
        CommandAction::Release => CommandAction::Settle,
        CommandAction::Settle => CommandAction::Fence,
        _ => CommandAction::Done,
    }
}

/// A step of the first process.
pub enum InitStep {
    /// Set the path of the C library.
    SetLibc(&'static str),
    /// Set the path of the dynamic linker.
    SetDyn(&'static str),
    /// Print a line.
    Print(&'static str),
    /// Run a command line in a directory.
    Command { cmd: String, dir: &'static str },
    /// End all user threads.
    KillAll,
    /// Order all memory accesses.
    Fence,
    /// Spin so many times.
    Spin(usize),
    /// Switch the machine off.
    Shutdown,
    /// Switch the machine off if nothing is left to run.
    ShutdownIfIdle,
}

/// A step, mathematically.
pub enum StepView {
    SetLibc(Seq<char>),
    SetDyn(Seq<char>),
    Print(Seq<char>),
    Command { cmd: Seq<char>, dir: Seq<char> },
    KillAll,
    Fence,
    Spin(usize),
    Shutdown,
    ShutdownIfIdle,
}

impl View for InitStep {
    type V = StepView;

    open spec fn view(&self) -> StepView {
        match *self {
            InitStep::SetLibc(path) => StepView::SetLibc(path@),
            InitStep::SetDyn(path) => StepView::SetDyn(path@),
            InitStep::Print(line) => StepView::Print(line@),
            InitStep::Command { cmd, dir } => StepView::Command { cmd: cmd@, dir: dir@ },
            InitStep::KillAll => StepView::KillAll,
            InitStep::Fence => StepView::Fence,
            InitStep::Spin(n) => StepView::Spin(n),
            InitStep::Shutdown => StepView::Shutdown,
            InitStep::ShutdownIfIdle => StepView::ShutdownIfIdle,
        }
    }
}

/// A list of steps, mathematically.
pub open spec fn steps_view(steps: Seq<InitStep>) -> Seq<StepView> {
    steps.map_values(|s: InitStep| s@)
}

/// The commands of a table, each run in the directory.
pub open spec fn commands(table: Seq<&'static str>, dir: Seq<char>) -> Seq<StepView> {
    table.map_values(|cmd: &'static str| StepView::Command { cmd: cmd@, dir })
}

fn add_step(out: &mut Vec<InitStep>, step: InitStep)
    ensures
        steps_view(final(out)@) == steps_view(old(out)@).push(step@),
{
    let ghost before = out@;
    out.push(step);
    assert(steps_view(out@) =~= steps_view(before).push(step@));
}

fn add_commands(out: &mut Vec<InitStep>, table: &[&'static str], dir: &'static str)
    ensures
        steps_view(final(out)@) == steps_view(old(out)@) + commands(table@, dir@),
{
    let ghost before = steps_view(out@);
    let mut i: usize = 0;
    assert(before + commands(table@, dir@).take(0) =~= before);
    while i < table.len()
        invariant
            i <= table@.len(),
            steps_view(out@) == before + commands(table@, dir@).take(i as int),
        decreases table@.len() - i,
    {
        add_step(out, InitStep::Command { cmd: table[i].to_owned(), dir });
        i = i + 1;
        assert(steps_view(out@) =~= before + commands(table@, dir@).take(i as int));
    }
    assert(commands(table@, dir@).take(i as int) =~= commands(table@, dir@));
}

fn add_steps(out: &mut Vec<InitStep>, more: Vec<InitStep>)
    ensures
        steps_view(final(out)@) == steps_view(old(out)@) + steps_view(more@),
{
    let ghost before = out@;
    let mut more = more;
    let ghost added = more@;
    out.append(&mut more);
    assert(steps_view(out@) =~= steps_view(before) + steps_view(added));
}

/// A network test runs alone: all user threads are ended before and after it, and each time the
/// machine is given a while to come to rest.
pub open spec fn isolated(cmd: Seq<char>, dir: Seq<char>) -> Seq<StepView> {
    seq![
        StepView::KillAll,
        StepView::Fence,
        StepView::Spin(100000),
        StepView::Command { cmd, dir },
        StepView::KillAll,
        StepView::Fence,
        StepView::Spin(200000),
    ]
}

/// The steps of a network test.
pub fn command_iperf(cmd: &'static str, dir: &'static str) -> (r: Vec<InitStep>)
    ensures
        steps_view(r@) == isolated(cmd@, dir@),
{
    let mut out: Vec<InitStep> = Vec::new();
    out.push(InitStep::KillAll);
    out.push(InitStep::Fence);
    out.push(InitStep::Spin(100000));
    out.push(InitStep::Command { cmd: cmd.to_owned(), dir });
    out.push(InitStep::KillAll);
    out.push(InitStep::Fence);
    out.push(InitStep::Spin(200000));
    assert(steps_view(out@) =~= isolated(cmd@, dir@));
    out
}

/// A test that is not to be run in a directory.
#[derive(Clone, Copy, Debug)]
pub struct Excluded {
    pub runtest: &'static str,
    pub entry: &'static str,
    pub name: &'static str,
    pub dir: &'static str,
}

/// The test is not to be run in the directory.
pub open spec fn is_excluded(
    exclude: Seq<Excluded>,
    runtest: Seq<char>,
    entry: Seq<char>,
    name: Seq<char>,
    dir: Seq<char>,
) -> bool {
    exists|i: int|
        {
            &&& 0 <= i < exclude.len()
            &&& (#[trigger] exclude[i]).runtest@ == runtest
            &&& exclude[i].entry@ == entry
            &&& exclude[i].name@ == name
            &&& exclude[i].dir@ == dir
        }
}

/// The command line of a test.
pub open spec fn test_line(runtest: Seq<char>, entry: Seq<char>, name: Seq<char>) -> Seq<char> {
    runtest + " -w "@ + entry + " "@ + name
}

/// The tests of a table that are not excluded, in their order.
pub open spec fn tests_run(
    table: Seq<&'static str>,
    runtest: Seq<char>,
    entry: Seq<char>,
    dir: Seq<char>,
    exclude: Seq<Excluded>,
) -> Seq<StepView>
    decreases table.len(),
{
    if table.len() == 0 {
        Seq::empty()
    } else {
        let before = tests_run(table.drop_last(), runtest, entry, dir, exclude);
        let name = table.last()@;
        if is_excluded(exclude, runtest, entry, name, dir) {
            before
        } else {
            before.push(StepView::Command { cmd: test_line(runtest, entry, name), dir })
        }
    }
}

fn same_text(a: &str, b: &str) -> (r: bool)
    ensures
        r == (a@ == b@),
{
    a.to_owned() == b.to_owned()
}

fn excluded(exclude: &Vec<Excluded>, runtest: &str, entry: &str, name: &str, dir: &str) -> (r: bool)
    ensures
        r == is_excluded(exclude@, runtest@, entry@, name@, dir@),
{
    let mut i: usize = 0;
    while i < exclude.len()
        invariant
            i <= exclude@.len(),
            forall|j: int|
                0 <= j < i ==> !((#[trigger] exclude@[j]).runtest@ == runtest@
                    && exclude@[j].entry@ == entry@ && exclude@[j].name@ == name@
                    && exclude@[j].dir@ == dir@),
        decreases exclude@.len() - i,
    {
        let e: &Excluded = &exclude[i];
        if same_text(e.runtest, runtest) && same_text(e.entry, entry) && same_text(e.name, name)
            && same_text(e.dir, dir) {
            return true;
        }
        i = i + 1;
    }
    false
}

fn add_tests(
    out: &mut Vec<InitStep>,
    table: &[&'static str],
    runtest: &'static str,
    entry: &'static str,
    dir: &'static str,
    exclude: &Vec<Excluded>,
)
    ensures
        steps_view(final(out)@) == steps_view(old(out)@) + tests_run(
            table@,
            runtest@,
            entry@,
            dir@,
            exclude@,
        ),
{
    let ghost before = steps_view(out@);
    let mut i: usize = 0;
    assert(table@.take(0) =~= Seq::empty());
    assert(before + tests_run(table@.take(0), runtest@, entry@, dir@, exclude@) =~= before);
    while i < table.len()
        invariant
            i <= table@.len(),
            steps_view(out@) == before + tests_run(
                table@.take(i as int),
                runtest@,
                entry@,
                dir@,
                exclude@,
            ),
        decreases table@.len() - i,
    {
        let name: &'static str = table[i];
        assert(table@.take(i + 1).drop_last() =~= table@.take(i as int));
        if !excluded(exclude, runtest, entry, name, dir) {
            let mut cmd: String = runtest.to_owned();
            cmd.append(" -w ");
            cmd.append(entry);
            cmd.append(" ");
            cmd.append(name);
            add_step(out, InitStep::Command { cmd, dir });
        }
        i = i + 1;
        assert(steps_view(out@) =~= before + tests_run(
            table@.take(i as int),
            runtest@,
            entry@,
            dir@,
            exclude@,
        ));
    }
    assert(table@.take(i as int) =~= table@);
}

/// All tests of a C library: those of the statically linked program and then those of the other.
pub open spec fn library_tests(
    runtest: Seq<char>,
    dir: Seq<char>,
    exclude: Seq<Excluded>,
) -> Seq<StepView> {
    tests_run(STATIC_TESTS@, runtest, "entry-static.exe"@, dir, exclude) + tests_run(
        DYNAMIC_TESTS@,
        runtest,
        "entry-dynamic.exe"@,
        dir,
        exclude,
    )
}

/// The steps that test the C library of the musl project.
pub fn run_musl_tests(home_dir: &'static str, exclude: &Vec<Excluded>) -> (r: Vec<InitStep>)
    ensures
        steps_view(r@) == library_tests("/musl/runtest.exe"@, home_dir@, exclude@),
{
    let mut out: Vec<InitStep> = Vec::new();
    assert(steps_view(out@) =~= Seq::empty());
    add_tests(
        &mut out,
        STATIC_TESTS.as_slice(),
        "/musl/runtest.exe",
        "entry-static.exe",
        home_dir,
        exclude,
    );
    add_tests(
        &mut out,
        DYNAMIC_TESTS.as_slice(),
        "/musl/runtest.exe",
        "entry-dynamic.exe",
        home_dir,
        exclude,
    );
    assert(steps_view(out@) =~= library_tests("/musl/runtest.exe"@, home_dir@, exclude@));
    out
}

/// The steps that test the C library of the GNU project.
pub fn run_glibc_tests(glibc_home_dir: &'static str, exclude: &Vec<Excluded>) -> (r: Vec<InitStep>)
    ensures
        steps_view(r@) == library_tests("/glibc/runtest.exe"@, glibc_home_dir@, exclude@),
{
    let mut out: Vec<InitStep> = Vec::new();
    assert(steps_view(out@) =~= Seq::empty());
    add_tests(
        &mut out,
        STATIC_TESTS.as_slice(),
        "/glibc/runtest.exe",
        "entry-static.exe",
        glibc_home_dir,
        exclude,
    );
    add_tests(
        &mut out,
        DYNAMIC_TESTS.as_slice(),
        "/glibc/runtest.exe",
        "entry-dynamic.exe",
        glibc_home_dir,
        exclude,
    );
    assert(steps_view(out@) =~= library_tests("/glibc/runtest.exe"@, glibc_home_dir@, exclude@));
    out
}

/// The entries that leave out the tests of a table, for one program.
pub open spec fn exclusions(table: Seq<&'static str>, entry: &'static str) -> Seq<Excluded> {
    table.map_values(
        |name: &'static str|
            Excluded { runtest: "/musl/runtest.exe", entry, name, dir: "/musl" },
    )
}

fn add_exclusions(out: &mut Vec<Excluded>, table: &[&'static str], entry: &'static str)
    ensures
        final(out)@ == old(out)@ + exclusions(table@, entry),
{
    let ghost before = out@;
    let mut i: usize = 0;
    assert(before + exclusions(table@, entry).take(0) =~= before);
    while i < table.len()
        invariant
            i <= table@.len(),
            out@ == before + exclusions(table@, entry).take(i as int),
        decreases table@.len() - i,
    {
        out.push(Excluded { runtest: "/musl/runtest.exe", entry, name: table[i], dir: "/musl" });
        i = i + 1;
        assert(out@ =~= before + exclusions(table@, entry).take(i as int));
    }
    assert(exclusions(table@, entry).take(i as int) =~= exclusions(table@, entry));
}

/// What is left out on LoongArch: some tests of both programs.
pub open spec fn loong_exclusions() -> Seq<Excluded> {
    exclusions(LOONG_EXCLUDED@, "entry-static.exe") + exclusions(
        LOONG_EXCLUDED@,
        "entry-dynamic.exe",
    )
}

/// What the first process does on LoongArch.
pub open spec fn loong_steps() -> Seq<StepView> {
    seq![
        StepView::SetLibc("/musl/lib/libc.so"@),
        StepView::SetDyn("/musl/lib/libc.so"@),
        StepView::Print("start kernel tasks"@),
    ] + commands(LOONG_MUSL_BASIC@, "/musl/basic"@) + commands(LOONG_MUSL_LTP@, "/musl"@)
        + isolated("/musl/busybox sh iperf_testcode.sh"@, "/musl"@) + commands(
        LOONG_MUSL_MAIN@,
        "/musl"@,
    ) + library_tests("/musl/runtest.exe"@, "/musl"@, loong_exclusions()) + commands(
        LOONG_MUSL_END@,
        "/musl"@,
    ) + seq![
        StepView::SetLibc("/glibc/lib"@),
        StepView::SetDyn("/glibc/lib/ld-linux-loongarch-lp64d.so.1"@),
    ] + commands(LOONG_GLIBC_BASIC@, "/glibc/basic"@) + commands(LOONG_GLIBC_MAIN@, "/glibc"@)
}

/// What the first process does on other machines.
pub open spec fn other_steps() -> Seq<StepView> {
    seq![
        StepView::SetLibc("/musl/lib/libc.so"@),
        StepView::SetDyn("/musl/lib/libc.so"@),
    ] + commands(MUSL_BASIC@, "/musl/basic"@) + commands(MUSL_MAIN@, "/musl"@) + seq![
        StepView::SetLibc("/glibc/lib"@),
        StepView::SetDyn("/glibc/lib/ld-linux-riscv64-lp64d.so.1"@),
    ] + commands(GLIBC_BASIC@, "/glibc/basic"@) + commands(GLIBC_LINKS@, "/glibc"@) + isolated(
        "/glibc/busybox sh iperf_testcode.sh"@,
        "/glibc"@,
    ) + commands(GLIBC_MAIN@, "/glibc"@)
}

/// What the first process does: the script for the machine, and then it switches the machine off.
pub open spec fn init_steps(arch: Arch) -> Seq<StepView> {
    (if arch == Arch::LoongArch64 {
        loong_steps()
    } else {
        other_steps()
    }) + seq![StepView::Print("!TEST FINISH!"@), StepView::Shutdown, StepView::ShutdownIfIdle]
}

fn loong_script() -> (r: Vec<InitStep>)
    ensures
        steps_view(r@) == loong_steps(),
{
    let mut out: Vec<InitStep> = Vec::new();
    out.push(InitStep::SetLibc("/musl/lib/libc.so"));
    out.push(InitStep::SetDyn("/musl/lib/libc.so"));
    out.push(InitStep::Print("start kernel tasks"));
    assert(steps_view(out@) =~= seq![
        StepView::SetLibc("/musl/lib/libc.so"@),
        StepView::SetDyn("/musl/lib/libc.so"@),
        StepView::Print("start kernel tasks"@),
    ]);
    add_commands(&mut out, LOONG_MUSL_BASIC.as_slice(), "/musl/basic");
    add_commands(&mut out, LOONG_MUSL_LTP.as_slice(), "/musl");
    add_steps(&mut out, command_iperf("/musl/busybox sh iperf_testcode.sh", "/musl"));
    add_commands(&mut out, LOONG_MUSL_MAIN.as_slice(), "/musl");
    let mut exclude: Vec<Excluded> = Vec::new();
    add_exclusions(&mut exclude, LOONG_EXCLUDED.as_slice(), "entry-static.exe");
    add_exclusions(&mut exclude, LOONG_EXCLUDED.as_slice(), "entry-dynamic.exe");
    assert(exclude@ =~= loong_exclusions());
    add_steps(&mut out, run_musl_tests("/musl", &exclude));
    add_commands(&mut out, LOONG_MUSL_END.as_slice(), "/musl");
    let ghost before = steps_view(out@);
    add_step(&mut out, InitStep::SetLibc("/glibc/lib"));
    add_step(&mut out, InitStep::SetDyn("/glibc/lib/ld-linux-loongarch-lp64d.so.1"));
    assert(steps_view(out@) =~= before + seq![
        StepView::SetLibc("/glibc/lib"@),
        StepView::SetDyn("/glibc/lib/ld-linux-loongarch-lp64d.so.1"@),
    ]);
    add_commands(&mut out, LOONG_GLIBC_BASIC.as_slice(), "/glibc/basic");
    add_commands(&mut out, LOONG_GLIBC_MAIN.as_slice(), "/glibc");
    out
}

fn other_script() -> (r: Vec<InitStep>)
    ensures
        steps_view(r@) == other_steps(),
{
    let mut out: Vec<InitStep> = Vec::new();
    out.push(InitStep::SetLibc("/musl/lib/libc.so"));
    out.push(InitStep::SetDyn("/musl/lib/libc.so"));
    assert(steps_view(out@) =~= seq![
        StepView::SetLibc("/musl/lib/libc.so"@),
        StepView::SetDyn("/musl/lib/libc.so"@),
    ]);
    add_commands(&mut out, MUSL_BASIC.as_slice(), "/musl/basic");
    add_commands(&mut out, MUSL_MAIN.as_slice(), "/musl");
    let ghost before = steps_view(out@);
    add_step(&mut out, InitStep::SetLibc("/glibc/lib"));
    add_step(&mut out, InitStep::SetDyn("/glibc/lib/ld-linux-riscv64-lp64d.so.1"));
    assert(steps_view(out@) =~= before + seq![
        StepView::SetLibc("/glibc/lib"@),
        StepView::SetDyn("/glibc/lib/ld-linux-riscv64-lp64d.so.1"@),
    ]);
    add_commands(&mut out, GLIBC_BASIC.as_slice(), "/glibc/basic");
    add_commands(&mut out, GLIBC_LINKS.as_slice(), "/glibc");
    add_steps(&mut out, command_iperf("/glibc/busybox sh iperf_testcode.sh", "/glibc"));
    add_commands(&mut out, GLIBC_MAIN.as_slice(), "/glibc");
    out
}

/// The steps of the first process on a machine.
pub fn initproc(arch: Arch) -> (r: Vec<InitStep>)
    ensures
        steps_view(r@) == init_steps(arch),
{
    let mut out: Vec<InitStep> = match arch {
        Arch::LoongArch64 => loong_script(),
        Arch::Other => other_script(),
    };
    let ghost before = steps_view(out@);
    add_step(&mut out, InitStep::Print("!TEST FINISH!"));
    add_step(&mut out, InitStep::Shutdown);
    add_step(&mut out, InitStep::ShutdownIfIdle);
    assert(steps_view(out@) =~= before + seq![
        StepView::Print("!TEST FINISH!"@),
        StepView::Shutdown,
        StepView::ShutdownIfIdle,
    ]);
    out
}

/// A word in which no character has a meaning of its own.
pub open spec fn is_plain(word: Seq<char>) -> bool {
    &&& word.len() > 0
    &&& forall|i: int|
        0 <= i < word.len() ==> {
            let c = #[trigger] word[i];
            c != ' ' && c != '\\' && c != '\'' && c != '"'
        }
}

/// Words with one space between each two.
pub open spec fn joined(list: Seq<Seq<char>>) -> Seq<char>
    decreases list.len(),
{
    if list.len() == 0 {
        Seq::empty()
    } else if list.len() == 1 {
        list[0]
    } else {
        joined(list.drop_last()) + seq![' '] + list.last()
    }
}

proof fn lemma_scan_append(line: Seq<char>, text: Seq<char>)
    requires
        !scan_line(line).escaped,
        forall|i: int|
            0 <= i < text.len() ==> {
                let c = #[trigger] text[i];
                c != '\\' && c != '\'' && c != '"' && (c != ' ' || scan_line(line).in_quotes)
            },
    ensures
        scan_line(line + text) == (Scan {
            current: scan_line(line).current + text,
            ..scan_line(line)
        }),
    decreases text.len(),
{
    if text.len() == 0 {
        assert(line + text =~= line);
        assert(scan_line(line).current + text =~= scan_line(line).current);
    } else {
        let shorter = text.drop_last();
        assert forall|i: int| 0 <= i < shorter.len() implies {
            let c = #[trigger] shorter[i];
            c != '\\' && c != '\'' && c != '"' && (c != ' ' || scan_line(line).in_quotes)
        } by {
            assert(text[i] == shorter[i]);
        }
        lemma_scan_append(line, shorter);
        assert((line + text).drop_last() =~= line + shorter);
        assert((line + text).last() == text[text.len() - 1]);
        assert(scan_line(line).current + text =~= (scan_line(line).current + shorter).push(
            text.last(),
        ));
    }
}

proof fn lemma_scan_joined(list: Seq<Seq<char>>)
    requires
        list.len() > 0,
        forall|i: int| 0 <= i < list.len() ==> is_plain(#[trigger] list[i]),
    ensures
        scan_line(joined(list)) == (Scan {
            args: list.drop_last(),
            current: list.last(),
            in_quotes: false,
            escaped: false,
        }),
    decreases list.len(),
{
    let last = list.last();
    assert(is_plain(list[list.len() - 1]));
    if list.len() == 1 {
        let empty = Seq::<char>::empty();
        lemma_scan_append(empty, last);
        assert(empty + last =~= last);
        assert(list.drop_last() =~= Seq::empty());
    } else {
        let rest = list.drop_last();
        assert forall|i: int| 0 <= i < rest.len() implies is_plain(#[trigger] rest[i]) by {
            assert(rest[i] == list[i]);
        }
        lemma_scan_joined(rest);
        assert(is_plain(rest[rest.len() - 1]));
        let line = joined(rest) + seq![' '];
        assert(line.drop_last() =~= joined(rest));
        assert(line.last() == ' ');
        assert(rest.drop_last().push(rest.last()) =~= rest);
        assert(scan_line(line).args == rest);
        lemma_scan_append(line, last);
        assert(scan_line(line).current + last =~= last);
    }
}

/// Plain words with single spaces between them are taken apart into the same words.
pub proof fn law_plain_words_round_trip(list: Seq<Seq<char>>)
    requires
        forall|i: int| 0 <= i < list.len() ==> is_plain(#[trigger] list[i]),
    ensures
        words(joined(list)) == list,
{
    if list.len() == 0 {
        assert(words(joined(list)) =~= list);
    } else {
        lemma_scan_joined(list);
        assert(is_plain(list[list.len() - 1]));
        assert(list.drop_last().push(list.last()) =~= list);
    }
}

/// No word is ever empty.
pub proof fn law_no_empty_words(line: Seq<char>, i: int)
    requires
        0 <= i < words(line).len(),
    ensures
        words(line)[i].len() > 0,
{
    lemma_args_not_empty(line);
}

proof fn lemma_args_not_empty(line: Seq<char>)
    ensures
        forall|i: int|
            0 <= i < scan_line(line).args.len() ==> (#[trigger] scan_line(line).args[i]).len() > 0,
    decreases line.len(),
{
    if line.len() > 0 {
        lemma_args_not_empty(line.drop_last());
        let before = scan_line(line.drop_last());
        let now = scan_line(line);
        assert(now == scan_char(before, line.last()));
        assert forall|i: int| 0 <= i < now.args.len() implies (#[trigger] now.args[i]).len()
            > 0 by {
            if i < before.args.len() {
                assert(now.args[i] == before.args[i]);
                assert(before.args[i].len() > 0);
            }
        }
    }
}

/// Quoted text without quotes and backslashes in it is one word, spaces and all.
pub proof fn law_quoted_text_is_one_word(text: Seq<char>, quote: char)
    requires
        quote == '\'' || quote == '"',
        text.len() > 0,
        forall|i: int|
            0 <= i < text.len() ==> {
                let c = #[trigger] text[i];
                c != '\\' && c != '\'' && c != '"'
            },
    ensures
        words(seq![quote] + text + seq![quote]) == seq![text],
{
    let empty = Seq::<char>::empty();
    let open = seq![quote];
    assert(open.drop_last() =~= empty);
    assert(open.last() == quote);
    assert(scan_line(open) == scan_char(scan_line(empty), quote));
    lemma_scan_append(open, text);
    let line = open + text + seq![quote];
    assert(line.drop_last() =~= open + text);
    assert(line.last() == quote);
    assert(scan_line(open).current + text =~= text);
    assert(words(line) =~= seq![text]);
}

/// Every command that the tests of a table lead to is that of a test that is not excluded.
pub proof fn law_excluded_tests_do_not_run(
    table: Seq<&'static str>,
    runtest: Seq<char>,
    entry: Seq<char>,
    dir: Seq<char>,
    exclude: Seq<Excluded>,
    i: int,
)
    requires
        0 <= i < tests_run(table, runtest, entry, dir, exclude).len(),
    ensures
        exists|k: int|
            {
                &&& 0 <= k < table.len()
                &&& !is_excluded(exclude, runtest, entry, (#[trigger] table[k])@, dir)
                &&& tests_run(table, runtest, entry, dir, exclude)[i] == (StepView::Command {
                    cmd: test_line(runtest, entry, table[k]@),
                    dir,
                })
            },
    decreases table.len(),
{
    if table.len() > 0 {
        let before = tests_run(table.drop_last(), runtest, entry, dir, exclude);
        let n = table.len() - 1;
        if i < before.len() {
            law_excluded_tests_do_not_run(table.drop_last(), runtest, entry, dir, exclude, i);
            let k = choose|k: int|
                {
                    &&& 0 <= k < table.drop_last().len()
                    &&& !is_excluded(
                        exclude,
                        runtest,
                        entry,
                        (#[trigger] table.drop_last()[k])@,
                        dir,
                    )
                    &&& before[i] == (StepView::Command {
                        cmd: test_line(runtest, entry, table.drop_last()[k]@),
                        dir,
                    })
                };
            assert(table.drop_last()[k] == table[k]);
        } else {
            assert(table[n] == table.last());
        }
    }
}

/// With nothing excluded, every test of the table is run once, in the order of the table.
pub proof fn law_all_tests_run(
    table: Seq<&'static str>,
    runtest: Seq<char>,
    entry: Seq<char>,
    dir: Seq<char>,
)
    ensures
        tests_run(table, runtest, entry, dir, Seq::empty()) == table.map_values(
            |name: &'static str|
                StepView::Command { cmd: test_line(runtest, entry, name@), dir },
        ),
    decreases table.len(),
{
    let all = table.map_values(
        |name: &'static str| StepView::Command { cmd: test_line(runtest, entry, name@), dir },
    );
    if table.len() > 0 {
        law_all_tests_run(table.drop_last(), runtest, entry, dir);
        assert(tests_run(table, runtest, entry, dir, Seq::empty()) =~= all);
    } else {
        assert(tests_run(table, runtest, entry, dir, Seq::empty()) =~= all);
    }
}

proof fn lemma_scan_same(a: Seq<char>, b: Seq<char>, rest: Seq<char>)
    requires
        scan_line(a) == scan_line(b),
    ensures
        scan_line(a + rest) == scan_line(b + rest),
    decreases rest.len(),
{
    if rest.len() == 0 {
        assert(a + rest =~= a);
        assert(b + rest =~= b);
    } else {
        lemma_scan_same(a, b, rest.drop_last());
        assert((a + rest).drop_last() =~= a + rest.drop_last());
        assert((b + rest).drop_last() =~= b + rest.drop_last());
        assert((a + rest).last() == rest.last() && (b + rest).last() == rest.last());
    }
}

/// A second space, and a space in front of everything, change nothing: words are divided by any
/// number of spaces.
pub proof fn law_more_spaces_change_nothing(line: Seq<char>, rest: Seq<char>)
    requires
        !scan_line(line).in_quotes,
        !scan_line(line).escaped,
    ensures
        words(line + seq![' ', ' '] + rest) == words(line + seq![' '] + rest),
        words(seq![' '] + rest) == words(rest),
{
    let one = line + seq![' '];
    let two = line + seq![' ', ' '];
    assert(one.drop_last() =~= line && one.last() == ' ');
    assert(two.drop_last() =~= one && two.last() == ' ');
    lemma_scan_same(one, two, rest);
    let empty = Seq::<char>::empty();
    let space = seq![' '];
    assert(space.drop_last() =~= empty && space.last() == ' ');
    lemma_scan_same(space, empty, rest);
    assert(empty + rest =~= rest);
}

/// A backslash takes the next character as it is, even if that is a space, a quote or a backslash: it
/// becomes part of the word that is being read, and nothing else happens.
pub proof fn law_backslash_takes_the_next(line: Seq<char>, c: char)
    requires
        !scan_line(line).escaped,
    ensures
        ({
            let now = scan_line(line.push('\\').push(c));
            &&& now.current == scan_line(line).current.push(c)
            &&& now.args == scan_line(line).args
            &&& now.in_quotes == scan_line(line).in_quotes
            &&& !now.escaped
        }),
        words(seq!['\\', c]) == seq![seq![c]],
{
    assert(line.push('\\').push(c).drop_last() =~= line.push('\\'));
    assert(line.push('\\').drop_last() =~= line);
    let bare = scan_line(line);
    assert(scan_line(line.push('\\')) == scan_char(bare, '\\'));
    assert(scan_line(line.push('\\').push(c)) == scan_char(scan_char(bare, '\\'), c));
    let empty = Seq::<char>::empty();
    let one = seq!['\\'];
    let two = seq!['\\', c];
    assert(one.drop_last() =~= empty && one.last() == '\\');
    assert(two.drop_last() =~= one && two.last() == c);
    assert(scan_line(one) == scan_char(scan_line(empty), '\\'));
    assert(scan_line(two) == scan_char(scan_line(one), c));
    assert(scan_line(two).current =~= seq![c]);
    assert(words(two) =~= seq![seq![c]]);
}

/// Every character stands for itself: it is no space, no quote and no backslash.
pub open spec fn no_meaning(text: Seq<char>) -> bool {
    forall|i: int|
        0 <= i < text.len() ==> {
            let c = #[trigger] text[i];
            c != ' ' && c != '\\' && c != '\'' && c != '"'
        }
}

/// Quotes join what they enclose, spaces and all, to what stands before and behind them, and are
/// themselves dropped. Either sort of quote begins and ends such text.
pub proof fn law_quotes_join(
    front: Seq<char>,
    text: Seq<char>,
    back: Seq<char>,
    quote: char,
    other: char,
)
    requires
        quote == '\'' || quote == '"',
        other == '\'' || other == '"',
        no_meaning(front),
        no_meaning(back),
        forall|i: int|
            0 <= i < text.len() ==> {
                let c = #[trigger] text[i];
                c != '\\' && c != '\'' && c != '"'
            },
        front.len() + text.len() + back.len() > 0,
    ensures
        words(front + seq![quote] + text + seq![other] + back) == seq![front + text + back],
{
    let empty = Seq::<char>::empty();
    lemma_scan_append(empty, front);
    assert(empty + front =~= front);
    let a = front + seq![quote];
    assert(a.drop_last() =~= front && a.last() == quote);
    lemma_scan_append(a, text);
    let b = a + text;
    let c = b + seq![other];
    assert(c.drop_last() =~= b && c.last() == other);
    lemma_scan_append(c, back);
    assert(front + seq![quote] + text + seq![other] + back =~= c + back);
    assert(scan_line(c + back).current =~= front + text + back);
    assert(words(c + back) =~= seq![front + text + back]);
}

/// A command goes on step by step: a program that can be opened is loaded, one that was loaded is
/// waited for until it has ended, and then it is forgotten, the system is let come to rest and memory
/// accesses are ordered. One that cannot be opened or loaded is reported. After that, and after an
/// empty line, nothing is left to be done.
pub proof fn law_course_of_a_command(ok: bool)
    ensures
        after_action(CommandAction::Open, true) == CommandAction::Exec,
        after_action(CommandAction::Open, false) == CommandAction::PrintUnknown,
        after_action(CommandAction::Exec, true) == CommandAction::Wait,
        after_action(CommandAction::Exec, false) == CommandAction::PrintExecFailed,
        after_action(CommandAction::Wait, false) == CommandAction::Wait,
        after_action(CommandAction::Wait, true) == CommandAction::Release,
        after_action(CommandAction::Release, ok) == CommandAction::Settle,
        after_action(CommandAction::Settle, ok) == CommandAction::Fence,
        after_action(CommandAction::Fence, ok) == CommandAction::Done,
        after_action(CommandAction::PrintEmpty, ok) == CommandAction::Done,
        after_action(CommandAction::PrintUnknown, ok) == CommandAction::Done,
        after_action(CommandAction::PrintExecFailed, ok) == CommandAction::Done,
        after_action(CommandAction::Done, ok) == CommandAction::Done,
        SETTLE_YIELDS == 100000,
        KILL_ALL_CODE == 100,
{
}

/// To clean up, a task is ended exactly if it is still there and runs a user program.
pub proof fn law_tasks_that_are_ended(task: Option<TaskType>)
    ensures
        is_killed(task) <==> task is Some && task->0 == TaskType::MonolithicTask,
{
}

/// The command line of a test has four words: the program that runs tests, its flag, the program that
/// holds the test, and the name of the test.
pub proof fn law_words_of_a_test(runtest: Seq<char>, entry: Seq<char>, name: Seq<char>)
    requires
        is_plain(runtest),
        is_plain(entry),
        is_plain(name),
    ensures
        words(test_line(runtest, entry, name)) == seq![runtest, seq!['-', 'w'], entry, name],
{
    reveal_strlit(" -w ");
    reveal_strlit(" ");
    let flag = seq!['-', 'w'];
    let list = seq![runtest, flag, entry, name];
    assert(is_plain(flag));
    assert forall|i: int| 0 <= i < list.len() implies is_plain(#[trigger] list[i]) by {
        assert(i == 0 || i == 1 || i == 2 || i == 3);
    }
    law_plain_words_round_trip(list);
    let l3 = list.drop_last();
    let l2 = l3.drop_last();
    let l1 = l2.drop_last();
    assert(joined(l1) == runtest);
    assert(joined(l2) == joined(l1) + seq![' '] + flag);
    assert(joined(l3) == joined(l2) + seq![' '] + entry);
    assert(joined(list) == joined(l3) + seq![' '] + name);
    assert(test_line(runtest, entry, name) =~= joined(list));
}

/// The tests that are run are those of the table that are not excluded, each once and in the order of
/// the table.
pub proof fn law_tests_are_run_in_order(
    table: Seq<&'static str>,
    runtest: Seq<char>,
    entry: Seq<char>,
    dir: Seq<char>,
    exclude: Seq<Excluded>,
)
    ensures
        tests_run(table, runtest, entry, dir, exclude) == table.filter(
            |name: &'static str| !is_excluded(exclude, runtest, entry, name@, dir),
        ).map_values(
            |name: &'static str| StepView::Command { cmd: test_line(runtest, entry, name@), dir },
        ),
    decreases table.len(),
{
    let stays = |name: &'static str| !is_excluded(exclude, runtest, entry, name@, dir);
    let step = |name: &'static str|
        StepView::Command { cmd: test_line(runtest, entry, name@), dir };
    reveal(Seq::filter);
    if table.len() > 0 {
        law_tests_are_run_in_order(table.drop_last(), runtest, entry, dir, exclude);
        let before = table.drop_last().filter(stays);
        assert(before.push(table.last()).map_values(step) =~= before.map_values(step).push(
            step(table.last()),
        ));
    }
    assert(tests_run(table, runtest, entry, dir, exclude) =~= table.filter(stays).map_values(step));
}

/// A test is excluded by an entry with all four texts the same, and by nothing else.
pub proof fn law_exclusion_needs_all_four(
    exclude: Seq<Excluded>,
    e: Excluded,
    runtest: Seq<char>,
    entry: Seq<char>,
    name: Seq<char>,
    dir: Seq<char>,
)
    ensures
        !is_excluded(Seq::empty(), runtest, entry, name, dir),
        is_excluded(exclude.push(e), runtest, entry, name, dir) <==> is_excluded(
            exclude,
            runtest,
            entry,
            name,
            dir,
        ) || (e.runtest@ == runtest && e.entry@ == entry && e.name@ == name && e.dir@ == dir),
{
    let more = exclude.push(e);
    if is_excluded(exclude, runtest, entry, name, dir) {
        let i = choose|i: int|
            {
                &&& 0 <= i < exclude.len()
                &&& (#[trigger] exclude[i]).runtest@ == runtest
                &&& exclude[i].entry@ == entry
                &&& exclude[i].name@ == name
                &&& exclude[i].dir@ == dir
            };
        assert(more[i] == exclude[i]);
    }
    assert(more[exclude.len() as int] == e);
}

/// The tests of a C library are those of the statically linked program and then those of the other,
/// in the order of their tables.
pub proof fn law_tests_of_a_library(runtest: Seq<char>, dir: Seq<char>, i: int)
    ensures
        library_tests(runtest, dir, Seq::empty()).len() == 217,
        0 <= i < 107 ==> library_tests(runtest, dir, Seq::empty())[i] == (StepView::Command {
            cmd: runtest + " -w "@ + "entry-static.exe"@ + " "@ + STATIC_TESTS@[i]@,
            dir,
        }),
        107 <= i < 217 ==> library_tests(runtest, dir, Seq::empty())[i] == (StepView::Command {
            cmd: runtest + " -w "@ + "entry-dynamic.exe"@ + " "@ + DYNAMIC_TESTS@[i - 107]@,
            dir,
        }),
{
    law_all_tests_run(STATIC_TESTS@, runtest, "entry-static.exe"@, dir);
    law_all_tests_run(DYNAMIC_TESTS@, runtest, "entry-dynamic.exe"@, dir);
}

/// A network test runs once, with all user threads ended just before it and again right behind it.
pub proof fn law_network_tests_run_alone(cmd: Seq<char>, dir: Seq<char>)
    ensures
        isolated(cmd, dir).len() == 7,
        isolated(cmd, dir)[0] == StepView::KillAll,
        isolated(cmd, dir)[1] == StepView::Fence,
        isolated(cmd, dir)[2] == StepView::Spin(100000),
        isolated(cmd, dir)[3] == (StepView::Command { cmd, dir }),
        isolated(cmd, dir)[4] == StepView::KillAll,
        isolated(cmd, dir)[5] == StepView::Fence,
        isolated(cmd, dir)[6] == StepView::Spin(200000),
{
}

/// On LoongArch the excluded tests of the musl library are left out, in both programs, and nothing of
/// another library or directory is.
pub proof fn law_exclusions_on_loongarch(k: int, runtest: Seq<char>, entry: Seq<char>, name: Seq<char>, dir: Seq<char>)
    requires
        0 <= k < LOONG_EXCLUDED@.len(),
    ensures
        is_excluded(
            loong_exclusions(),
            "/musl/runtest.exe"@,
            "entry-static.exe"@,
            LOONG_EXCLUDED@[k]@,
            "/musl"@,
        ),
        is_excluded(
            loong_exclusions(),
            "/musl/runtest.exe"@,
            "entry-dynamic.exe"@,
            LOONG_EXCLUDED@[k]@,
            "/musl"@,
        ),
        is_excluded(loong_exclusions(), runtest, entry, name, dir) ==> runtest
            == "/musl/runtest.exe"@ && dir == "/musl"@ && (entry == "entry-static.exe"@ || entry
            == "entry-dynamic.exe"@) && exists|m: int|
            0 <= m < LOONG_EXCLUDED@.len() && (#[trigger] LOONG_EXCLUDED@[m])@ == name,
{
    let n = LOONG_EXCLUDED@.len() as int;
    let all = loong_exclusions();
    assert(all[k].name@ == LOONG_EXCLUDED@[k]@);
    assert(all[n + k].name@ == LOONG_EXCLUDED@[k]@);
    if is_excluded(all, runtest, entry, name, dir) {
        let i = choose|i: int|
            {
                &&& 0 <= i < all.len()
                &&& (#[trigger] all[i]).runtest@ == runtest
                &&& all[i].entry@ == entry
                &&& all[i].name@ == name
                &&& all[i].dir@ == dir
            };
        let m = if i < n {
            i
        } else {
            i - n
        };
        assert(LOONG_EXCLUDED@[m]@ == name);
    }
}

/// What the first process does on machines other than LoongArch, step by step: the commands of each
/// table in their order and in the directory of the table, with the C library set before; one network
/// test; and at the end the machine is switched off.
pub proof fn law_script_of_other_machines(i: int)
    requires
        0 <= i < 136,
    ensures
        ({
            let steps = init_steps(Arch::Other);
            &&& steps.len() == 136
            &&& steps[0] == StepView::SetLibc("/musl/lib/libc.so"@)
            &&& steps[1] == StepView::SetDyn("/musl/lib/libc.so"@)
            &&& 2 <= i < 28 ==> steps[i] == (StepView::Command {
                cmd: MUSL_BASIC@[i - 2]@,
                dir: "/musl/basic"@,
            })
            &&& 28 <= i < 76 ==> steps[i] == (StepView::Command {
                cmd: MUSL_MAIN@[i - 28]@,
                dir: "/musl"@,
            })
            &&& steps[76] == StepView::SetLibc("/glibc/lib"@)
            &&& steps[77] == StepView::SetDyn("/glibc/lib/ld-linux-riscv64-lp64d.so.1"@)
            &&& 78 <= i < 86 ==> steps[i] == (StepView::Command {
                cmd: GLIBC_BASIC@[i - 78]@,
                dir: "/glibc/basic"@,
            })
            &&& 86 <= i < 91 ==> steps[i] == (StepView::Command {
                cmd: GLIBC_LINKS@[i - 86]@,
                dir: "/glibc"@,
            })
            &&& steps[91] == StepView::KillAll
            &&& steps[94] == (StepView::Command {
                cmd: "/glibc/busybox sh iperf_testcode.sh"@,
                dir: "/glibc"@,
            })
            &&& steps[95] == StepView::KillAll
            &&& 98 <= i < 133 ==> steps[i] == (StepView::Command {
                cmd: GLIBC_MAIN@[i - 98]@,
                dir: "/glibc"@,
            })
            &&& steps[133] == StepView::Print("!TEST FINISH!"@)
            &&& steps[134] == StepView::Shutdown
            &&& steps[135] == StepView::ShutdownIfIdle
        }),
{
}

/// What the first process does on LoongArch, step by step: the commands of each table in their order
/// and in the directory of the table, with the C library set before; one network test; the tests of
/// the musl library but for the excluded ones; and at the end the machine is switched off.
pub proof fn law_script_of_loongarch(i: int, k: int)
    requires
        0 <= i < 49,
        0 <= k < 23,
    ensures
        ({
            let steps = init_steps(Arch::LoongArch64);
            let tests = library_tests("/musl/runtest.exe"@, "/musl"@, loong_exclusions());
            let t = 49 + tests.len() as int;
            &&& steps.len() == t + 23
            &&& steps[0] == StepView::SetLibc("/musl/lib/libc.so"@)
            &&& steps[1] == StepView::SetDyn("/musl/lib/libc.so"@)
            &&& steps[2] == StepView::Print("start kernel tasks"@)
            &&& 3 <= i < 27 ==> steps[i] == (StepView::Command {
                cmd: LOONG_MUSL_BASIC@[i - 3]@,
                dir: "/musl/basic"@,
            })
            &&& 27 <= i < 36 ==> steps[i] == (StepView::Command {
                cmd: LOONG_MUSL_LTP@[i - 27]@,
                dir: "/musl"@,
            })
            &&& steps[36] == StepView::KillAll
            &&& steps[39] == (StepView::Command {
                cmd: "/musl/busybox sh iperf_testcode.sh"@,
                dir: "/musl"@,
            })
            &&& steps[40] == StepView::KillAll
            &&& 43 <= i < 49 ==> steps[i] == (StepView::Command {
                cmd: LOONG_MUSL_MAIN@[i - 43]@,
                dir: "/musl"@,
            })
            &&& steps.subrange(49, t) == tests
            &&& steps[t] == (StepView::Command { cmd: LOONG_MUSL_END@[0]@, dir: "/musl"@ })
            &&& steps[t + 1] == StepView::SetLibc("/glibc/lib"@)
            &&& steps[t + 2] == StepView::SetDyn("/glibc/lib/ld-linux-loongarch-lp64d.so.1"@)
            &&& 3 <= k < 11 ==> steps[t + k] == (StepView::Command {
                cmd: LOONG_GLIBC_BASIC@[k - 3]@,
                dir: "/glibc/basic"@,
            })
            &&& 11 <= k < 20 ==> steps[t + k] == (StepView::Command {
                cmd: LOONG_GLIBC_MAIN@[k - 11]@,
                dir: "/glibc"@,
            })
            &&& steps[t + 20] == StepView::Print("!TEST FINISH!"@)
            &&& steps[t + 21] == StepView::Shutdown
            &&& steps[t + 22] == StepView::ShutdownIfIdle
        }),
{
    let steps = init_steps(Arch::LoongArch64);
    let tests = library_tests("/musl/runtest.exe"@, "/musl"@, loong_exclusions());
    assert(steps.subrange(49, 49 + tests.len() as int) =~= tests);
}

} // verus!
