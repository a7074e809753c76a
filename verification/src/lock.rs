//! One instance only: whether the process in a pid file still stands for a
//! running copy of this program.
use crate::text::{
    after_last, after_last_is_within, chars_of, glue, contains, decimal, find_after_last, occurs,
    parse_u32, text_of, trim, trimmed, unsigned, unsigned_upto, write_u64,
};
use std::path::PathBuf;
use vstd::prelude::*;

verus! {

/// The name of the pid file.
pub const PID_FILE: &'static str = "wwrpc.pid";

/// The name by which a copy of this program is known.
pub const PROGRAM: &'static str = "wwrpc";

/// The pid that the text of a pid file records.
pub open spec fn recorded(text: Option<Seq<char>>) -> Option<u32> {
    match text {
        Some(text) => match unsigned_upto(trimmed(text), u32::MAX as nat) {
            Some(n) => Some(n as u32),
            None => None,
        },
        None => None,
    }
}

/// Reads the pid that a pid file records. Anything else than a number there
/// records none.
pub fn recorded_pid(text: Option<&str>) -> (r: Option<u32>)
    ensures
        r == recorded(crate::text::opt_str(text)),
{
    match text {
        Some(text) => parse_u32(trim(text).as_str()),
        None => None,
    }
}

/// The first part of a command line: what stands before the first NUL.
pub open spec fn first_argument(cmdline: Seq<char>) -> Seq<char>
    decreases cmdline.len(),
{
    if cmdline.len() == 0 || cmdline[0] == '\0' {
        Seq::empty()
    } else {
        seq![cmdline[0]] + first_argument(cmdline.skip(1))
    }
}

/// The file name of a path: its last part, where empty parts and single dots
/// do not count. A path that ends in two dots has none.
pub open spec fn file_name(path: Seq<char>) -> Option<Seq<char>>
    decreases path.len(),
    via file_name_shrinks
{
    let at = after_last(path, '/');
    let part = path.skip(at);
    if part.len() == 0 || part == seq!['.'] {
        if at == 0 {
            None
        } else {
            file_name(path.take(at - 1))
        }
    } else if part == seq!['.', '.'] {
        None
    } else {
        Some(part)
    }
}

#[via_fn]
proof fn file_name_shrinks(path: Seq<char>) {
    after_last_is_within(path, '/');
}

/// Whether a command line is that of a copy of this program: only the program
/// itself counts, not its arguments.
pub open spec fn ours(cmdline: Option<Seq<char>>) -> bool {
    match cmdline {
        Some(cmdline) => match file_name(first_argument(cmdline)) {
            Some(name) => occurs(name, PROGRAM@),
            None => false,
        },
        None => false,
    }
}

/// The first part of a command line.
fn read_first_argument(cmdline: &str) -> (r: Vec<char>)
    ensures
        r@ == first_argument(cmdline@),
{
    let chars = chars_of(cmdline);
    let mut out: Vec<char> = Vec::new();
    let mut i: usize = 0;
    assert(chars@.skip(0) == chars@);
    while i < chars.len() && chars[i] != '\0'
        invariant
            i <= chars@.len(),
            first_argument(chars@) == out@ + first_argument(chars@.skip(i as int)),
        decreases chars@.len() - i,
    {
        assert(chars@.skip(i as int)[0] == chars@[i as int]);
        assert(chars@.skip(i as int).skip(1) == chars@.skip(i + 1));
        let ghost before = out@;
        out.push(chars[i]);
        i += 1;
        assert(out@ + first_argument(chars@.skip(i as int)) =~= before + (seq![chars@[i - 1]]
            + first_argument(chars@.skip(i as int))));
    }
    assert(i < chars@.len() ==> chars@.skip(i as int)[0] == '\0');
    assert(first_argument(chars@.skip(i as int)) =~= Seq::<char>::empty());
    assert(out@ + Seq::<char>::empty() =~= out@);
    out
}

/// The file name of a path.
fn read_file_name(path: &Vec<char>) -> (r: Option<String>)
    ensures
        crate::text::opt_view(r) == file_name(path@),
{
    let mut end: usize = path.len();
    assert(path@.take(end as int) == path@);
    loop
        invariant
            end <= path@.len(),
            file_name(path@) == file_name(path@.take(end as int)),
        decreases end,
    {
        let ghost here = path@.take(end as int);
        let at: usize = find_after_last(path, end, '/');
        let ghost part = here.skip(at as int);
        assert(part.len() == end - at);
        assert(end - at == 1 ==> part[0] == path@[at as int]);
        assert(end - at == 2 ==> part[0] == path@[at as int] && part[1] == path@[at + 1]);
        let dot: bool = end - at == 1 && path[at] == '.';
        assert(dot == (part == seq!['.'])) by {
            if dot {
                assert(part =~= seq!['.']);
            }
        }
        if at == end || dot {
            if at == 0 {
                return None;
            }
            assert(here.take(at - 1) == path@.take(at - 1));
            end = at - 1;
        } else {
            let dots: bool = end - at == 2 && path[at] == '.' && path[at + 1] == '.';
            assert(dots == (part == seq!['.', '.'])) by {
                if dots {
                    assert(part =~= seq!['.', '.']);
                }
            }
            if dots {
                return None;
            }
            let name = text_of(path, at, end);
            assert(name@ =~= part);
            return Some(name);
        }
    }
}

/// Whether a command line is that of a copy of this program.
pub fn pid_alive_by_us(cmdline: Option<&str>) -> (r: bool)
    ensures
        r == ours(crate::text::opt_str(cmdline)),
{
    match cmdline {
        Some(cmdline) => {
            let argument = read_first_argument(cmdline);
            match read_file_name(&argument) {
                Some(name) => contains(name.as_str(), PROGRAM),
                None => false,
            }
        },
        None => false,
    }
}

/// The claim of one running copy, on its pid file.
#[derive(Debug)]
pub struct SingleInstance {
    path: PathBuf,
}

/// What is told when another copy runs.
pub open spec fn running_message(pid: u32) -> Seq<char> {
    "another wwrpc instance is running (pid "@ + decimal(pid as nat) + ")"@
}

impl SingleInstance {
    /// The pid file.
    pub closed spec fn file(&self) -> PathBuf {
        self.path
    }

    /// Claims a pid file, given its text, if it can be read, and the command
    /// line of the process that it records, if there is one. It is refused
    /// exactly when that process is a copy of this program; a file left behind
    /// by a dead process, with other text, or with a pid that went to another
    /// program does not stand in the way.
    pub fn acquire(path: PathBuf, recorded_text: Option<&str>, cmdline: Option<&str>) -> (r: Result<
        SingleInstance,
        String,
    >)
        ensures
            match (recorded(crate::text::opt_str(recorded_text)), r) {
                (Some(pid), Err(message)) => ours(crate::text::opt_str(cmdline)) && message@
                    == running_message(pid),
                (Some(_), Ok(instance)) => !ours(crate::text::opt_str(cmdline)) && instance.file()
                    == path,
                (None, Ok(instance)) => instance.file() == path,
                (None, Err(_)) => false,
            },
    {
        match recorded_pid(recorded_text) {
            Some(pid) => if pid_alive_by_us(cmdline) {
                let start = glue(
                    "another wwrpc instance is running (pid ",
                    write_u64(pid as u64).as_str(),
                );
                Err(glue(start.as_str(), ")"))
            } else {
                Ok(SingleInstance { path })
            },
            None => Ok(SingleInstance { path }),
        }
    }

    /// The pid file, to be removed when the claim ends.
    pub fn path(&self) -> (r: &PathBuf)
        ensures
            *r == self.file(),
    {
        &self.path
    }
}

/// A pid file records a pid exactly when its text is a number of 32 bits, with
/// white space around it at most.
pub proof fn pid_files_hold_numbers(text: Option<&str>, r: Option<u32>, n: u32)
    requires
        call_ensures(recorded_pid, (text,), r),
    ensures
        r == Some(n) <==> text is Some && unsigned(trimmed(text->Some_0@)) == Some(n as nat),
{
}

/// The program of a command line stands before the first NUL, or is all of it.
pub proof fn programs_come_first(program: Seq<char>, rest: Seq<char>)
    requires
        forall|i: int| 0 <= i < program.len() ==> #[trigger] program[i] != '\0',
    ensures
        first_argument(program + seq!['\0'] + rest) == program,
        first_argument(program) == program,
    decreases program.len(),
{
    let all = program + seq!['\0'] + rest;
    if program.len() > 0 {
        programs_come_first(program.skip(1), rest);
        assert(all[0] == program[0]);
        assert(all.skip(1) =~= program.skip(1) + seq!['\0'] + rest);
        assert(seq![program[0]] + program.skip(1) =~= program);
    } else {
        assert(all[0] == '\0');
        assert(program =~= Seq::<char>::empty());
    }
}

/// The file name of a path is what stands behind its last slash; a slash at the
/// end and a single dot there do not count, and two dots are no name.
pub proof fn file_names_come_last(dir: Seq<char>, name: Seq<char>)
    requires
        forall|i: int| 0 <= i < name.len() ==> #[trigger] name[i] != '/',
    ensures
        name.len() > 0 && name != seq!['.'] && name != seq!['.', '.'] ==> file_name(
            dir + seq!['/'] + name,
        ) == Some(name) && file_name(name) == Some(name),
        file_name(dir + seq!['/']) == file_name(dir),
        file_name(dir + seq!['/', '.']) == file_name(dir),
        file_name(dir + seq!['/', '.', '.']) is None,
        file_name(Seq::<char>::empty()) is None,
{
    slash_is_found(dir, name);
    slash_is_found(dir, Seq::empty());
    slash_is_found(dir, seq!['.']);
    slash_is_found(dir, seq!['.', '.']);
    no_slash_is_found(name);
    no_slash_is_found(Seq::empty());
    let n = dir.len() as int;
    assert((dir + seq!['/'] + name).skip(n + 1) =~= name);
    assert(name.skip(0) =~= name);
    assert(dir + seq!['/'] =~= dir + seq!['/'] + Seq::<char>::empty());
    assert((dir + seq!['/']).take(n) =~= dir);
    assert((dir + seq!['/']).skip(n + 1) =~= Seq::<char>::empty());
    assert(dir + seq!['/', '.'] =~= dir + seq!['/'] + seq!['.']);
    assert((dir + seq!['/', '.']).take(n) =~= dir);
    assert((dir + seq!['/', '.']).skip(n + 1) =~= seq!['.']);
    assert(dir + seq!['/', '.', '.'] =~= dir + seq!['/'] + seq!['.', '.']);
    assert((dir + seq!['/', '.', '.']).skip(n + 1) =~= seq!['.', '.']);
    assert(seq!['.', '.'].len() != seq!['.'].len());
    assert(Seq::<char>::empty().skip(0) =~= Seq::<char>::empty());
}

proof fn slash_is_found(dir: Seq<char>, name: Seq<char>)
    requires
        forall|i: int| 0 <= i < name.len() ==> #[trigger] name[i] != '/',
    ensures
        after_last(dir + seq!['/'] + name, '/') == dir.len() + 1,
    decreases name.len(),
{
    let all = dir + seq!['/'] + name;
    if name.len() > 0 {
        assert(all.last() == name.last());
        assert(name[name.len() - 1] == name.last());
        assert(all.drop_last() =~= dir + seq!['/'] + name.drop_last());
        slash_is_found(dir, name.drop_last());
    } else {
        assert(all.last() == '/');
    }
}

proof fn no_slash_is_found(name: Seq<char>)
    requires
        forall|i: int| 0 <= i < name.len() ==> #[trigger] name[i] != '/',
    ensures
        after_last(name, '/') == 0,
    decreases name.len(),
{
    if name.len() > 0 {
        assert(name[name.len() - 1] == name.last());
        no_slash_is_found(name.drop_last());
    }
}

/// A process is a copy of this program exactly when the file name of its
/// program holds this program's name, whatever its arguments are.
pub proof fn copies_are_known_by_their_program(
    cmdline: &str,
    program: Seq<char>,
    rest: Seq<char>,
    r: bool,
)
    requires
        call_ensures(pid_alive_by_us, (Some(cmdline),), r),
        forall|i: int| 0 <= i < program.len() ==> #[trigger] program[i] != '\0',
        cmdline@ == program || cmdline@ == program + seq!['\0'] + rest,
    ensures
        r <==> file_name(program) is Some && occurs(file_name(program)->Some_0, "wwrpc"@),
{
    programs_come_first(program, rest);
}

/// A process without a command line is no copy.
pub proof fn dead_processes_are_no_copies(r: bool)
    requires
        call_ensures(pid_alive_by_us, (None,), r),
    ensures
        !r,
{
}

/// A claim is refused exactly when a pid is recorded and its process is a copy
/// of this program, and the refusal names the pid; else it is on the file that
/// was asked for.
pub proof fn claims_yield_to_running_copies(
    path: PathBuf,
    text: Option<&str>,
    cmdline: Option<&str>,
    pid: Option<u32>,
    alive: bool,
    r: Result<SingleInstance, String>,
)
    requires
        call_ensures(SingleInstance::acquire, (path, text, cmdline), r),
        call_ensures(recorded_pid, (text,), pid),
        call_ensures(pid_alive_by_us, (cmdline,), alive),
    ensures
        r is Err <==> pid is Some && alive,
        r matches Err(message) ==> message@ == "another wwrpc instance is running (pid "@ + decimal(
            pid->Some_0 as nat,
        ) + ")"@,
        r matches Ok(instance) ==> instance.file() == path,
{
}

/// A claim tells its file.
pub proof fn claims_tell_their_file(instance: SingleInstance, r: &PathBuf)
    requires
        call_ensures(SingleInstance::path, (&instance,), r),
    ensures
        *r == instance.file(),
{
}

} // verus!
