//! External tool invocations and file-system actions, described as plain values.
//!
//! The library decides which programs run with which arguments and which files are written;
//! the program around it carries the actions out, in order, and reports what the tools said.
use vstd::prelude::*;
use crate::text::{cat, owned};

verus! {

/// One program to run, with its arguments and, when set, what it reads on standard input.
#[derive(Debug)]
pub struct ToolCommand {
    pub program: String,
    pub args: Vec<String>,
    pub stdin: Option<String>,
}

/// What a finished program reported.
#[derive(Debug)]
pub struct ToolOutput {
    pub success: bool,
    pub status: Option<i32>,
    pub stdout: String,
    pub stderr: String,
}

/// A tool failure: the program and its arguments (which name the disk, partition, mount point
/// or file it worked on), its exit status and both of its output streams.
#[derive(Debug)]
pub struct ToolFailure {
    pub program: String,
    pub args: Vec<String>,
    pub status: Option<i32>,
    pub stdout: String,
    pub stderr: String,
}

/// Why an installation step failed.
#[derive(Debug)]
pub enum InstallError {
    NoEligibleDisk,
    AmbiguousTarget(Vec<String>),
    IoError(String),
    ToolFailure(ToolFailure),
    MissingDependency(String),
    PayloadMissing(String),
    UuidLookupFailed(String),
    VerificationFailed(String),
    NoPartitionTool,
    InvalidDiskPath(String),
}

/// One step of work on the machine.
#[derive(Debug)]
pub enum Action {
    Run(ToolCommand),
    CreateDir(String),
    WriteFile(String, String),
    Copy(String, String),
    /// A symbolic link: its target, then where the link is made.
    Symlink(String, String),
    /// Removal of a file that may be absent; failure to remove is not an error.
    RemoveFile(String),
}

pub open spec fn strs(v: Seq<String>) -> Seq<Seq<char>> {
    v.map_values(|s: String| s@)
}

pub open spec fn opt_view(o: Option<String>) -> Option<Seq<char>> {
    match o {
        Some(s) => Some(s@),
        None => None,
    }
}

/// A command, seen as its program, its arguments and its standard input.
pub open spec fn cmd_view(c: ToolCommand) -> (Seq<char>, Seq<Seq<char>>, Option<Seq<char>>) {
    (c.program@, strs(c.args@), opt_view(c.stdin))
}

pub enum ActionView {
    Run(Seq<char>, Seq<Seq<char>>, Option<Seq<char>>),
    CreateDir(Seq<char>),
    WriteFile(Seq<char>, Seq<char>),
    Copy(Seq<char>, Seq<char>),
    Symlink(Seq<char>, Seq<char>),
    RemoveFile(Seq<char>),
}

pub open spec fn action_view(a: Action) -> ActionView {
    match a {
        Action::Run(c) => ActionView::Run(c.program@, strs(c.args@), opt_view(c.stdin)),
        Action::CreateDir(p) => ActionView::CreateDir(p@),
        Action::WriteFile(p, c) => ActionView::WriteFile(p@, c@),
        Action::Copy(f, t) => ActionView::Copy(f@, t@),
        Action::Symlink(t, l) => ActionView::Symlink(t@, l@),
        Action::RemoveFile(p) => ActionView::RemoveFile(p@),
    }
}

pub open spec fn actions_view(v: Seq<Action>) -> Seq<ActionView> {
    v.map_values(|a: Action| action_view(a))
}

pub open spec fn run_view(program: Seq<char>, args: Seq<Seq<char>>) -> ActionView {
    ActionView::Run(program, args, None)
}

/// The error that reports a failed run of `program` with `args`, carrying what it printed.
pub open spec fn is_failure_of(
    e: InstallError,
    program: Seq<char>,
    args: Seq<Seq<char>>,
    out: ToolOutput,
) -> bool {
    match e {
        InstallError::ToolFailure(f) => f.program@ == program && strs(f.args@) == args && f.status
            == out.status
            && f.stdout@ == out.stdout@ && f.stderr@ == out.stderr@,
        _ => false,
    }
}

/// Owned copies of the given strings, in order.
pub fn arg_list(items: &[&str]) -> (r: Vec<String>)
    ensures
        strs(r@) == items_view(items@),
{
    let mut r: Vec<String> = Vec::new();
    let mut i: usize = 0;
    while i < items.len()
        invariant
            i <= items@.len(),
            r@.len() == i,
            forall|k: int| 0 <= k < i ==> #[trigger] r@[k]@ == items@[k]@,
        decreases items@.len() - i,
    {
        r.push(owned(items[i]));
        i = i + 1;
    }
    assert(strs(r@) =~= items_view(items@));
    r
}

/// A command without standard input.
pub fn tool(program: &str, args: &[&str]) -> (r: ToolCommand)
    ensures
        cmd_view(r) == (program@, items_view(args@), None::<Seq<char>>),
{
    ToolCommand { program: owned(program), args: arg_list(args), stdin: None }
}

pub open spec fn items_view(v: Seq<&str>) -> Seq<Seq<char>> {
    v.map_values(|s: &str| s@)
}

fn copy_string(s: &String) -> (r: String)
    ensures
        r@ == s@,
{
    owned(s.as_str())
}

fn copy_opt(s: &Option<i32>) -> (r: Option<i32>)
    ensures
        r == *s,
{
    match s {
        Some(v) => Some(*v),
        None => None,
    }
}

fn copy_strings(v: &Vec<String>) -> (r: Vec<String>)
    ensures
        strs(r@) == strs(v@),
{
    let mut r: Vec<String> = Vec::new();
    let mut i: usize = 0;
    while i < v.len()
        invariant
            i <= v@.len(),
            r@.len() == i,
            forall|k: int| 0 <= k < i ==> #[trigger] r@[k]@ == v@[k]@,
        decreases v@.len() - i,
    {
        r.push(copy_string(&v[i]));
        i = i + 1;
    }
    assert(strs(r@) =~= strs(v@));
    r
}

/// The failure error for a run of `cmd` that printed `out`.
pub fn failure_of(cmd: &ToolCommand, out: &ToolOutput) -> (r: InstallError)
    ensures
        is_failure_of(r, cmd.program@, strs(cmd.args@), *out),
{
    InstallError::ToolFailure(
        ToolFailure {
            program: copy_string(&cmd.program),
            args: copy_strings(&cmd.args),
            status: copy_opt(&out.status),
            stdout: copy_string(&out.stdout),
            stderr: copy_string(&out.stderr),
        },
    )
}

/// A finished run is accepted when the program reported success; otherwise the error carries
/// the program, its arguments, its exit status and both output streams.
pub fn check_output(cmd: &ToolCommand, out: &ToolOutput) -> (r: Result<(), InstallError>)
    ensures
        r is Ok <==> out.success,
        r matches Err(e) ==> is_failure_of(e, cmd.program@, strs(cmd.args@), *out),
{
    if out.success {
        Ok(())
    } else {
        Err(failure_of(cmd, out))
    }
}

/// The items of `v` with `sep` between each two.
pub open spec fn joined(v: Seq<Seq<char>>, sep: Seq<char>) -> Seq<char>
    decreases v.len(),
{
    if v.len() == 0 {
        Seq::empty()
    } else if v.len() == 1 {
        v[0]
    } else {
        joined(v.drop_last(), sep) + sep + v.last()
    }
}

pub fn join_strings(v: &Vec<String>, sep: &str) -> (r: String)
    ensures
        r@ == joined(strs(v@), sep@),
{
    let mut r = String::new();
    let mut i: usize = 0;
    while i < v.len()
        invariant
            i <= v@.len(),
            r@ == joined(strs(v@.subrange(0, i as int)), sep@),
        decreases v@.len() - i,
    {
        proof {
            assert(strs(v@.subrange(0, i + 1)).drop_last() =~= strs(v@.subrange(0, i as int)));
            assert(strs(v@.subrange(0, i + 1)).last() == v@[i as int]@);
        }
        if i > 0 {
            r.append(sep);
        }
        r.append(v[i].as_str());
        proof {
            if i == 0 {
                assert(strs(v@.subrange(0, 1)) =~= seq![v@[0]@]);
            }
        }
        i = i + 1;
    }
    proof {
        assert(v@.subrange(0, i as int) =~= v@);
    }
    r
}

/// A readable account of the error.
pub open spec fn error_text(e: InstallError) -> Seq<char> {
    match e {
        InstallError::NoEligibleDisk => "No eligible disks found"@,
        InstallError::AmbiguousTarget(p) => "Multiple eligible disks found (refusing to choose automatically): "@
            + joined(strs(p@), ", "@),
        InstallError::IoError(m) => "I/O error: "@ + m@,
        InstallError::ToolFailure(f) => f.program@ + " "@ + joined(strs(f.args@), " "@)
            + " failed: stdout='"@ + f.stdout@ + "' stderr='"@ + f.stderr@ + "'"@,
        InstallError::MissingDependency(m) => "Missing in target rootfs: "@ + m@,
        InstallError::PayloadMissing(p) => "Payload does not exist: "@ + p@,
        InstallError::UuidLookupFailed(d) => "blkid returned empty UUID for "@ + d@,
        InstallError::VerificationFailed(m) => "Verification failed: "@ + m@,
        InstallError::NoPartitionTool => "No partitioning tool available (need 'sfdisk' or 'parted')"@,
        InstallError::InvalidDiskPath(p) => "Invalid disk path: "@ + p@,
    }
}

impl InstallError {
    pub fn message(&self) -> (r: String)
        ensures
            r@ == error_text(*self),
    {
        match self {
            InstallError::NoEligibleDisk => owned("No eligible disks found"),
            InstallError::AmbiguousTarget(p) => {
                let j = join_strings(p, ", ");
                cat("Multiple eligible disks found (refusing to choose automatically): ", j.as_str())
            },
            InstallError::IoError(m) => cat("I/O error: ", m.as_str()),
            InstallError::ToolFailure(f) => {
                let mut r = cat(f.program.as_str(), " ");
                r.append(join_strings(&f.args, " ").as_str());
                r.append(" failed: stdout='");
                r.append(f.stdout.as_str());
                r.append("' stderr='");
                r.append(f.stderr.as_str());
                r.append("'");
                r
            },
            InstallError::MissingDependency(m) => cat("Missing in target rootfs: ", m.as_str()),
            InstallError::PayloadMissing(p) => cat("Payload does not exist: ", p.as_str()),
            InstallError::UuidLookupFailed(d) => cat("blkid returned empty UUID for ", d.as_str()),
            InstallError::VerificationFailed(m) => cat("Verification failed: ", m.as_str()),
            InstallError::NoPartitionTool => owned(
                "No partitioning tool available (need 'sfdisk' or 'parted')",
            ),
            InstallError::InvalidDiskPath(p) => cat("Invalid disk path: ", p.as_str()),
        }
    }
}

} // verus!
