//! The accounts of the installed system.
use vstd::prelude::*;
use vstd::string::*;
use crate::command::{cmd_view, items_view, tool, InstallError, ToolCommand};
use crate::install::{in_root, MountPlan};
use crate::text::{cat, has_prefix, join_path, lines_of, owned, split_lines, starts_with};

verus! {

/// The account made for the operator.
pub const INSTALL_USER: &'static str = "truthdb";

/// The first-boot password of that account and of root.
pub const INITIAL_PASSWORD: &'static str = "123456";

/// Which of the tools that the account step runs inside the target are present.
#[derive(Debug)]
pub struct UserTools {
    pub sudo: bool,
    pub groupadd: bool,
    pub useradd: bool,
    pub chpasswd: bool,
}

/// Paths, inside the mounted root, of `sudo`, `groupadd`, `useradd` and `chpasswd`.
pub open spec fn user_tool_rels() -> Seq<Seq<char>> {
    seq!["usr/bin/sudo"@, "usr/sbin/groupadd"@, "usr/sbin/useradd"@, "usr/sbin/chpasswd"@]
}

pub fn user_tool_paths(plan: &MountPlan) -> (r: Vec<String>)
    ensures
        r@.len() == 4,
        forall|k: int| 0 <= k < 4 ==> #[trigger] r@[k]@ == in_root(*plan, user_tool_rels()[k]),
{
    let root = plan.target_root.as_str();
    let mut v: Vec<String> = Vec::new();
    v.push(join_path(root, "usr/bin/sudo"));
    v.push(join_path(root, "usr/sbin/groupadd"));
    v.push(join_path(root, "usr/sbin/useradd"));
    v.push(join_path(root, "usr/sbin/chpasswd"));
    v
}

/// A line of the password database begins with `user:`.
pub open spec fn has_user(passwd: Seq<char>, user: Seq<char>) -> bool {
    exists|i: int|
        0 <= i < lines_of(passwd).len() && has_prefix(#[trigger] lines_of(passwd)[i], user + seq![':'])
}

pub fn target_user_exists(passwd: &str, user: &str) -> (r: bool)
    ensures
        r == has_user(passwd@, user@),
{
    let lines = split_lines(passwd);
    let key = cat(user, ":");
    proof {
        reveal_strlit(":");
    }
    let mut i: usize = 0;
    while i < lines.len()
        invariant
            lines@.len() == lines_of(passwd@).len(),
            forall|k: int| 0 <= k < lines@.len() ==> #[trigger] lines@[k]@ == lines_of(passwd@)[k],
            key@ == user@ + seq![':'],
            i <= lines@.len(),
            forall|k: int| 0 <= k < i ==> !has_prefix(#[trigger] lines_of(passwd@)[k], user@ + seq![':']),
        decreases lines@.len() - i,
    {
        if starts_with(lines[i].as_str(), key.as_str()) {
            return true;
        }
        i = i + 1;
    }
    false
}

/// A program run inside the mounted root.
pub open spec fn chroot_args(plan: MountPlan, program: Seq<char>, args: Seq<Seq<char>>) -> Seq<
    Seq<char>,
> {
    seq![plan.target_root@, program] + args
}

/// The commands of the account step, in order: make sure a `sudo` group exists; create the
/// operator account in it when the password database lacks it; then set the operator's and
/// root's passwords, each fed to `chpasswd` on standard input.
pub open spec fn user_commands(plan: MountPlan, user_present: bool) -> Seq<
    (Seq<char>, Seq<Seq<char>>, Option<Seq<char>>),
> {
    let groupadd = ("chroot"@, chroot_args(plan, "/usr/sbin/groupadd"@, seq!["-f"@, "sudo"@]), None);
    let useradd = (
        "chroot"@,
        chroot_args(
            plan,
            "/usr/sbin/useradd"@,
            seq!["-m"@, "-s"@, "/bin/bash"@, "-G"@, "sudo"@, "truthdb"@],
        ),
        None,
    );
    let pw_user = (
        "chroot"@,
        chroot_args(plan, "/usr/sbin/chpasswd"@, Seq::empty()),
        Some("truthdb"@ + seq![':'] + "123456"@ + seq!['\n']),
    );
    let pw_root = (
        "chroot"@,
        chroot_args(plan, "/usr/sbin/chpasswd"@, Seq::empty()),
        Some("root"@ + seq![':'] + "123456"@ + seq!['\n']),
    );
    if user_present {
        seq![groupadd, pw_user, pw_root]
    } else {
        seq![groupadd, useradd, pw_user, pw_root]
    }
}

fn chpasswd_for(root: &str, user: &str) -> (r: ToolCommand)
    ensures
        cmd_view(r) == ("chroot"@, seq![root@, "/usr/sbin/chpasswd"@], Some(
            user@ + seq![':'] + "123456"@ + seq!['\n'],
        )),
{
    let mut c = tool("chroot", &[root, "/usr/sbin/chpasswd"]);
    let mut input = cat(user, ":");
    input.append(INITIAL_PASSWORD);
    input.append("\n");
    proof {
        reveal_strlit(":");
        reveal_strlit("\n");
        assert(input@ =~= user@ + seq![':'] + "123456"@ + seq!['\n']);
    }
    c.stdin = Some(input);
    assert(items_view([root, "/usr/sbin/chpasswd"]@) =~= seq![root@, "/usr/sbin/chpasswd"@]);
    c
}

/// The account step. Without `sudo` or any of the account tools in the target it fails with
/// the path of the first one missing; an unreadable password database counts as one without
/// the operator account.
pub fn configure_initial_users(plan: &MountPlan, present: &UserTools, passwd: Option<&str>) -> (r:
    Result<Vec<ToolCommand>, InstallError>)
    ensures
        r is Ok <==> (present.sudo && present.groupadd && present.useradd && present.chpasswd),
        r matches Err(e) ==> e matches InstallError::MissingDependency(p) && p@ == in_root(
            *plan,
            user_tool_rels()[if !present.sudo {
                0int
            } else if !present.groupadd {
                1int
            } else if !present.useradd {
                2int
            } else {
                3int
            }],
        ),
        r matches Ok(v) ==> v@.map_values(|c: ToolCommand| cmd_view(c)) == user_commands(
            *plan,
            match passwd {
                Some(p) => has_user(p@, "truthdb"@),
                None => false,
            },
        ),
{
    let paths = user_tool_paths(plan);
    if !present.sudo {
        return Err(InstallError::MissingDependency(owned(paths[0].as_str())));
    }
    if !present.groupadd {
        return Err(InstallError::MissingDependency(owned(paths[1].as_str())));
    }
    if !present.useradd {
        return Err(InstallError::MissingDependency(owned(paths[2].as_str())));
    }
    if !present.chpasswd {
        return Err(InstallError::MissingDependency(owned(paths[3].as_str())));
    }
    let root = plan.target_root.as_str();
    let user_present = match passwd {
        Some(p) => target_user_exists(p, INSTALL_USER),
        None => false,
    };
    let mut v: Vec<ToolCommand> = Vec::new();
    v.push(tool("chroot", &[root, "/usr/sbin/groupadd", "-f", "sudo"]));
    assert(items_view([root, "/usr/sbin/groupadd", "-f", "sudo"]@) =~= chroot_args(
        *plan,
        "/usr/sbin/groupadd"@,
        seq!["-f"@, "sudo"@],
    ));
    if !user_present {
        v.push(
            tool(
                "chroot",
                &[root, "/usr/sbin/useradd", "-m", "-s", "/bin/bash", "-G", "sudo", INSTALL_USER],
            ),
        );
        assert(items_view(
            [root, "/usr/sbin/useradd", "-m", "-s", "/bin/bash", "-G", "sudo", INSTALL_USER]@,
        ) =~= chroot_args(
            *plan,
            "/usr/sbin/useradd"@,
            seq!["-m"@, "-s"@, "/bin/bash"@, "-G"@, "sudo"@, "truthdb"@],
        ));
    }
    v.push(chpasswd_for(root, INSTALL_USER));
    v.push(chpasswd_for(root, "root"));
    proof {
        assert(chroot_args(*plan, "/usr/sbin/chpasswd"@, Seq::empty()) =~= seq![
            root@,
            "/usr/sbin/chpasswd"@,
        ]);
        assert(v@.map_values(|c: ToolCommand| cmd_view(c)) =~= user_commands(*plan, user_present));
    }
    Ok(v)
}

} // verus!
