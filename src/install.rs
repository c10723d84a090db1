//! Formatting, mounting and configuring the installed system.
//!
//! Each step is described as commands to run and files to write; the caller probes the target
//! where a step depends on what is there, and carries the actions out in order.
use vstd::prelude::*;
use vstd::string::*;
use crate::command::{actions_view, cmd_view, items_view, run_view, tool, Action, ActionView,
    InstallError, ToolCommand};
use crate::hosts::{hostname_text, hosts_text, render_hostname, render_hosts};
use crate::text::{join_path, owned, path_join};

verus! {

/// Where the new root file system and the EFI system partition are mounted; the second lies
/// inside the first.
#[derive(Debug, Clone)]
pub struct MountPlan {
    pub target_root: String,
    pub target_efi: String,
}

impl MountPlan {
    /// Root at `/mnt`, the EFI system partition at `/mnt/boot/efi`.
    pub fn default() -> (r: MountPlan)
        ensures
            r.target_root@ == "/mnt"@,
            r.target_efi@ == "/mnt/boot/efi"@,
    {
        MountPlan { target_root: owned("/mnt"), target_efi: owned("/mnt/boot/efi") }
    }
}

/// A FAT32 file system labelled `EFI` on the EFI system partition, then ext4 labelled `root`
/// on the root partition; either failure is fatal.
pub fn format_partitions(esp: &str, root: &str) -> (r: Vec<ToolCommand>)
    ensures
        r@.len() == 2,
        cmd_view(r@[0]) == ("mkfs.vfat"@, seq!["-F"@, "32"@, "-n"@, "EFI"@, esp@], None::<
            Seq<char>,
        >),
        cmd_view(r@[1]) == ("mkfs.ext4"@, seq!["-F"@, "-L"@, "root"@, root@], None::<Seq<char>>),
{
    let mut v: Vec<ToolCommand> = Vec::new();
    v.push(tool("mkfs.vfat", &["-F", "32", "-n", "EFI", esp]));
    v.push(tool("mkfs.ext4", &["-F", "-L", "root", root]));
    assert(items_view(["-F", "32", "-n", "EFI", esp]@) =~= seq!["-F"@, "32"@, "-n"@, "EFI"@, esp@]);
    assert(items_view(["-F", "-L", "root", root]@) =~= seq!["-F"@, "-L"@, "root"@, root@]);
    v
}

/// The root partition is mounted first; only then is the EFI mount point made, inside the
/// mounted root, and the EFI system partition mounted there.
pub open spec fn mount_steps(esp: Seq<char>, root: Seq<char>, plan: MountPlan) -> Seq<ActionView> {
    seq![
        ActionView::CreateDir(plan.target_root@),
        run_view("mount"@, seq!["-t"@, "ext4"@, root, plan.target_root@]),
        ActionView::CreateDir(plan.target_efi@),
        run_view("mount"@, seq!["-t"@, "vfat"@, esp, plan.target_efi@]),
    ]
}

pub fn mount_partitions(esp: &str, root: &str, plan: &MountPlan) -> (r: Vec<Action>)
    ensures
        actions_view(r@) == mount_steps(esp@, root@, *plan),
{
    let tr = plan.target_root.as_str();
    let te = plan.target_efi.as_str();
    let mut v: Vec<Action> = Vec::new();
    v.push(Action::CreateDir(owned(tr)));
    v.push(Action::Run(tool("mount", &["-t", "ext4", root, tr])));
    v.push(Action::CreateDir(owned(te)));
    v.push(Action::Run(tool("mount", &["-t", "vfat", esp, te])));
    assert(items_view(["-t", "ext4", root, tr]@) =~= seq!["-t"@, "ext4"@, root@, tr@]);
    assert(items_view(["-t", "vfat", esp, te]@) =~= seq!["-t"@, "vfat"@, esp@, te@]);
    assert(actions_view(v@) =~= mount_steps(esp@, root@, *plan));
    v
}

/// The archive is unpacked over the mounted root with `tar`, keeping permissions and
/// ownership; a missing archive is an error.
pub fn extract_rootfs_payload(payload: &str, target_root: &str, payload_exists: bool) -> (r:
    Result<ToolCommand, InstallError>)
    ensures
        r is Ok <==> payload_exists,
        r matches Err(e) ==> e matches InstallError::PayloadMissing(p) && p@ == payload@,
        r matches Ok(c) ==> cmd_view(c) == ("tar"@, seq![
            "--zstd"@,
            "-xpf"@,
            payload@,
            "-C"@,
            target_root@,
        ], None::<Seq<char>>),
{
    if !payload_exists {
        return Err(InstallError::PayloadMissing(owned(payload)));
    }
    let c = tool("tar", &["--zstd", "-xpf", payload, "-C", target_root]);
    assert(items_view(["--zstd", "-xpf", payload, "-C", target_root]@) =~= seq![
        "--zstd"@,
        "-xpf"@,
        payload@,
        "-C"@,
        target_root@,
    ]);
    Ok(c)
}

/// Flushes file-system buffers through the boot environment's `busybox`.
pub fn sync_disks() -> (r: ToolCommand)
    ensures
        cmd_view(r) == ("/bin/busybox"@, seq!["sync"@], None::<Seq<char>>),
{
    let c = tool("/bin/busybox", &["sync"]);
    assert(items_view(["sync"]@) =~= seq!["sync"@]);
    c
}

/// The EFI system partition is unmounted first (it lies inside the root), then the root.
pub fn unmount_target(plan: &MountPlan) -> (r: Vec<ToolCommand>)
    ensures
        r@.len() == 2,
        cmd_view(r@[0]) == ("umount"@, seq![plan.target_efi@], None::<Seq<char>>),
        cmd_view(r@[1]) == ("umount"@, seq![plan.target_root@], None::<Seq<char>>),
{
    let te = plan.target_efi.as_str();
    let tr = plan.target_root.as_str();
    let mut v: Vec<ToolCommand> = Vec::new();
    v.push(tool("umount", &[te]));
    v.push(tool("umount", &[tr]));
    assert(items_view([te]@) =~= seq![te@]);
    assert(items_view([tr]@) =~= seq![tr@]);
    v
}

/// `rel` inside the mounted root.
pub open spec fn in_root(plan: MountPlan, rel: Seq<char>) -> Seq<char> {
    path_join(plan.target_root@, rel)
}

/// `rel` inside the mounted EFI system partition.
pub open spec fn in_efi(plan: MountPlan, rel: Seq<char>) -> Seq<char> {
    path_join(plan.target_efi@, rel)
}

/// `/etc/hostname` holds the name; `/etc/hosts` is rewritten from its current contents
/// (empty when the file is absent).
pub open spec fn hostname_steps(plan: MountPlan, h: Seq<char>, existing: Seq<char>) -> Seq<
    ActionView,
> {
    seq![
        ActionView::CreateDir(in_root(plan, "etc"@)),
        ActionView::WriteFile(in_root(plan, "etc/hostname"@), hostname_text(h)),
        ActionView::WriteFile(in_root(plan, "etc/hosts"@), hosts_text(existing, h)),
    ]
}

pub fn configure_hostname(plan: &MountPlan, hostname: &str, existing_hosts: &str) -> (r: Vec<
    Action,
>)
    ensures
        actions_view(r@) == hostname_steps(*plan, hostname@, existing_hosts@),
{
    let root = plan.target_root.as_str();
    let mut v: Vec<Action> = Vec::new();
    v.push(Action::CreateDir(join_path(root, "etc")));
    v.push(Action::WriteFile(join_path(root, "etc/hostname"), render_hostname(hostname)));
    v.push(Action::WriteFile(join_path(root, "etc/hosts"), render_hosts(existing_hosts, hostname)));
    assert(actions_view(v@) =~= hostname_steps(*plan, hostname@, existing_hosts@));
    v
}

} // verus!
