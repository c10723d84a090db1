//! The boot setup of the installed system: `/etc/fstab`, systemd-boot on the EFI system
//! partition with the newest kernel, and a firmware boot entry.
use vstd::prelude::*;
use vstd::string::*;
use crate::command::{actions_view, cmd_view, failure_of, is_failure_of, items_view, strs, tool,
    Action, ActionView, InstallError, ToolCommand, ToolOutput};
use crate::install::{in_efi, in_root, MountPlan};
use crate::text::{cat, contains, has_infix, has_prefix, join_path, lemma_lex_order, lex_less,
    lex_lt, owned, path_join, starts_with, trim, trimmed};

verus! {

pub open spec fn blkid_args(dev: Seq<char>) -> Seq<Seq<char>> {
    seq!["-s"@, "UUID"@, "-o"@, "value"@, dev]
}

/// Asks `blkid` for the file-system UUID of a partition.
pub fn blkid_command(dev: &str) -> (r: ToolCommand)
    ensures
        cmd_view(r) == ("blkid"@, blkid_args(dev@), None::<Seq<char>>),
{
    let c = tool("blkid", &["-s", "UUID", "-o", "value", dev]);
    assert(items_view(["-s", "UUID", "-o", "value", dev]@) =~= seq![
        "-s"@,
        "UUID"@,
        "-o"@,
        "value"@,
        dev@,
    ]);
    c
}

/// The UUID that `blkid` printed for `dev`: a failed run is a tool failure, an empty answer a
/// failed lookup.
pub fn blkid_uuid(dev: &str, out: &ToolOutput) -> (r: Result<String, InstallError>)
    ensures
        !out.success ==> (r matches Err(e) && is_failure_of(e, "blkid"@, blkid_args(dev@), *out)),
        out.success && trim(out.stdout@).len() == 0 ==> (r matches Err(e) && e matches InstallError::UuidLookupFailed(d) && d@ == dev@),
        out.success && trim(out.stdout@).len() > 0 ==> (r matches Ok(u) && u@ == trim(out.stdout@)),
{
    if !out.success {
        return Err(failure_of(&blkid_command(dev), out));
    }
    let u = trimmed(out.stdout.as_str());
    if u.unicode_len() == 0 {
        return Err(InstallError::UuidLookupFailed(owned(dev)));
    }
    Ok(u)
}

pub open spec fn fstab_text(root_uuid: Seq<char>, esp_uuid: Seq<char>) -> Seq<char> {
    "# /etc/fstab: static file system information.\nUUID="@ + root_uuid
        + " / ext4 defaults 0 1\nUUID="@ + esp_uuid + " /boot/efi vfat umask=0077 0 1\n"@
}

pub fn fstab_contents(root_uuid: &str, esp_uuid: &str) -> (r: String)
    ensures
        r@ == fstab_text(root_uuid@, esp_uuid@),
{
    let mut r = cat("# /etc/fstab: static file system information.\nUUID=", root_uuid);
    r.append(" / ext4 defaults 0 1\nUUID=");
    r.append(esp_uuid);
    r.append(" /boot/efi vfat umask=0077 0 1\n");
    r
}

pub open spec fn loader_conf_text() -> Seq<char> {
    "default debian.conf\ntimeout 0\nconsole-mode keep\n"@
}

pub open spec fn boot_entry_text(linux: Seq<char>, initrd: Seq<char>, root_uuid: Seq<char>) -> Seq<
    char,
> {
    "title   Debian (TruthDB)\nlinux   "@ + linux + "\ninitrd  "@ + initrd
        + "\noptions root=UUID="@ + root_uuid + " rw init=/lib/systemd/systemd\n"@
}

pub fn boot_entry_contents(linux: &str, initrd: &str, root_uuid: &str) -> (r: String)
    ensures
        r@ == boot_entry_text(linux@, initrd@, root_uuid@),
{
    let mut r = cat("title   Debian (TruthDB)\nlinux   ", linux);
    r.append("\ninitrd  ");
    r.append(initrd);
    r.append("\noptions root=UUID=");
    r.append(root_uuid);
    r.append(" rw init=/lib/systemd/systemd\n");
    r
}

/// `name` is the greatest of the names in `names` that begin with `prefix`.
pub open spec fn is_latest(names: Seq<Seq<char>>, prefix: Seq<char>, name: Seq<char>) -> bool {
    &&& exists|i: int| 0 <= i < names.len() && names[i] == name
    &&& has_prefix(name, prefix)
    &&& forall|i: int|
        0 <= i < names.len() && has_prefix(#[trigger] names[i], prefix) ==> !lex_lt(name, names[i])
}

pub open spec fn has_named(names: Seq<Seq<char>>, prefix: Seq<char>) -> bool {
    exists|i: int| 0 <= i < names.len() && has_prefix(#[trigger] names[i], prefix)
}

/// The greatest name with the given prefix, by string order.
pub fn latest_with_prefix(names: &Vec<String>, prefix: &str) -> (r: Option<String>)
    ensures
        r is Some <==> has_named(strs(names@), prefix@),
        r matches Some(n) ==> is_latest(strs(names@), prefix@, n@),
{
    let ghost ns = strs(names@);
    let mut best: Option<usize> = None;
    let mut i: usize = 0;
    while i < names.len()
        invariant
            ns == strs(names@),
            i <= names@.len(),
            best matches Some(b) ==> b < i && has_prefix(ns[b as int], prefix@) && forall|k: int|
                0 <= k < i && has_prefix(#[trigger] ns[k], prefix@) ==> !lex_lt(ns[b as int], ns[k]),
            best is None ==> forall|k: int| 0 <= k < i ==> !has_prefix(#[trigger] ns[k], prefix@),
        decreases names@.len() - i,
    {
        if starts_with(names[i].as_str(), prefix) {
            match best {
                Some(b) => {
                    if lex_less(names[b].as_str(), names[i].as_str()) {
                        proof {
                            assert forall|k: int|
                                0 <= k <= i && has_prefix(#[trigger] ns[k], prefix@) implies !lex_lt(
                                ns[i as int],
                                ns[k],
                            ) by {
                                lemma_lex_order(ns[i as int], ns[b as int], ns[k]);
                                lemma_lex_order(ns[b as int], ns[i as int], ns[k]);
                                lemma_lex_order(ns[i as int], ns[k], ns[b as int]);
                                lemma_lex_order(ns[k], ns[b as int], ns[i as int]);
                            }
                        }
                        best = Some(i);
                    }
                },
                None => {
                    proof {
                        lemma_lex_order(ns[i as int], ns[i as int], ns[i as int]);
                    }
                    best = Some(i);
                },
            }
        }
        i = i + 1;
    }
    match best {
        Some(b) => Some(owned(names[b].as_str())),
        None => None,
    }
}

/// The paths on the EFI system partition that a bootable installation needs.
pub open spec fn esp_files() -> Seq<Seq<char>> {
    seq![
        "EFI/BOOT/BOOTX64.EFI"@,
        "EFI/systemd/systemd-bootx64.efi"@,
        "loader/loader.conf"@,
        "loader/entries/debian.conf"@,
        "EFI/debian/vmlinuz"@,
        "EFI/debian/initrd.img"@,
    ]
}

pub fn esp_required_files(plan: &MountPlan) -> (r: Vec<String>)
    ensures
        r@.len() == 6,
        forall|k: int| 0 <= k < 6 ==> #[trigger] r@[k]@ == in_efi(*plan, esp_files()[k]),
{
    let e = plan.target_efi.as_str();
    let mut v: Vec<String> = Vec::new();
    v.push(join_path(e, "EFI/BOOT/BOOTX64.EFI"));
    v.push(join_path(e, "EFI/systemd/systemd-bootx64.efi"));
    v.push(join_path(e, "loader/loader.conf"));
    v.push(join_path(e, "loader/entries/debian.conf"));
    v.push(join_path(e, "EFI/debian/vmlinuz"));
    v.push(join_path(e, "EFI/debian/initrd.img"));
    v
}

/// Whether the probe says the `k`th required file is present; a short probe says it is not.
pub open spec fn reported_present(present: Seq<bool>, k: int) -> bool {
    k < present.len() && present[k]
}

/// The layout check: every required file is present, or the first missing one is named.
pub fn verify_esp_layout(plan: &MountPlan, present: &Vec<bool>) -> (r: Result<(), InstallError>)
    ensures
        r is Ok <==> forall|k: int| 0 <= k < 6 ==> #[trigger] reported_present(present@, k),
        r matches Err(e) ==> e matches InstallError::VerificationFailed(p) && exists|k: int|
            0 <= k < 6 && !reported_present(present@, k) && p@ == in_efi(*plan, esp_files()[k])
                && forall|j: int| 0 <= j < k ==> #[trigger] reported_present(present@, j),
{
    let paths = esp_required_files(plan);
    let mut i: usize = 0;
    while i < 6
        invariant
            paths@.len() == 6,
            forall|k: int| 0 <= k < 6 ==> #[trigger] paths@[k]@ == in_efi(*plan, esp_files()[k]),
            i <= 6,
            forall|j: int| 0 <= j < i ==> #[trigger] reported_present(present@, j),
        decreases 6 - i,
    {
        if i >= present.len() || !present[i] {
            assert(!reported_present(present@, i as int));
            return Err(InstallError::VerificationFailed(owned(paths[i].as_str())));
        }
        i = i + 1;
    }
    Ok(())
}

/// Where the boot loader binary is found in the boot environment.
pub open spec fn loader_source() -> Seq<char> {
    "/usr/lib/systemd/boot/efi/systemd-bootx64.efi"@
}

/// The files of the boot step, in order: `/etc/fstab` with both UUIDs; the loader binary at the
/// firmware's fallback path and at systemd's; the kernel and initrd under `EFI/debian`; the
/// loader configuration and one boot entry that names them and the root UUID.
pub open spec fn boot_steps(
    plan: MountPlan,
    root_uuid: Seq<char>,
    esp_uuid: Seq<char>,
    kernel: Seq<char>,
    initrd: Seq<char>,
) -> Seq<ActionView> {
    seq![
        ActionView::CreateDir(in_root(plan, "etc"@)),
        ActionView::WriteFile(in_root(plan, "etc/fstab"@), fstab_text(root_uuid, esp_uuid)),
        ActionView::CreateDir(in_efi(plan, "EFI/BOOT"@)),
        ActionView::Copy(loader_source(), in_efi(plan, "EFI/BOOT/BOOTX64.EFI"@)),
        ActionView::CreateDir(in_efi(plan, "EFI/systemd"@)),
        ActionView::Copy(loader_source(), in_efi(plan, "EFI/systemd/systemd-bootx64.efi"@)),
        ActionView::CreateDir(in_efi(plan, "EFI/debian"@)),
        ActionView::Copy(path_join(in_root(plan, "boot"@), kernel), in_efi(plan, "EFI/debian/vmlinuz"@)),
        ActionView::Copy(
            path_join(in_root(plan, "boot"@), initrd),
            in_efi(plan, "EFI/debian/initrd.img"@),
        ),
        ActionView::CreateDir(in_efi(plan, "loader/entries"@)),
        ActionView::WriteFile(in_efi(plan, "loader/loader.conf"@), loader_conf_text()),
        ActionView::WriteFile(
            in_efi(plan, "loader/entries/debian.conf"@),
            boot_entry_text("/EFI/debian/vmlinuz"@, "/EFI/debian/initrd.img"@, root_uuid),
        ),
    ]
}

/// What the boot step found before it writes anything: the `blkid` answers for both
/// partitions, whether the loader binary is present, and the names under the target's `/boot`
/// (`None` when that directory could not be read). The root lookup comes first: a caller
/// checks its answer with `blkid_uuid`, which fails exactly as this step does, before it asks
/// for the EFI system partition's UUID.
#[derive(Debug)]
pub struct BootProbe {
    pub root_blkid: ToolOutput,
    pub esp_blkid: ToolOutput,
    pub loader_present: bool,
    pub boot_names: Option<Vec<String>>,
}

/// The boot step. Both UUIDs are looked up first, and every check is made, before any action
/// is returned: a failed lookup yields no action at all, so nothing reaches the EFI system
/// partition.
pub fn configure_boot_systemd_boot(plan: &MountPlan, root_dev: &str, esp_dev: &str, probe: &BootProbe) -> (r:
    Result<Vec<Action>, InstallError>)
    ensures
        !probe.root_blkid.success ==> (r matches Err(e) && is_failure_of(e, "blkid"@, blkid_args(root_dev@), probe.root_blkid)),
        (probe.root_blkid.success && trim(probe.root_blkid.stdout@).len() == 0) ==> (r matches Err(e)
            && e is UuidLookupFailed),
        r is Ok <==> (probe.root_blkid.success && trim(probe.root_blkid.stdout@).len() > 0
            && probe.esp_blkid.success && trim(probe.esp_blkid.stdout@).len() > 0
            && probe.loader_present && (probe.boot_names matches Some(ns) && has_named(
            strs(ns@),
            "vmlinuz-"@,
        ) && has_named(strs(ns@), "initrd.img-"@))),
        r matches Ok(v) ==> (probe.boot_names matches Some(ns) && exists|k: Seq<char>, i: Seq<char>|
            is_latest(strs(ns@), "vmlinuz-"@, k) && is_latest(strs(ns@), "initrd.img-"@, i)
                && actions_view(v@) == boot_steps(
                *plan,
                trim(probe.root_blkid.stdout@),
                trim(probe.esp_blkid.stdout@),
                k,
                i,
            )),
{
    let root_uuid = blkid_uuid(root_dev, &probe.root_blkid)?;
    let esp_uuid = blkid_uuid(esp_dev, &probe.esp_blkid)?;
    if !probe.loader_present {
        return Err(
            InstallError::MissingDependency(owned("/usr/lib/systemd/boot/efi/systemd-bootx64.efi")),
        );
    }
    let names = match &probe.boot_names {
        Some(ns) => ns,
        None => {
            return Err(InstallError::IoError(join_path(plan.target_root.as_str(), "boot")));
        },
    };
    let kernel = match latest_with_prefix(names, "vmlinuz-") {
        Some(k) => k,
        None => {
            return Err(InstallError::MissingDependency(owned("vmlinuz-*")));
        },
    };
    let initrd = match latest_with_prefix(names, "initrd.img-") {
        Some(i) => i,
        None => {
            return Err(InstallError::MissingDependency(owned("initrd.img-*")));
        },
    };
    let root = plan.target_root.as_str();
    let efi = plan.target_efi.as_str();
    let src = "/usr/lib/systemd/boot/efi/systemd-bootx64.efi";
    let boot = join_path(root, "boot");
    let mut v: Vec<Action> = Vec::new();
    v.push(Action::CreateDir(join_path(root, "etc")));
    v.push(Action::WriteFile(join_path(root, "etc/fstab"), fstab_contents(root_uuid.as_str(), esp_uuid.as_str())));
    v.push(Action::CreateDir(join_path(efi, "EFI/BOOT")));
    v.push(Action::Copy(owned(src), join_path(efi, "EFI/BOOT/BOOTX64.EFI")));
    v.push(Action::CreateDir(join_path(efi, "EFI/systemd")));
    v.push(Action::Copy(owned(src), join_path(efi, "EFI/systemd/systemd-bootx64.efi")));
    v.push(Action::CreateDir(join_path(efi, "EFI/debian")));
    v.push(Action::Copy(join_path(boot.as_str(), kernel.as_str()), join_path(efi, "EFI/debian/vmlinuz")));
    v.push(Action::Copy(join_path(boot.as_str(), initrd.as_str()), join_path(efi, "EFI/debian/initrd.img")));
    v.push(Action::CreateDir(join_path(efi, "loader/entries")));
    v.push(Action::WriteFile(join_path(efi, "loader/loader.conf"), owned("default debian.conf\ntimeout 0\nconsole-mode keep\n")));
    v.push(
        Action::WriteFile(
            join_path(efi, "loader/entries/debian.conf"),
            boot_entry_contents("/EFI/debian/vmlinuz", "/EFI/debian/initrd.img", root_uuid.as_str()),
        ),
    );
    assert(actions_view(v@) =~= boot_steps(*plan, root_uuid@, esp_uuid@, kernel@, initrd@));
    Ok(v)
}

pub open spec fn efibootmgr_args(disk: Seq<char>) -> Seq<Seq<char>> {
    seq![
        "-c"@,
        "-d"@,
        disk,
        "-p"@,
        "1"@,
        "-L"@,
        "Debian (TruthDB)"@,
        "-l"@,
        "\\\\EFI\\\\systemd\\\\systemd-bootx64.efi"@,
    ]
}

/// Registers systemd-boot with the firmware, on partition 1 of the disk.
pub fn efibootmgr_command(disk: &str) -> (r: ToolCommand)
    ensures
        cmd_view(r) == ("efibootmgr"@, efibootmgr_args(disk@), None::<Seq<char>>),
{
    let c = tool(
        "efibootmgr",
        &[
            "-c",
            "-d",
            disk,
            "-p",
            "1",
            "-L",
            "Debian (TruthDB)",
            "-l",
            "\\\\EFI\\\\systemd\\\\systemd-bootx64.efi",
        ],
    );
    assert(items_view(
        [
            "-c",
            "-d",
            disk,
            "-p",
            "1",
            "-L",
            "Debian (TruthDB)",
            "-l",
            "\\\\EFI\\\\systemd\\\\systemd-bootx64.efi",
        ]@,
    ) =~= seq![
        "-c"@,
        "-d"@,
        disk@,
        "-p"@,
        "1"@,
        "-L"@,
        "Debian (TruthDB)"@,
        "-l"@,
        "\\\\EFI\\\\systemd\\\\systemd-bootx64.efi"@,
    ]);
    c
}

/// Firmware refusals that leave the fallback loader in charge: variables unsupported or
/// read-only, or the write not permitted.
pub open spec fn tolerated_refusal(stderr: Seq<char>) -> bool {
    has_infix(stderr, "EFI variables are not supported"@) || has_infix(
        stderr,
        "Could not prepare boot variable"@,
    ) || has_infix(stderr, "Operation not permitted"@) || has_infix(stderr, "Read-only file system"@)
}

/// The outcome of the firmware registration: success, or a tolerated refusal, passes; any
/// other failure is fatal.
pub fn check_boot_entry_registration(disk: &str, out: &ToolOutput) -> (r: Result<(), InstallError>)
    ensures
        r is Ok <==> (out.success || tolerated_refusal(out.stderr@)),
        r matches Err(e) ==> is_failure_of(e, "efibootmgr"@, efibootmgr_args(disk@), *out),
{
    if out.success {
        return Ok(());
    }
    let err = out.stderr.as_str();
    if contains(err, "EFI variables are not supported") || contains(err, "Could not prepare boot variable")
        || contains(err, "Operation not permitted") || contains(err, "Read-only file system") {
        return Ok(());
    }
    Err(failure_of(&efibootmgr_command(disk), out))
}

/// The end of the boot step, after its actions were carried out: the EFI system partition must
/// hold every required file, then the firmware registration (`None` when the machine did not
/// boot through UEFI, so none was attempted) must have succeeded or been refused for a
/// tolerated reason. Any other outcome is fatal.
pub fn finish_boot_setup(
    plan: &MountPlan,
    disk: &str,
    present: &Vec<bool>,
    registration: Option<&ToolOutput>,
) -> (r: Result<(), InstallError>)
    ensures
        r is Ok <==> (forall|k: int| 0 <= k < 6 ==> #[trigger] reported_present(present@, k)) && (
        match registration {
            Some(out) => out.success || tolerated_refusal(out.stderr@),
            None => true,
        }),
        !(forall|k: int| 0 <= k < 6 ==> #[trigger] reported_present(present@, k)) ==> (
        r matches Err(e) && e is VerificationFailed),
        (forall|k: int| 0 <= k < 6 ==> #[trigger] reported_present(present@, k)) ==> (
        r matches Err(e) ==> registration matches Some(out) && is_failure_of(
            e,
            "efibootmgr"@,
            efibootmgr_args(disk@),
            *out,
        )),
{
    verify_esp_layout(plan, present)?;
    match registration {
        Some(out) => check_boot_entry_registration(disk, out),
        None => Ok(()),
    }
}

} // verus!
