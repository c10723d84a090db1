//! The two-partition GPT layout (EFI system partition, then Linux root) and its device names.
use vstd::prelude::*;
use crate::command::{cmd_view, items_view, InstallError, ToolCommand};
use crate::text::{cat, has_infix, is_digit, occurs_at, owned};

verus! {

pub const EFI_SYSTEM_PARTITION_GUID: &'static str = "C12A7328-F81F-11D2-BA4B-00A0C93EC93B";

pub const LINUX_FILESYSTEM_GUID: &'static str = "0FC63DAF-8483-4772-8E79-3D69D8477DE4";

pub open spec fn esp_guid() -> Seq<char> {
    "C12A7328-F81F-11D2-BA4B-00A0C93EC93B"@
}

pub open spec fn linux_guid() -> Seq<char> {
    "0FC63DAF-8483-4772-8E79-3D69D8477DE4"@
}

/// The size of the EFI system partition; the root partition takes the rest of the disk.
#[derive(Debug, Clone, Copy)]
pub struct PartitionPlan {
    pub esp_size_mib: u64,
}

impl PartitionPlan {
    /// The usual layout: a 512 MiB EFI system partition.
    pub fn default() -> (r: PartitionPlan)
        ensures
            r.esp_size_mib == 512,
    {
        PartitionPlan { esp_size_mib: 512 }
    }
}

pub open spec fn digit_char(d: nat) -> char {
    if d == 0 {
        '0'
    } else if d == 1 {
        '1'
    } else if d == 2 {
        '2'
    } else if d == 3 {
        '3'
    } else if d == 4 {
        '4'
    } else if d == 5 {
        '5'
    } else if d == 6 {
        '6'
    } else if d == 7 {
        '7'
    } else if d == 8 {
        '8'
    } else {
        '9'
    }
}

/// The decimal digits of `n`, without leading zeros.
pub open spec fn decimal(n: nat) -> Seq<char>
    decreases n,
{
    if n < 10 {
        seq![digit_char(n)]
    } else {
        decimal(n / 10).push(digit_char(n % 10))
    }
}

fn digit_str(d: u128) -> (r: &'static str)
    requires
        d < 10,
    ensures
        r@ == seq![digit_char(d as nat)],
{
    proof {
        reveal_strlit("0");
        reveal_strlit("1");
        reveal_strlit("2");
        reveal_strlit("3");
        reveal_strlit("4");
        reveal_strlit("5");
        reveal_strlit("6");
        reveal_strlit("7");
        reveal_strlit("8");
        reveal_strlit("9");
    }
    if d == 0 {
        "0"
    } else if d == 1 {
        "1"
    } else if d == 2 {
        "2"
    } else if d == 3 {
        "3"
    } else if d == 4 {
        "4"
    } else if d == 5 {
        "5"
    } else if d == 6 {
        "6"
    } else if d == 7 {
        "7"
    } else if d == 8 {
        "8"
    } else {
        "9"
    }
}

/// `n` written in decimal.
pub fn decimal_string(n: u128) -> (r: String)
    ensures
        r@ == decimal(n as nat),
{
    let mut acc = String::new();
    let mut m = n;
    while m >= 10
        invariant
            decimal(n as nat) == decimal(m as nat) + acc@,
        decreases m,
    {
        let d = m % 10;
        let next = cat(digit_str(d), acc.as_str());
        proof {
            assert(decimal(m as nat) == decimal((m / 10) as nat).push(digit_char(d as nat)));
            assert(decimal((m / 10) as nat) + next@ =~= decimal(m as nat) + acc@);
        }
        acc = next;
        m = m / 10;
    }
    let r = cat(digit_str(m), acc.as_str());
    r
}

/// The input that `sfdisk` reads: a GPT label, the EFI system partition of the planned size,
/// then a Linux partition over the rest.
pub open spec fn sfdisk_script(esp_mib: nat) -> Seq<char> {
    "label: gpt\n\nsize="@ + decimal(esp_mib) + "MiB, type="@ + esp_guid() + "\ntype="@
        + linux_guid() + "\n"@
}

pub fn sfdisk_gpt_script(plan: PartitionPlan) -> (r: String)
    ensures
        r@ == sfdisk_script(plan.esp_size_mib as nat),
{
    let d = decimal_string(plan.esp_size_mib as u128);
    let mut r = owned("label: gpt\n\nsize=");
    r.append(d.as_str());
    r.append("MiB, type=");
    r.append(EFI_SYSTEM_PARTITION_GUID);
    r.append("\ntype=");
    r.append(LINUX_FILESYSTEM_GUID);
    r.append("\n");
    r
}

/// The script names both partition type GUIDs and the size of the EFI system partition.
pub proof fn lemma_script_names_types_and_size(esp_mib: nat)
    ensures
        has_infix(sfdisk_script(esp_mib), esp_guid()),
        has_infix(sfdisk_script(esp_mib), linux_guid()),
        has_infix(sfdisk_script(esp_mib), "size="@ + decimal(esp_mib) + "MiB"@),
{
    let a = "label: gpt\n\nsize="@;
    let d = decimal(esp_mib);
    let b = "MiB, type="@;
    let c = "\ntype="@;
    let s = sfdisk_script(esp_mib);
    reveal_strlit("label: gpt\n\nsize=");
    reveal_strlit("MiB, type=");
    reveal_strlit("\ntype=");
    reveal_strlit("size=");
    reveal_strlit("MiB");
    let i1: int = (a.len() + d.len() + b.len()) as int;
    assert(s.subrange(i1, i1 + esp_guid().len()) =~= esp_guid());
    assert(occurs_at(s, esp_guid(), i1));
    let i2: int = i1 + esp_guid().len() + c.len();
    assert(s.subrange(i2, i2 + linux_guid().len()) =~= linux_guid());
    assert(occurs_at(s, linux_guid(), i2));
    let p = "size="@ + d + "MiB"@;
    let i3: int = a.len() - 5;
    assert(s.subrange(i3, i3 + p.len()) =~= p);
    assert(occurs_at(s, p, i3));
}

/// The arguments that make `parted` write the same layout: the EFI system partition from
/// 1 MiB to `1 + esp` MiB with the `esp` flag, then root from there to the end of the disk.
pub open spec fn parted_args(disk: Seq<char>, esp_mib: nat) -> Seq<Seq<char>> {
    let end = decimal(esp_mib + 1) + "MiB"@;
    seq![
        "-s"@,
        disk,
        "mklabel"@,
        "gpt"@,
        "mkpart"@,
        "ESP"@,
        "fat32"@,
        "1MiB"@,
        end,
        "set"@,
        "1"@,
        "esp"@,
        "on"@,
        "mkpart"@,
        "root"@,
        "ext4"@,
        end,
        "100%"@,
    ]
}

pub fn wipefs_all(disk: &str) -> (r: ToolCommand)
    ensures
        cmd_view(r) == ("wipefs"@, seq!["-a"@, disk@], None::<Seq<char>>),
{
    let r = crate::command::tool("wipefs", &["-a", disk]);
    assert(items_view(["-a", disk]@) =~= seq!["-a"@, disk@]);
    r
}

fn sfdisk_command(disk: &str, plan: PartitionPlan) -> (r: ToolCommand)
    ensures
        cmd_view(r) == ("sfdisk"@, seq!["--label"@, "gpt"@, disk@], Some(
            sfdisk_script(plan.esp_size_mib as nat),
        )),
{
    let mut r = crate::command::tool("sfdisk", &["--label", "gpt", disk]);
    r.stdin = Some(sfdisk_gpt_script(plan));
    assert(items_view(["--label", "gpt", disk]@) =~= seq!["--label"@, "gpt"@, disk@]);
    r
}

pub fn partition_with_parted(disk: &str, plan: PartitionPlan) -> (r: ToolCommand)
    ensures
        cmd_view(r) == ("parted"@, parted_args(disk@, plan.esp_size_mib as nat), None::<
            Seq<char>,
        >),
{
    let end = cat(decimal_string(plan.esp_size_mib as u128 + 1).as_str(), "MiB");
    let e = end.as_str();
    let r = crate::command::tool(
        "parted",
        &[
            "-s",
            disk,
            "mklabel",
            "gpt",
            "mkpart",
            "ESP",
            "fat32",
            "1MiB",
            e,
            "set",
            "1",
            "esp",
            "on",
            "mkpart",
            "root",
            "ext4",
            e,
            "100%",
        ],
    );
    assert(items_view(
        [
            "-s",
            disk,
            "mklabel",
            "gpt",
            "mkpart",
            "ESP",
            "fat32",
            "1MiB",
            e,
            "set",
            "1",
            "esp",
            "on",
            "mkpart",
            "root",
            "ext4",
            e,
            "100%",
        ]@,
    ) =~= parted_args(disk@, plan.esp_size_mib as nat));
    r
}

/// The commands that lay the disk out: a wipe of existing signatures, then the partitioner.
/// `sfdisk` is preferred, with the layout as a script on its standard input; `parted` is
/// used when only it is present; with neither there is no way to partition.
pub fn partition_gpt_esp_root(
    disk: &str,
    plan: PartitionPlan,
    has_sfdisk: bool,
    has_parted: bool,
) -> (r: Result<Vec<ToolCommand>, InstallError>)
    ensures
        !has_sfdisk && !has_parted <==> r is Err,
        r matches Err(e) ==> e is NoPartitionTool,
        r matches Ok(v) ==> v@.len() == 2 && cmd_view(v@[0]) == ("wipefs"@, seq!["-a"@, disk@], None::<Seq<char>>)
            && (has_sfdisk ==> cmd_view(v@[1]) == ("sfdisk"@, seq!["--label"@, "gpt"@, disk@], Some(
            sfdisk_script(plan.esp_size_mib as nat),
        ))) && (!has_sfdisk ==> cmd_view(v@[1]) == ("parted"@, parted_args(
            disk@,
            plan.esp_size_mib as nat,
        ), None::<Seq<char>>)),
{
    if !has_sfdisk && !has_parted {
        return Err(InstallError::NoPartitionTool);
    }
    let mut v: Vec<ToolCommand> = Vec::new();
    v.push(wipefs_all(disk));
    if has_sfdisk {
        v.push(sfdisk_command(disk, plan));
    } else {
        v.push(partition_with_parted(disk, plan));
    }
    Ok(v)
}

/// After partitioning the kernel rereads the table through `partprobe` when it is present;
/// otherwise the caller waits a moment. Either way this step does not fail the install.
pub fn reread_partition_table(disk: &str, has_partprobe: bool) -> (r: Option<ToolCommand>)
    ensures
        has_partprobe <==> r is Some,
        r matches Some(c) ==> cmd_view(c) == ("partprobe"@, seq![disk@], None::<Seq<char>>),
{
    if has_partprobe {
        let c = crate::command::tool("partprobe", &[disk]);
        assert(items_view([disk]@) =~= seq![disk@]);
        Some(c)
    } else {
        None
    }
}

/// Whether `s[..j]` ends in a `.` component: a `.` at the start or after a slash.
pub open spec fn ends_in_dot_component(s: Seq<char>, j: int) -> bool {
    0 < j <= s.len() && s[j - 1] == '.' && (j == 1 || s[j - 2] == '/')
}

/// End of the last named component of `s[..j]`: trailing slashes and `.` components are
/// skipped, as `Path::file_name` skips them.
pub open spec fn slash_trim_end(s: Seq<char>, j: int) -> int
    decreases j,
{
    if j <= 0 || j > s.len() {
        j
    } else if s[j - 1] == '/' || ends_in_dot_component(s, j) {
        slash_trim_end(s, j - 1)
    } else {
        j
    }
}

/// Start of the path component that ends at `j`.
pub open spec fn component_start(s: Seq<char>, j: int) -> int
    decreases j,
{
    if j <= 0 || j > s.len() || s[j - 1] == '/' {
        j
    } else {
        component_start(s, j - 1)
    }
}

/// The last component of a device path (`/dev/sda` gives `sda`); trailing slashes and `.`
/// components are ignored.
pub open spec fn base_name(p: Seq<char>) -> Seq<char> {
    let e = slash_trim_end(p, p.len() as int);
    p.subrange(component_start(p, e), e)
}

pub open spec fn names_device(p: Seq<char>) -> bool {
    let n = base_name(p);
    n.len() > 0 && n != seq!['.', '.']
}

/// Partition `k` of the disk: the base name, a `p` when the name ends in a digit
/// (`nvme0n1p1`, `mmcblk0p1`), then the number.
pub open spec fn partition_path(disk: Seq<char>, k: Seq<char>) -> Seq<char> {
    let n = base_name(disk);
    "/dev/"@ + n + (if is_digit(n.last()) {
        seq!['p']
    } else {
        Seq::empty()
    }) + k
}

proof fn lemma_slash_trim_end(s: Seq<char>, j: int)
    requires
        0 <= j <= s.len(),
    ensures
        0 <= slash_trim_end(s, j) <= j,
    decreases j,
{
    if j > 0 && (s[j - 1] == '/' || ends_in_dot_component(s, j)) {
        lemma_slash_trim_end(s, j - 1);
    }
}

proof fn lemma_component_start(s: Seq<char>, j: int)
    requires
        0 <= j <= s.len(),
    ensures
        0 <= component_start(s, j) <= j,
    decreases j,
{
    if j > 0 && s[j - 1] != '/' {
        lemma_component_start(s, j - 1);
    }
}

/// The device paths of the two partitions of `disk`: the EFI system partition (1) and root (2).
/// A path with no named last component (empty, `/`, `.`) or whose last component is `..`
/// names no disk and is refused, as `Path::file_name` gives nothing for it.
pub fn expected_esp_and_root_partitions(disk: &str) -> (r: Result<(String, String), InstallError>)
    ensures
        r is Ok <==> names_device(disk@),
        r matches Ok(p) ==> p.0@ == partition_path(disk@, "1"@) && p.1@ == partition_path(
            disk@,
            "2"@,
        ),
        r matches Err(e) ==> e is InvalidDiskPath,
{
    let n = disk.unicode_len();
    let mut e: usize = n;
    while e > 0 && (disk.get_char(e - 1) == '/' || (disk.get_char(e - 1) == '.' && (e == 1
        || disk.get_char(e - 2) == '/')))
        invariant
            n == disk@.len(),
            e <= n,
            slash_trim_end(disk@, n as int) == slash_trim_end(disk@, e as int),
        decreases e,
    {
        e = e - 1;
    }
    let mut b: usize = e;
    while b > 0 && disk.get_char(b - 1) != '/'
        invariant
            n == disk@.len(),
            b <= e <= n,
            component_start(disk@, e as int) == component_start(disk@, b as int),
        decreases b,
    {
        b = b - 1;
    }
    let name = disk.substring_char(b, e);
    let len = e - b;
    proof {
        reveal_strlit(".");
        reveal_strlit("..");
        reveal_strlit("1");
        reveal_strlit("2");
        reveal_strlit("p");
        assert(name@ == base_name(disk@));
    }
    if len == 0 || (len == 2 && name.get_char(0) == '.' && name.get_char(1) == '.') {
        proof {
            if len == 2 {
                assert(name@ =~= seq!['.', '.']);
            }
        }
        return Err(InstallError::InvalidDiskPath(owned(disk)));
    }
    proof {
        if len == 2 {
            assert(name@ != seq!['.', '.']) by {
                assert(name@[0] != '.' || name@[1] != '.');
            }
        }
    }
    let last = name.get_char(len - 1);
    let sep = if '0' <= last && last <= '9' {
        "p"
    } else {
        ""
    };
    proof {
        reveal_strlit("");
    }
    let mut stem = cat("/dev/", name);
    stem.append(sep);
    let esp = cat(stem.as_str(), "1");
    let root = cat(stem.as_str(), "2");
    Ok((esp, root))
}

} // verus!
