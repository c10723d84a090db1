//! First-boot networking of the installed system: its machine identifier, a DHCP profile for
//! the network daemon, the daemon's enablement, and systemd as the init program.
use vstd::prelude::*;
use vstd::string::*;
use crate::command::{actions_view, Action, ActionView, InstallError};
use crate::install::{in_root, MountPlan};
use crate::text::{cat, has_infix, is_hex, join_path, owned, contains, trim, trim_bounds};

verus! {

/// The hexadecimal digits of `s`, in order.
pub open spec fn hex_digits(s: Seq<char>) -> Seq<char>
    decreases s.len(),
{
    if s.len() == 0 {
        Seq::empty()
    } else if is_hex(s.last()) {
        hex_digits(s.drop_last()).push(s.last())
    } else {
        hex_digits(s.drop_last())
    }
}

/// A machine identifier already in place: 32 hexadecimal digits, with whitespace around them.
pub open spec fn valid_machine_id(contents: Seq<char>) -> bool {
    let t = trim(contents);
    t.len() == 32 && forall|k: int| 0 <= k < 32 ==> is_hex(#[trigger] t[k])
}

fn is_hex_char(c: char) -> (r: bool)
    ensures
        r == is_hex(c),
{
    ('0' <= c && c <= '9') || ('a' <= c && c <= 'f') || ('A' <= c && c <= 'F')
}

pub fn is_valid_machine_id(contents: &str) -> (r: bool)
    ensures
        r == valid_machine_id(contents@),
{
    let (a, b) = trim_bounds(contents);
    if b - a != 32 {
        return false;
    }
    let t = contents.substring_char(a, b);
    let mut i: usize = 0;
    while i < 32
        invariant
            t@ == trim(contents@),
            t@.len() == 32,
            i <= 32,
            forall|k: int| 0 <= k < i ==> is_hex(#[trigger] t@[k]),
        decreases 32 - i,
    {
        if !is_hex_char(t.get_char(i)) {
            return false;
        }
        i = i + 1;
    }
    true
}

/// The identifier made from the kernel's random UUID: its first 32 hexadecimal digits.
pub fn machine_id_from_uuid(uuid: &str) -> (r: Option<String>)
    ensures
        r is Some <==> hex_digits(uuid@).len() >= 32,
        r matches Some(id) ==> id@ == hex_digits(uuid@).subrange(0, 32),
{
    let n = uuid.unicode_len();
    let mut acc = String::new();
    let mut i: usize = 0;
    while i < n
        invariant
            n == uuid@.len(),
            i <= n,
            acc@ == hex_digits(uuid@.subrange(0, i as int)),
        decreases n - i,
    {
        let c = uuid.get_char(i);
        proof {
            assert(uuid@.subrange(0, i + 1).drop_last() =~= uuid@.subrange(0, i as int));
        }
        if is_hex_char(c) {
            acc.append(uuid.substring_char(i, i + 1));
            proof {
                assert(uuid@.subrange(i as int, i + 1) =~= seq![c]);
            }
        }
        i = i + 1;
    }
    proof {
        assert(uuid@.subrange(0, n as int) =~= uuid@);
    }
    if acc.unicode_len() < 32 {
        return None;
    }
    Some(String::from_str(acc.as_str().substring_char(0, 32)))
}

/// The machine-identifier step. An identifier already in place is kept. Otherwise one is made
/// from the kernel's random UUID, written to `/etc/machine-id`, and the D-Bus copy replaced by
/// a link to it. An unreadable UUID source is an I/O error; one with too few hexadecimal digits
/// fails verification.
pub open spec fn machine_id_steps(plan: MountPlan, id: Seq<char>) -> Seq<ActionView> {
    seq![
        ActionView::CreateDir(in_root(plan, "etc"@)),
        ActionView::WriteFile(in_root(plan, "etc/machine-id"@), id.push('\n')),
        ActionView::CreateDir(in_root(plan, "var/lib/dbus"@)),
        ActionView::RemoveFile(in_root(plan, "var/lib/dbus/machine-id"@)),
        ActionView::Symlink("/etc/machine-id"@, in_root(plan, "var/lib/dbus/machine-id"@)),
    ]
}

pub open spec fn id_in_place(existing: Option<&str>) -> bool {
    match existing {
        Some(c) => valid_machine_id(c@),
        None => false,
    }
}

pub fn ensure_machine_id(plan: &MountPlan, existing: Option<&str>, kernel_uuid: Option<&str>) -> (r:
    Result<Vec<Action>, InstallError>)
    ensures
        id_in_place(existing) ==> (r matches Ok(v) && v@.len() == 0),
        !id_in_place(existing) ==> (match kernel_uuid {
            None => (r matches Err(e) && e is IoError),
            Some(u) => if hex_digits(u@).len() >= 32 {
                (r matches Ok(v) && actions_view(v@) == machine_id_steps(
                    *plan,
                    hex_digits(u@).subrange(0, 32),
                ))
            } else {
                (r matches Err(e) && e is VerificationFailed)
            },
        }),
{
    if let Some(c) = existing {
        if is_valid_machine_id(c) {
            return Ok(Vec::new());
        }
    }
    let u = match kernel_uuid {
        Some(u) => u,
        None => {
            return Err(InstallError::IoError(owned("/proc/sys/kernel/random/uuid")));
        },
    };
    let id = match machine_id_from_uuid(u) {
        Some(id) => id,
        None => {
            return Err(InstallError::VerificationFailed(owned(u)));
        },
    };
    let root = plan.target_root.as_str();
    let mut line = cat(id.as_str(), "\n");
    proof {
        reveal_strlit("\n");
        assert(line@ =~= id@.push('\n'));
    }
    let mut v: Vec<Action> = Vec::new();
    v.push(Action::CreateDir(join_path(root, "etc")));
    v.push(Action::WriteFile(join_path(root, "etc/machine-id"), line));
    v.push(Action::CreateDir(join_path(root, "var/lib/dbus")));
    v.push(Action::RemoveFile(join_path(root, "var/lib/dbus/machine-id")));
    v.push(Action::Symlink(owned("/etc/machine-id"), join_path(root, "var/lib/dbus/machine-id")));
    assert(actions_view(v@) =~= machine_id_steps(*plan, id@));
    Ok(v)
}

/// Where a unit file was found in the target: the system unit directory, the one under `/usr`,
/// or neither; and whether the enablement link is already there.
#[derive(Debug)]
pub struct UnitProbe {
    pub in_lib: bool,
    pub in_usr_lib: bool,
    pub link_exists: bool,
}

/// The unit file's path as the installed system sees it.
pub open spec fn unit_path(unit: Seq<char>, p: UnitProbe) -> Seq<char> {
    if p.in_lib {
        "/lib/systemd/system/"@ + unit
    } else {
        "/usr/lib/systemd/system/"@ + unit
    }
}

pub fn find_systemd_unit_file(unit: &str, probe: &UnitProbe) -> (r: Result<String, InstallError>)
    ensures
        r is Ok <==> probe.in_lib || probe.in_usr_lib,
        r matches Ok(p) ==> p@ == unit_path(unit@, *probe),
        r matches Err(e) ==> e matches InstallError::MissingDependency(m) && m@ == unit@,
{
    if probe.in_lib {
        Ok(cat("/lib/systemd/system/", unit))
    } else if probe.in_usr_lib {
        Ok(cat("/usr/lib/systemd/system/", unit))
    } else {
        Err(InstallError::MissingDependency(owned(unit)))
    }
}

pub open spec fn wants_dir() -> Seq<char> {
    "etc/systemd/system/multi-user.target.wants"@
}

/// Enabling a unit offline: the wants directory, then a link to the unit file unless one is
/// there already.
pub open spec fn enable_steps(plan: MountPlan, unit: Seq<char>, p: UnitProbe) -> Seq<ActionView> {
    let dir = in_root(plan, wants_dir());
    if p.link_exists {
        seq![ActionView::CreateDir(dir)]
    } else {
        seq![
            ActionView::CreateDir(dir),
            ActionView::Symlink(unit_path(unit, p), crate::text::path_join(dir, unit)),
        ]
    }
}

fn enable_systemd_unit(
    v: &mut Vec<Action>,
    plan: &MountPlan,
    unit: &str,
    probe: &UnitProbe,
) -> (r: Result<(), InstallError>)
    ensures
        r is Ok <==> probe.in_lib || probe.in_usr_lib,
        r matches Err(e) ==> e matches InstallError::MissingDependency(m) && m@ == unit@,
        r is Ok ==> actions_view(final(v)@) == actions_view(old(v)@) + enable_steps(
            *plan,
            unit@,
            *probe,
        ),
        r is Err ==> final(v)@ == old(v)@,
{
    let target = find_systemd_unit_file(unit, probe)?;
    let dir = join_path(plan.target_root.as_str(), "etc/systemd/system/multi-user.target.wants");
    let ghost before = v@;
    v.push(Action::CreateDir(owned(dir.as_str())));
    if !probe.link_exists {
        v.push(Action::Symlink(target, join_path(dir.as_str(), unit)));
    }
    assert(actions_view(v@) =~= actions_view(before) + enable_steps(*plan, unit@, *probe));
    Ok(())
}

pub open spec fn dhcp_profile() -> Seq<char> {
    "[Match]\nName=en* eth* wl* ww* usb*\n\n[Network]\nDHCP=yes\nIPv6AcceptRA=yes\n"@
}

/// The probes of the three units that the networking step enables.
#[derive(Debug)]
pub struct NetworkUnits {
    pub networkd: UnitProbe,
    pub wait_online: UnitProbe,
    pub resolved: UnitProbe,
}

pub open spec fn found(p: UnitProbe) -> bool {
    p.in_lib || p.in_usr_lib
}

/// The networking step: a catch-all DHCP profile for wired, wireless and USB interfaces; the
/// network daemon enabled (its absence is fatal); the wait-online and resolver units enabled
/// when present; and, with the resolver, `/etc/resolv.conf` pointed at its stub.
pub open spec fn network_steps(plan: MountPlan, u: NetworkUnits) -> Seq<ActionView> {
    seq![
        ActionView::CreateDir(in_root(plan, "etc/systemd/network"@)),
        ActionView::WriteFile(in_root(plan, "etc/systemd/network/20-dhcp.network"@), dhcp_profile()),
    ] + enable_steps(plan, "systemd-networkd.service"@, u.networkd) + (if found(u.wait_online) {
        enable_steps(plan, "systemd-networkd-wait-online.service"@, u.wait_online)
    } else {
        Seq::empty()
    }) + (if found(u.resolved) {
        enable_steps(plan, "systemd-resolved.service"@, u.resolved) + seq![
            ActionView::RemoveFile(in_root(plan, "etc/resolv.conf"@)),
            ActionView::Symlink(
                "/run/systemd/resolve/stub-resolv.conf"@,
                in_root(plan, "etc/resolv.conf"@),
            ),
        ]
    } else {
        Seq::empty()
    })
}

/// The actions of the networking step, and the optional units that were skipped because the
/// target lacks them.
pub fn configure_systemd_networkd_dhcp(plan: &MountPlan, units: &NetworkUnits) -> (r: Result<
    (Vec<Action>, Vec<String>),
    InstallError,
>)
    ensures
        r is Ok <==> found(units.networkd),
        r matches Err(e) ==> e matches InstallError::MissingDependency(m) && m@
            == "systemd-networkd.service"@,
        r matches Ok(p) ==> actions_view(p.0@) == network_steps(*plan, *units) && crate::command::strs(
            p.1@,
        ) == (if found(units.wait_online) {
            Seq::<Seq<char>>::empty()
        } else {
            seq!["systemd-networkd-wait-online.service"@]
        }) + (if found(units.resolved) {
            Seq::<Seq<char>>::empty()
        } else {
            seq!["systemd-resolved.service"@]
        }),
{
    let root = plan.target_root.as_str();
    let mut v: Vec<Action> = Vec::new();
    let mut skipped: Vec<String> = Vec::new();
    v.push(Action::CreateDir(join_path(root, "etc/systemd/network")));
    v.push(
        Action::WriteFile(
            join_path(root, "etc/systemd/network/20-dhcp.network"),
            owned("[Match]\nName=en* eth* wl* ww* usb*\n\n[Network]\nDHCP=yes\nIPv6AcceptRA=yes\n"),
        ),
    );
    let ghost s0 = actions_view(v@);
    assert(s0 =~= seq![
        ActionView::CreateDir(in_root(*plan, "etc/systemd/network"@)),
        ActionView::WriteFile(in_root(*plan, "etc/systemd/network/20-dhcp.network"@), dhcp_profile()),
    ]);
    enable_systemd_unit(&mut v, plan, "systemd-networkd.service", &units.networkd)?;
    let ghost s1 = actions_view(v@);
    if found_unit(&units.wait_online) {
        let _ = enable_systemd_unit(&mut v, plan, "systemd-networkd-wait-online.service", &units.wait_online);
    } else {
        skipped.push(owned("systemd-networkd-wait-online.service"));
    }
    let ghost a = if found(units.wait_online) {
        enable_steps(*plan, "systemd-networkd-wait-online.service"@, units.wait_online)
    } else {
        Seq::empty()
    };
    assert(actions_view(v@) =~= s1 + a);
    let ghost s2 = actions_view(v@);
    let ghost b = if found(units.resolved) {
        enable_steps(*plan, "systemd-resolved.service"@, units.resolved) + seq![
            ActionView::RemoveFile(in_root(*plan, "etc/resolv.conf"@)),
            ActionView::Symlink(
                "/run/systemd/resolve/stub-resolv.conf"@,
                in_root(*plan, "etc/resolv.conf"@),
            ),
        ]
    } else {
        Seq::empty()
    };
    if found_unit(&units.resolved) {
        let _ = enable_systemd_unit(&mut v, plan, "systemd-resolved.service", &units.resolved);
        let ghost s3 = actions_view(v@);
        v.push(Action::RemoveFile(join_path(root, "etc/resolv.conf")));
        v.push(
            Action::Symlink(
                owned("/run/systemd/resolve/stub-resolv.conf"),
                join_path(root, "etc/resolv.conf"),
            ),
        );
        assert(actions_view(v@) =~= s3 + seq![
            ActionView::RemoveFile(in_root(*plan, "etc/resolv.conf"@)),
            ActionView::Symlink(
                "/run/systemd/resolve/stub-resolv.conf"@,
                in_root(*plan, "etc/resolv.conf"@),
            ),
        ]);
        assert(actions_view(v@) =~= s2 + b);
    } else {
        skipped.push(owned("systemd-resolved.service"));
        assert(actions_view(v@) =~= s2 + b);
    }
    proof {
        assert(actions_view(v@) =~= network_steps(*plan, *units));
        assert(crate::command::strs(skipped@) =~= (if found(units.wait_online) {
            Seq::<Seq<char>>::empty()
        } else {
            seq!["systemd-networkd-wait-online.service"@]
        }) + (if found(units.resolved) {
            Seq::<Seq<char>>::empty()
        } else {
            seq!["systemd-resolved.service"@]
        }));
    }
    Ok((v, skipped))
}

fn found_unit(p: &UnitProbe) -> (r: bool)
    ensures
        r == found(*p),
{
    p.in_lib || p.in_usr_lib
}

/// What the target holds of its init program: where the systemd binary is, whether
/// `/sbin/init` exists, and where it links to when it is a link.
#[derive(Debug)]
pub struct InitProbe {
    pub systemd_in_lib: bool,
    pub systemd_in_usr_lib: bool,
    pub init_exists: bool,
    pub init_link: Option<String>,
}

/// Making systemd the init program: nothing when `/sbin/init` already links to systemd;
/// otherwise the old entry is removed (or its directory made) and a link to the systemd binary
/// put in its place. Without a systemd binary the step fails.
pub open spec fn links_to_systemd(l: Option<String>) -> bool {
    match l {
        Some(t) => has_infix(t@, "systemd"@),
        None => false,
    }
}

pub open spec fn pid1_steps(plan: MountPlan, p: InitProbe) -> Seq<ActionView> {
    let target = if p.systemd_in_lib {
        "/lib/systemd/systemd"@
    } else {
        "/usr/lib/systemd/systemd"@
    };
    let init = in_root(plan, "sbin/init"@);
    if p.init_exists {
        if links_to_systemd(p.init_link) {
            Seq::empty()
        } else {
            seq![ActionView::RemoveFile(init), ActionView::Symlink(target, init)]
        }
    } else {
        seq![ActionView::CreateDir(in_root(plan, "sbin"@)), ActionView::Symlink(target, init)]
    }
}

pub fn ensure_systemd_pid1(plan: &MountPlan, probe: &InitProbe) -> (r: Result<
    Vec<Action>,
    InstallError,
>)
    ensures
        r is Ok <==> probe.systemd_in_lib || probe.systemd_in_usr_lib,
        r matches Err(e) ==> e is MissingDependency,
        r matches Ok(v) ==> actions_view(v@) == pid1_steps(*plan, *probe),
{
    let target = if probe.systemd_in_lib {
        "/lib/systemd/systemd"
    } else if probe.systemd_in_usr_lib {
        "/usr/lib/systemd/systemd"
    } else {
        return Err(InstallError::MissingDependency(owned("/lib/systemd/systemd")));
    };
    let root = plan.target_root.as_str();
    let init = join_path(root, "sbin/init");
    let mut v: Vec<Action> = Vec::new();
    if probe.init_exists {
        if let Some(l) = &probe.init_link {
            if contains(l.as_str(), "systemd") {
                assert(actions_view(v@) =~= pid1_steps(*plan, *probe));
                return Ok(v);
            }
        }
        v.push(Action::RemoveFile(owned(init.as_str())));
    } else {
        v.push(Action::CreateDir(join_path(root, "sbin")));
    }
    v.push(Action::Symlink(owned(target), init));
    assert(actions_view(v@) =~= pid1_steps(*plan, *probe));
    Ok(v)
}

/// The fatal part of first-boot networking, in order: the machine identifier, then the DHCP
/// profile and unit enablement. Also returns the optional units that were skipped. Making
/// systemd the init program is separate (`ensure_systemd_pid1`) because its failure is only
/// a warning.
pub fn configure_first_boot_dhcp(
    plan: &MountPlan,
    existing_id: Option<&str>,
    kernel_uuid: Option<&str>,
    units: &NetworkUnits,
) -> (r: Result<(Vec<Action>, Vec<String>), InstallError>)
    ensures
        r is Ok <==> found(units.networkd) && (id_in_place(existing_id) || (kernel_uuid matches Some(
            u,
        ) && hex_digits(u@).len() >= 32)),
        r matches Ok(p) ==> actions_view(p.0@) == (if id_in_place(existing_id) {
            Seq::empty()
        } else {
            machine_id_steps(*plan, hex_digits(kernel_uuid->Some_0@).subrange(0, 32))
        }) + network_steps(*plan, *units),
{
    let mut v = ensure_machine_id(plan, existing_id, kernel_uuid)?;
    let ghost m = actions_view(v@);
    let (mut n, skipped) = configure_systemd_networkd_dhcp(plan, units)?;
    let ghost nv = actions_view(n@);
    v.append(&mut n);
    proof {
        assert(actions_view(v@) =~= m + nv);
    }
    Ok((v, skipped))
}

} // verus!
