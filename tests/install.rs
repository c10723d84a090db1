use truthdb_installer::command::{check_output, Action, InstallError, ToolCommand, ToolOutput};
use truthdb_installer::install::{
    extract_rootfs_payload, format_partitions, mount_partitions, sync_disks, unmount_target, MountPlan,
};
use truthdb_installer::power::{poweroff, reboot};

fn args(c: &ToolCommand) -> Vec<&str> {
    c.args.iter().map(|s| s.as_str()).collect()
}

#[test]
fn default_mount_points() {
    let plan = MountPlan::default();
    assert_eq!(plan.target_root, "/mnt");
    assert_eq!(plan.target_efi, "/mnt/boot/efi");
}

#[test]
fn formatting_commands() {
    let v = format_partitions("/dev/sda1", "/dev/sda2");
    assert_eq!(v[0].program, "mkfs.vfat");
    assert_eq!(args(&v[0]), vec!["-F", "32", "-n", "EFI", "/dev/sda1"]);
    assert_eq!(v[1].program, "mkfs.ext4");
    assert_eq!(args(&v[1]), vec!["-F", "-L", "root", "/dev/sda2"]);
}

#[test]
fn root_is_mounted_before_efi() {
    let plan = MountPlan::default();
    let v = mount_partitions("/dev/sda1", "/dev/sda2", &plan);
    assert_eq!(v.len(), 4);
    match (&v[0], &v[1], &v[2], &v[3]) {
        (Action::CreateDir(a), Action::Run(m1), Action::CreateDir(b), Action::Run(m2)) => {
            assert_eq!(a, "/mnt");
            assert_eq!(m1.program, "mount");
            assert_eq!(args(m1), vec!["-t", "ext4", "/dev/sda2", "/mnt"]);
            assert_eq!(b, "/mnt/boot/efi");
            assert_eq!(args(m2), vec!["-t", "vfat", "/dev/sda1", "/mnt/boot/efi"]);
        }
        other => panic!("unexpected {:?}", other),
    }
}

#[test]
fn unmount_efi_then_root() {
    let v = unmount_target(&MountPlan::default());
    assert_eq!(v[0].program, "umount");
    assert_eq!(args(&v[0]), vec!["/mnt/boot/efi"]);
    assert_eq!(args(&v[1]), vec!["/mnt"]);
}

#[test]
fn payload_extraction() {
    let c = extract_rootfs_payload("/payload/rootfs.tar.zst", "/mnt", true).unwrap();
    assert_eq!(c.program, "tar");
    assert_eq!(args(&c), vec!["--zstd", "-xpf", "/payload/rootfs.tar.zst", "-C", "/mnt"]);
    match extract_rootfs_payload("/payload/rootfs.tar.zst", "/mnt", false) {
        Err(InstallError::PayloadMissing(p)) => assert_eq!(p, "/payload/rootfs.tar.zst"),
        other => panic!("unexpected {:?}", other),
    }
}

#[test]
fn sync_uses_busybox() {
    let c = sync_disks();
    assert_eq!(c.program, "/bin/busybox");
    assert_eq!(args(&c), vec!["sync"]);
}

#[test]
fn tool_failure_carries_status_and_streams() {
    let c = sync_disks();
    let ok = ToolOutput { success: true, status: Some(0), stdout: String::new(), stderr: String::new() };
    assert!(check_output(&c, &ok).is_ok());
    let bad = ToolOutput {
        success: false,
        status: Some(2),
        stdout: "out".to_string(),
        stderr: "no such applet".to_string(),
    };
    let err = check_output(&c, &bad).unwrap_err();
    assert_eq!(err.message(), "/bin/busybox sync failed: stdout='out' stderr='no such applet'");
    match err {
        InstallError::ToolFailure(f) => {
            assert_eq!(f.program, "/bin/busybox");
            assert_eq!(f.args, vec!["sync".to_string()]);
            assert_eq!(f.status, Some(2));
            assert_eq!(f.stdout, "out");
            assert_eq!(f.stderr, "no such applet");
        }
        other => panic!("unexpected {:?}", other),
    }
}

#[test]
fn power_requests_are_accepted() {
    assert!(reboot().is_ok());
    assert!(poweroff().is_ok());
}

#[test]
fn error_messages() {
    assert_eq!(InstallError::NoEligibleDisk.message(), "No eligible disks found");
    assert_eq!(
        InstallError::NoPartitionTool.message(),
        "No partitioning tool available (need 'sfdisk' or 'parted')"
    );
    assert_eq!(InstallError::PayloadMissing("/p".to_string()).message(), "Payload does not exist: /p");
    assert_eq!(
        InstallError::AmbiguousTarget(vec!["/dev/sda".to_string(), "/dev/sdb".to_string()]).message(),
        "Multiple eligible disks found (refusing to choose automatically): /dev/sda, /dev/sdb"
    );
}

#[test]
fn failures_name_what_the_tool_worked_on() {
    let bad = ToolOutput { success: false, status: Some(1), stdout: String::new(), stderr: "busy".to_string() };
    let plan = MountPlan::default();
    let um = unmount_target(&plan);
    let err = check_output(&um[0], &bad).unwrap_err();
    assert!(err.message().contains("/mnt/boot/efi"));
    let fm = format_partitions("/dev/sda1", "/dev/sda2");
    assert!(check_output(&fm[1], &bad).unwrap_err().message().contains("/dev/sda2"));
    let tar = extract_rootfs_payload("/payload/rootfs.tar.zst", "/mnt", true).unwrap();
    let msg = check_output(&tar, &bad).unwrap_err().message();
    assert!(msg.contains("/payload/rootfs.tar.zst"));
    assert!(msg.contains("-C /mnt"));
}
