use truthdb_installer::command::InstallError;
use truthdb_installer::disks::{
    is_candidate_name, is_device_mounted, mount_source_of, parse_attr_u64, BlockDevice, DiskScanner,
};

fn device(name: &str, removable: &str, size: &str, model: Option<&str>) -> BlockDevice {
    BlockDevice {
        name: name.to_string(),
        has_device: true,
        removable: Some(removable.to_string()),
        read_only: Some("0\n".to_string()),
        size: Some(size.to_string()),
        model: model.map(|m| m.to_string()),
    }
}

fn make_scanner() -> DiskScanner {
    // 1 MiB threshold for tests.
    DiskScanner::new("/sys", "/proc", 1024 * 1024)
}

#[test]
fn one_disk_is_eligible() {
    let entries = vec![device("vda", "0\n", "4096\n", Some("UTM Disk\n"))];
    let scanner = make_scanner();
    let disks = scanner.eligible_disks(&entries, "");
    assert_eq!(disks.len(), 1);
    assert_eq!(disks[0].name, "vda");
    assert_eq!(disks[0].dev_path, "/dev/vda");
    assert_eq!(disks[0].model.as_deref(), Some("UTM Disk"));
    assert_eq!(disks[0].size_bytes, 4096 * 512);
    let chosen = scanner.choose_single_target_disk(&entries, "").unwrap();
    assert_eq!(chosen.dev_path, "/dev/vda");
}

#[test]
fn multiple_disks_is_error() {
    let entries = vec![device("vdb", "0\n", "4096\n", None), device("vda", "0\n", "4096\n", None)];
    let scanner = make_scanner();
    let err = scanner.choose_single_target_disk(&entries, "").unwrap_err();
    let msg = err.message();
    assert!(msg.contains("Multiple eligible disks"));
    assert!(msg.contains("/dev/vda"));
    assert!(msg.contains("/dev/vdb"));
    match err {
        InstallError::AmbiguousTarget(paths) => {
            assert_eq!(paths, vec!["/dev/vda".to_string(), "/dev/vdb".to_string()])
        }
        other => panic!("unexpected {:?}", other),
    }
}

#[test]
fn removable_disk_is_excluded() {
    let entries = vec![device("vda", "1\n", "4096\n", None)];
    let scanner = make_scanner();
    let disks = scanner.eligible_disks(&entries, "");
    assert_eq!(disks.len(), 0);
}

#[test]
fn no_disk_is_error() {
    let scanner = make_scanner();
    match scanner.choose_single_target_disk(&Vec::new(), "") {
        Err(InstallError::NoEligibleDisk) => {}
        other => panic!("unexpected {:?}", other),
    }
}

#[test]
fn virtual_devices_are_excluded_and_order_is_by_name() {
    let entries = vec![
        device("loop0", "0\n", "4096\n", None),
        device("ram0", "0\n", "4096\n", None),
        device("sr0", "0\n", "4096\n", None),
        device("fd0", "0\n", "4096\n", None),
        device("dm-0", "0\n", "4096\n", None),
        device("md0", "0\n", "4096\n", None),
        device("sdb", "0\n", "4096\n", None),
        device("nvme0n1", "0\n", "4096\n", None),
        device("sda", "0\n", "4096\n", None),
        device("xvda", "0\n", "4096\n", None),
    ];
    let disks = make_scanner().eligible_disks(&entries, "");
    let names: Vec<&str> = disks.iter().map(|d| d.name.as_str()).collect();
    assert_eq!(names, vec!["nvme0n1", "sda", "sdb"]);
}

#[test]
fn unreadable_or_bad_attributes_make_only_that_device_ineligible() {
    let mut no_size = device("sda", "0\n", "4096\n", None);
    no_size.size = None;
    let mut ro = device("sdb", "0\n", "4096\n", None);
    ro.read_only = Some("1\n".to_string());
    let mut no_backing = device("sdc", "0\n", "4096\n", None);
    no_backing.has_device = false;
    let mut no_removable = device("sdd", "0\n", "4096\n", None);
    no_removable.removable = None;
    let small = device("sde", "0\n", "2047\n", None);
    let good = device("sdf", "0\n", "2048\n", None);
    let entries = vec![no_size, ro, no_backing, no_removable, small, good];
    let disks = make_scanner().eligible_disks(&entries, "");
    assert_eq!(disks.len(), 1);
    assert_eq!(disks[0].name, "sdf");
    assert_eq!(disks[0].size_bytes, 1024 * 1024);
}

#[test]
fn mounted_disk_or_partition_is_excluded() {
    let mountinfo = "22 1 8:1 / / rw,relatime shared:1 - ext4 /dev/sda1 rw\n\
                     23 1 0:5 / /proc rw - proc proc rw\n";
    let entries = vec![device("sda", "0\n", "4096\n", None), device("sdb", "0\n", "4096\n", None)];
    let disks = make_scanner().eligible_disks(&entries, mountinfo);
    assert_eq!(disks.len(), 1);
    assert_eq!(disks[0].name, "sdb");
    assert!(is_device_mounted(mountinfo, "sda"));
    assert!(!is_device_mounted(mountinfo, "sdb"));
}

#[test]
fn mount_source_is_second_word_after_separator() {
    assert_eq!(
        mount_source_of("36 35 98:0 /mnt1 /mnt2 rw,noatime master:1 - ext3 /dev/root rw,errors=continue"),
        Some("/dev/root".to_string())
    );
    assert_eq!(mount_source_of("no separator here"), None);
    assert_eq!(mount_source_of("1 2 - ext4"), None);
}

#[test]
fn attribute_parsing() {
    assert_eq!(parse_attr_u64("4096\n"), Some(4096));
    assert_eq!(parse_attr_u64("  +12 "), Some(12));
    assert_eq!(parse_attr_u64("18446744073709551615"), Some(u64::MAX));
    assert_eq!(parse_attr_u64("18446744073709551616"), None);
    assert_eq!(parse_attr_u64(""), None);
    assert_eq!(parse_attr_u64("+"), None);
    assert_eq!(parse_attr_u64("12a"), None);
    assert_eq!(parse_attr_u64("-1"), None);
}

#[test]
fn huge_sector_count_saturates() {
    let entries = vec![device("sda", "0\n", "18446744073709551615\n", None)];
    let disks = make_scanner().eligible_disks(&entries, "");
    assert_eq!(disks[0].size_bytes, u64::MAX);
}

#[test]
fn candidate_names() {
    assert!(is_candidate_name("sda"));
    assert!(is_candidate_name("vdb"));
    assert!(is_candidate_name("nvme0n1"));
    assert!(!is_candidate_name("loop3"));
    assert!(!is_candidate_name("mmcblk0"));
    assert!(!is_candidate_name("md127"));
}

#[test]
fn scanner_paths_and_defaults() {
    let s = DiskScanner::new_default();
    assert_eq!(s.min_size_bytes(), 8 * 1024 * 1024 * 1024);
    assert_eq!(s.block_dir(), "/sys/block");
    assert_eq!(s.mountinfo_path(), "/proc/self/mountinfo");
    let t = DiskScanner::new("/tmp/x/sys/", "/tmp/x/proc", 1);
    assert_eq!(t.block_dir(), "/tmp/x/sys/block");
    assert_eq!(t.mountinfo_path(), "/tmp/x/proc/self/mountinfo");
}
