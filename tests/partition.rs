use truthdb_installer::command::InstallError;
use truthdb_installer::partition::{
    decimal_string, expected_esp_and_root_partitions, partition_gpt_esp_root, partition_with_parted,
    reread_partition_table, sfdisk_gpt_script, wipefs_all, PartitionPlan, EFI_SYSTEM_PARTITION_GUID,
    LINUX_FILESYSTEM_GUID,
};

#[test]
fn sfdisk_script_contains_expected_types() {
    let script = sfdisk_gpt_script(PartitionPlan { esp_size_mib: 512 });
    assert!(script.contains("label: gpt"));
    assert!(script.contains(EFI_SYSTEM_PARTITION_GUID));
    assert!(script.contains(LINUX_FILESYSTEM_GUID));
    assert!(script.contains("size=512MiB"));
}

#[test]
fn expected_partition_paths_for_sda() {
    let (esp, root) = expected_esp_and_root_partitions("/dev/sda").unwrap();
    assert_eq!(esp, "/dev/sda1");
    assert_eq!(root, "/dev/sda2");
}

#[test]
fn expected_partition_paths_for_nvme() {
    let (esp, root) = expected_esp_and_root_partitions("/dev/nvme0n1").unwrap();
    assert_eq!(esp, "/dev/nvme0n1p1");
    assert_eq!(root, "/dev/nvme0n1p2");
}

#[test]
fn partition_paths_for_mmc_and_trailing_slash() {
    let (esp, root) = expected_esp_and_root_partitions("/dev/mmcblk0/").unwrap();
    assert_eq!(esp, "/dev/mmcblk0p1");
    assert_eq!(root, "/dev/mmcblk0p2");
    let (esp, root) = expected_esp_and_root_partitions("/dev/sda/.").unwrap();
    assert_eq!(esp, "/dev/sda1");
    assert_eq!(root, "/dev/sda2");
    let (esp, root) = expected_esp_and_root_partitions("/dev/./vdb/./").unwrap();
    assert_eq!(esp, "/dev/vdb1");
    assert_eq!(root, "/dev/vdb2");
    let (esp, root) = expected_esp_and_root_partitions("vda").unwrap();
    assert_eq!(esp, "/dev/vda1");
    assert_eq!(root, "/dev/vda2");
}

#[test]
fn partition_paths_refuse_pathless_input() {
    for p in ["", "/", "/dev/..", ".", "./", "/."] {
        match expected_esp_and_root_partitions(p) {
            Err(InstallError::InvalidDiskPath(x)) => assert_eq!(x, p),
            other => panic!("unexpected {:?}", other),
        }
    }
}

#[test]
fn sfdisk_script_is_exact_for_other_sizes() {
    let script = sfdisk_gpt_script(PartitionPlan { esp_size_mib: 1024 });
    assert_eq!(
        script,
        "label: gpt\n\nsize=1024MiB, type=C12A7328-F81F-11D2-BA4B-00A0C93EC93B\ntype=0FC63DAF-8483-4772-8E79-3D69D8477DE4\n"
    );
    let script = sfdisk_gpt_script(PartitionPlan { esp_size_mib: 0 });
    assert!(script.contains("size=0MiB"));
}

#[test]
fn default_plan_is_512_mib() {
    assert_eq!(PartitionPlan::default().esp_size_mib, 512);
}

#[test]
fn decimal_rendering() {
    assert_eq!(decimal_string(0), "0");
    assert_eq!(decimal_string(7), "7");
    assert_eq!(decimal_string(513), "513");
    assert_eq!(decimal_string(18446744073709551616), "18446744073709551616");
}

#[test]
fn sfdisk_is_preferred_and_wipe_comes_first() {
    let v = partition_gpt_esp_root("/dev/vda", PartitionPlan { esp_size_mib: 512 }, true, true).unwrap();
    assert_eq!(v.len(), 2);
    assert_eq!(v[0].program, "wipefs");
    assert_eq!(v[0].args, vec!["-a".to_string(), "/dev/vda".to_string()]);
    assert_eq!(v[1].program, "sfdisk");
    assert_eq!(v[1].args, vec!["--label".to_string(), "gpt".to_string(), "/dev/vda".to_string()]);
    assert_eq!(v[1].stdin.as_deref(), Some(sfdisk_gpt_script(PartitionPlan { esp_size_mib: 512 }).as_str()));
}

#[test]
fn parted_is_used_without_sfdisk() {
    let v = partition_gpt_esp_root("/dev/sda", PartitionPlan { esp_size_mib: 512 }, false, true).unwrap();
    assert_eq!(v[1].program, "parted");
    let expected: Vec<String> = [
        "-s", "/dev/sda", "mklabel", "gpt", "mkpart", "ESP", "fat32", "1MiB", "513MiB", "set", "1", "esp", "on",
        "mkpart", "root", "ext4", "513MiB", "100%",
    ]
    .iter()
    .map(|s| s.to_string())
    .collect();
    assert_eq!(v[1].args, expected);
    assert_eq!(partition_with_parted("/dev/sda", PartitionPlan { esp_size_mib: 512 }).args, expected);
}

#[test]
fn no_partitioner_is_an_error() {
    match partition_gpt_esp_root("/dev/sda", PartitionPlan { esp_size_mib: 512 }, false, false) {
        Err(InstallError::NoPartitionTool) => {}
        other => panic!("unexpected {:?}", other),
    }
}

#[test]
fn wipe_and_reread_commands() {
    let w = wipefs_all("/dev/sdb");
    assert_eq!(w.program, "wipefs");
    assert_eq!(w.args, vec!["-a".to_string(), "/dev/sdb".to_string()]);
    let r = reread_partition_table("/dev/sdb", true).unwrap();
    assert_eq!(r.program, "partprobe");
    assert_eq!(r.args, vec!["/dev/sdb".to_string()]);
    assert!(reread_partition_table("/dev/sdb", false).is_none());
}
