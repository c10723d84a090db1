use truthdb_installer::command::{Action, InstallError, ToolOutput};
use truthdb_installer::boot::{
    blkid_command, blkid_uuid, boot_entry_contents, check_boot_entry_registration, configure_boot_systemd_boot,
    efibootmgr_command, esp_required_files, finish_boot_setup, fstab_contents, latest_with_prefix,
    verify_esp_layout, BootProbe,
};
use truthdb_installer::install::MountPlan;
use truthdb_installer::network::{
    configure_first_boot_dhcp, configure_systemd_networkd_dhcp, ensure_machine_id, ensure_systemd_pid1,
    find_systemd_unit_file, is_valid_machine_id, machine_id_from_uuid, InitProbe, NetworkUnits, UnitProbe,
};
use truthdb_installer::users::{configure_initial_users, target_user_exists, UserTools};
use truthdb_installer::input::{key_event_char, key_to_char, KEY_ENTER, KEY_Q, KEY_SPACE};

fn out(success: bool, stdout: &str, stderr: &str) -> ToolOutput {
    ToolOutput { success, status: Some(if success { 0 } else { 1 }), stdout: stdout.to_string(), stderr: stderr.to_string() }
}

fn all_tools() -> UserTools {
    UserTools { sudo: true, groupadd: true, useradd: true, chpasswd: true }
}

fn unit(in_lib: bool, in_usr_lib: bool, link_exists: bool) -> UnitProbe {
    UnitProbe { in_lib, in_usr_lib, link_exists }
}

#[test]
fn users_step_creates_missing_account() {
    let plan = MountPlan::default();
    let v = configure_initial_users(&plan, &all_tools(), Some("root:x:0:0::/root:/bin/bash\n")).unwrap();
    assert_eq!(v.len(), 4);
    assert!(v.iter().all(|c| c.program == "chroot"));
    assert_eq!(v[0].args, vec!["/mnt", "/usr/sbin/groupadd", "-f", "sudo"]);
    assert_eq!(v[1].args, vec!["/mnt", "/usr/sbin/useradd", "-m", "-s", "/bin/bash", "-G", "sudo", "truthdb"]);
    assert_eq!(v[2].args, vec!["/mnt", "/usr/sbin/chpasswd"]);
    assert_eq!(v[2].stdin.as_deref(), Some("truthdb:123456\n"));
    assert_eq!(v[3].stdin.as_deref(), Some("root:123456\n"));
    assert!(v.iter().all(|c| !c.args.iter().any(|a| a.contains("123456"))));
}

#[test]
fn users_step_keeps_existing_account() {
    let plan = MountPlan::default();
    let passwd = "root:x:0:0::/root:/bin/bash\ntruthdb:x:1000:1000::/home/truthdb:/bin/bash\n";
    let v = configure_initial_users(&plan, &all_tools(), Some(passwd)).unwrap();
    assert_eq!(v.len(), 3);
    assert_eq!(v[1].args, vec!["/mnt", "/usr/sbin/chpasswd"]);
    assert!(target_user_exists(passwd, "truthdb"));
    assert!(!target_user_exists("truthdbx:x:1\n", "truthdb"));
    let v = configure_initial_users(&plan, &all_tools(), None).unwrap();
    assert_eq!(v.len(), 4);
}

#[test]
fn users_step_needs_sudo_and_tools() {
    let plan = MountPlan::default();
    let mut t = all_tools();
    t.sudo = false;
    t.useradd = false;
    match configure_initial_users(&plan, &t, None) {
        Err(InstallError::MissingDependency(p)) => assert_eq!(p, "/mnt/usr/bin/sudo"),
        other => panic!("unexpected {:?}", other),
    }
    let mut t = all_tools();
    t.chpasswd = false;
    match configure_initial_users(&plan, &t, None) {
        Err(InstallError::MissingDependency(p)) => assert_eq!(p, "/mnt/usr/sbin/chpasswd"),
        other => panic!("unexpected {:?}", other),
    }
}

#[test]
fn machine_id_derivation() {
    assert_eq!(
        machine_id_from_uuid("6f1c2d3e-4a5b-4c6d-8e9f-0a1b2c3d4e5f\n"),
        Some("6f1c2d3e4a5b4c6d8e9f0a1b2c3d4e5f".to_string())
    );
    assert_eq!(machine_id_from_uuid("abc-def"), None);
    assert!(is_valid_machine_id("6f1c2d3e4a5b4c6d8e9f0a1b2c3d4e5f\n"));
    assert!(!is_valid_machine_id("uninitialized\n"));
    assert!(!is_valid_machine_id("6f1c2d3e4a5b4c6d8e9f0a1b2c3d4e5g\n"));
}

#[test]
fn machine_id_step() {
    let plan = MountPlan::default();
    let kept = ensure_machine_id(&plan, Some("6f1c2d3e4a5b4c6d8e9f0a1b2c3d4e5f\n"), None).unwrap();
    assert!(kept.is_empty());
    let v = ensure_machine_id(&plan, Some(""), Some("6f1c2d3e-4a5b-4c6d-8e9f-0a1b2c3d4e5f")).unwrap();
    assert_eq!(v.len(), 5);
    match &v[1] {
        Action::WriteFile(p, c) => {
            assert_eq!(p, "/mnt/etc/machine-id");
            assert_eq!(c, "6f1c2d3e4a5b4c6d8e9f0a1b2c3d4e5f\n");
        }
        other => panic!("unexpected {:?}", other),
    }
    match &v[4] {
        Action::Symlink(t, l) => {
            assert_eq!(t, "/etc/machine-id");
            assert_eq!(l, "/mnt/var/lib/dbus/machine-id");
        }
        other => panic!("unexpected {:?}", other),
    }
    assert!(matches!(ensure_machine_id(&plan, None, None), Err(InstallError::IoError(_))));
    assert!(matches!(ensure_machine_id(&plan, None, Some("xyz")), Err(InstallError::VerificationFailed(_))));
}

#[test]
fn unit_lookup() {
    assert_eq!(find_systemd_unit_file("a.service", &unit(true, true, false)).unwrap(), "/lib/systemd/system/a.service");
    assert_eq!(
        find_systemd_unit_file("a.service", &unit(false, true, false)).unwrap(),
        "/usr/lib/systemd/system/a.service"
    );
    assert!(matches!(
        find_systemd_unit_file("a.service", &unit(false, false, false)),
        Err(InstallError::MissingDependency(_))
    ));
}

#[test]
fn networking_step() {
    let plan = MountPlan::default();
    let units = NetworkUnits {
        networkd: unit(true, false, false),
        wait_online: unit(false, false, false),
        resolved: unit(false, true, true),
    };
    let (v, skipped) = configure_systemd_networkd_dhcp(&plan, &units).unwrap();
    assert_eq!(skipped, vec!["systemd-networkd-wait-online.service".to_string()]);
    match &v[1] {
        Action::WriteFile(p, c) => {
            assert_eq!(p, "/mnt/etc/systemd/network/20-dhcp.network");
            assert!(c.contains("DHCP=yes"));
            assert!(c.contains("Name=en* eth* wl* ww* usb*"));
        }
        other => panic!("unexpected {:?}", other),
    }
    match &v[3] {
        Action::Symlink(t, l) => {
            assert_eq!(t, "/lib/systemd/system/systemd-networkd.service");
            assert_eq!(l, "/mnt/etc/systemd/system/multi-user.target.wants/systemd-networkd.service");
        }
        other => panic!("unexpected {:?}", other),
    }
    // resolved: link already there, so only the wants directory, then resolv.conf.
    assert_eq!(v.len(), 7);
    match &v[6] {
        Action::Symlink(t, l) => {
            assert_eq!(t, "/run/systemd/resolve/stub-resolv.conf");
            assert_eq!(l, "/mnt/etc/resolv.conf");
        }
        other => panic!("unexpected {:?}", other),
    }
    let missing = NetworkUnits {
        networkd: unit(false, false, false),
        wait_online: unit(true, false, false),
        resolved: unit(true, false, false),
    };
    assert!(matches!(
        configure_systemd_networkd_dhcp(&plan, &missing),
        Err(InstallError::MissingDependency(_))
    ));
    let (all, _) = configure_first_boot_dhcp(&plan, Some("6f1c2d3e4a5b4c6d8e9f0a1b2c3d4e5f"), None, &units).unwrap();
    assert_eq!(all.len(), v.len());
}

#[test]
fn init_link() {
    let plan = MountPlan::default();
    let already = InitProbe {
        systemd_in_lib: true,
        systemd_in_usr_lib: false,
        init_exists: true,
        init_link: Some("/lib/systemd/systemd".to_string()),
    };
    assert!(ensure_systemd_pid1(&plan, &already).unwrap().is_empty());
    let sysv = InitProbe { systemd_in_lib: false, systemd_in_usr_lib: true, init_exists: true, init_link: None };
    let v = ensure_systemd_pid1(&plan, &sysv).unwrap();
    assert_eq!(v.len(), 2);
    match &v[1] {
        Action::Symlink(t, l) => {
            assert_eq!(t, "/usr/lib/systemd/systemd");
            assert_eq!(l, "/mnt/sbin/init");
        }
        other => panic!("unexpected {:?}", other),
    }
    let none = InitProbe { systemd_in_lib: false, systemd_in_usr_lib: false, init_exists: false, init_link: None };
    assert!(ensure_systemd_pid1(&plan, &none).is_err());
}

#[test]
fn uuid_lookup() {
    let c = blkid_command("/dev/sda2");
    assert_eq!(c.program, "blkid");
    assert_eq!(c.args, vec!["-s", "UUID", "-o", "value", "/dev/sda2"]);
    assert_eq!(blkid_uuid("/dev/sda2", &out(true, "  1234-abcd\n", "")).unwrap(), "1234-abcd");
    assert!(matches!(blkid_uuid("/dev/sda2", &out(true, "\n", "")), Err(InstallError::UuidLookupFailed(_))));
    assert!(matches!(blkid_uuid("/dev/sda2", &out(false, "", "boom")), Err(InstallError::ToolFailure(_))));
}

#[test]
fn boot_files_text() {
    assert_eq!(
        fstab_contents("R", "E"),
        "# /etc/fstab: static file system information.\nUUID=R / ext4 defaults 0 1\nUUID=E /boot/efi vfat umask=0077 0 1\n"
    );
    assert_eq!(
        boot_entry_contents("/EFI/debian/vmlinuz", "/EFI/debian/initrd.img", "R"),
        "title   Debian (TruthDB)\nlinux   /EFI/debian/vmlinuz\ninitrd  /EFI/debian/initrd.img\noptions root=UUID=R rw init=/lib/systemd/systemd\n"
    );
}

#[test]
fn newest_kernel_is_chosen() {
    let names: Vec<String> = ["config-6.1.0-9", "vmlinuz-6.1.0-9", "vmlinuz-6.1.0-13", "initrd.img-6.1.0-9", "grub"]
        .iter()
        .map(|s| s.to_string())
        .collect();
    assert_eq!(latest_with_prefix(&names, "vmlinuz-"), Some("vmlinuz-6.1.0-9".to_string()));
    assert_eq!(latest_with_prefix(&names, "initrd.img-"), Some("initrd.img-6.1.0-9".to_string()));
    assert_eq!(latest_with_prefix(&names, "System.map-"), None);
}

fn probe(root_ok: bool) -> BootProbe {
    BootProbe {
        root_blkid: if root_ok { out(true, "ROOT-UUID\n", "") } else { out(false, "", "blkid: error") },
        esp_blkid: out(true, "ESP-UUID\n", ""),
        loader_present: true,
        boot_names: Some(vec!["vmlinuz-6.1.0-13".to_string(), "initrd.img-6.1.0-13".to_string()]),
    }
}

#[test]
fn root_uuid_failure_writes_nothing() {
    let plan = MountPlan::default();
    let r = configure_boot_systemd_boot(&plan, "/dev/sda2", "/dev/sda1", &probe(false));
    match r {
        Err(InstallError::ToolFailure(f)) => {
            assert_eq!(f.program, "blkid");
            assert_eq!(f.args.last().map(|s| s.as_str()), Some("/dev/sda2"));
            assert_eq!(f.stderr, "blkid: error");
        }
        other => panic!("unexpected {:?}", other),
    }
}

#[test]
fn boot_step_actions() {
    let plan = MountPlan::default();
    let v = configure_boot_systemd_boot(&plan, "/dev/sda2", "/dev/sda1", &probe(true)).unwrap();
    assert_eq!(v.len(), 12);
    match &v[1] {
        Action::WriteFile(p, c) => {
            assert_eq!(p, "/mnt/etc/fstab");
            assert_eq!(c, &fstab_contents("ROOT-UUID", "ESP-UUID"));
        }
        other => panic!("unexpected {:?}", other),
    }
    match &v[7] {
        Action::Copy(f, t) => {
            assert_eq!(f, "/mnt/boot/vmlinuz-6.1.0-13");
            assert_eq!(t, "/mnt/boot/efi/EFI/debian/vmlinuz");
        }
        other => panic!("unexpected {:?}", other),
    }
    let mut no_loader = probe(true);
    no_loader.loader_present = false;
    assert!(matches!(
        configure_boot_systemd_boot(&plan, "/dev/sda2", "/dev/sda1", &no_loader),
        Err(InstallError::MissingDependency(_))
    ));
    let mut no_kernel = probe(true);
    no_kernel.boot_names = Some(vec!["initrd.img-6.1.0-13".to_string()]);
    assert!(configure_boot_systemd_boot(&plan, "/dev/sda2", "/dev/sda1", &no_kernel).is_err());
}

#[test]
fn esp_layout_check() {
    let plan = MountPlan::default();
    let files = esp_required_files(&plan);
    assert_eq!(files[0], "/mnt/boot/efi/EFI/BOOT/BOOTX64.EFI");
    assert!(verify_esp_layout(&plan, &vec![true; 6]).is_ok());
    let mut present = vec![true; 6];
    present[4] = false;
    match verify_esp_layout(&plan, &present) {
        Err(InstallError::VerificationFailed(p)) => assert_eq!(p, "/mnt/boot/efi/EFI/debian/vmlinuz"),
        other => panic!("unexpected {:?}", other),
    }
    match verify_esp_layout(&plan, &vec![true; 3]) {
        Err(InstallError::VerificationFailed(p)) => assert_eq!(p, "/mnt/boot/efi/loader/entries/debian.conf"),
        other => panic!("unexpected {:?}", other),
    }
}

#[test]
fn firmware_registration() {
    let c = efibootmgr_command("/dev/sda");
    assert_eq!(c.program, "efibootmgr");
    assert_eq!(c.args[2], "/dev/sda");
    assert!(check_boot_entry_registration("/dev/sda", &out(true, "", "")).is_ok());
    assert!(check_boot_entry_registration(
        "/dev/sda",
        &out(false, "", "EFI variables are not supported on this system.")
    )
    .is_ok());
    assert!(check_boot_entry_registration("/dev/sda", &out(false, "", "Read-only file system")).is_ok());
    match check_boot_entry_registration("/dev/sda", &out(false, "", "Invalid argument")) {
        Err(InstallError::ToolFailure(f)) => {
            assert_eq!(f.program, "efibootmgr");
            assert_eq!(f.args[2], "/dev/sda");
        }
        other => panic!("unexpected {:?}", other),
    }
}

#[test]
fn boot_setup_completion() {
    let plan = MountPlan::default();
    let all = vec![true; 6];
    assert!(finish_boot_setup(&plan, "/dev/sda", &all, None).is_ok());
    assert!(finish_boot_setup(&plan, "/dev/sda", &all, Some(&out(false, "", "Operation not permitted"))).is_ok());
    assert!(matches!(
        finish_boot_setup(&plan, "/dev/sda", &all, Some(&out(false, "", "No such device"))),
        Err(InstallError::ToolFailure(_))
    ));
    let mut missing = vec![true; 6];
    missing[0] = false;
    assert!(matches!(
        finish_boot_setup(&plan, "/dev/sda", &missing, Some(&out(true, "", ""))),
        Err(InstallError::VerificationFailed(_))
    ));
}

#[test]
fn key_mapping() {
    assert_eq!(key_to_char(KEY_Q), Some('q'));
    assert_eq!(key_to_char(KEY_SPACE), Some(' '));
    assert_eq!(key_to_char(KEY_ENTER), Some('\n'));
    assert_eq!(key_to_char(30), Some('a'));
    assert_eq!(key_to_char(1), None);
    assert_eq!(key_event_char(KEY_Q, 1), Some('q'));
    assert_eq!(key_event_char(KEY_Q, 0), None);
    assert_eq!(key_event_char(KEY_Q, 2), None);
}
