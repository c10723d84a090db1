use truthdb_installer::command::Action;
use truthdb_installer::hosts::{render_hostname, render_hosts};
use truthdb_installer::install::{configure_hostname, MountPlan};

const IPV6: &str = "::1\tlocalhost ip6-localhost ip6-loopback\nff02::1\tip6-allnodes\nff02::2\tip6-allrouters\n";

#[test]
fn hostname_file_is_one_line() {
    assert_eq!(render_hostname("truthdb"), "truthdb\n");
}

#[test]
fn empty_hosts_gets_defaults() {
    assert_eq!(
        render_hosts("", "box"),
        format!("127.0.0.1\tlocalhost\n127.0.1.1\tbox\n{}", IPV6)
    );
}

#[test]
fn stale_host_line_is_replaced_and_others_kept() {
    let existing = "127.0.0.1 localhost\n# keep me\n127.0.1.1 oldname\n10.0.0.5   server\n127.0.1.1 other\n";
    let out = render_hosts(existing, "newname");
    assert_eq!(
        out,
        format!("127.0.0.1 localhost\n# keep me\n127.0.1.1\tnewname\n10.0.0.5   server\n{}", IPV6)
    );
    assert_eq!(out.lines().filter(|l| l.trim().starts_with("127.0.1.1")).count(), 1);
    assert_eq!(out.lines().filter(|l| *l == "127.0.1.1\tnewname").count(), 1);
}

#[test]
fn rewriting_twice_changes_nothing() {
    for existing in ["", "127.0.1.1 old\n", "a\n\n\n", "::1 x\n127.0.0.1 l", "x\r\n127.0.1.1 y\r\n"] {
        let once = render_hosts(existing, "newname");
        let twice = render_hosts(&once, "newname");
        assert_eq!(once, twice);
        assert_eq!(render_hostname("newname"), render_hostname("newname"));
    }
}

#[test]
fn existing_ipv6_is_not_duplicated() {
    let existing = "127.0.0.1 localhost\n::1 localhost\n";
    assert_eq!(
        render_hosts(existing, "h"),
        "127.0.0.1 localhost\n::1 localhost\n127.0.1.1\th\n"
    );
}

#[test]
fn hostname_step_writes_both_files() {
    let plan = MountPlan::default();
    let v = configure_hostname(&plan, "box", "");
    assert_eq!(v.len(), 3);
    match &v[0] {
        Action::CreateDir(p) => assert_eq!(p, "/mnt/etc"),
        other => panic!("unexpected {:?}", other),
    }
    match &v[1] {
        Action::WriteFile(p, c) => {
            assert_eq!(p, "/mnt/etc/hostname");
            assert_eq!(c, "box\n");
        }
        other => panic!("unexpected {:?}", other),
    }
    match &v[2] {
        Action::WriteFile(p, c) => {
            assert_eq!(p, "/mnt/etc/hosts");
            assert_eq!(c, &render_hosts("", "box"));
        }
        other => panic!("unexpected {:?}", other),
    }
}

#[test]
fn exactly_one_localhost_entry() {
    let existing = "127.0.0.1 localhost\n10.0.0.1 a\n127.0.0.1   localhost localhost.localdomain\n";
    assert_eq!(
        render_hosts(existing, "box"),
        format!("127.0.0.1 localhost\n10.0.0.1 a\n127.0.1.1\tbox\n{}", IPV6)
    );
    let other = "127.0.0.1 foo\n";
    assert_eq!(
        render_hosts(other, "box"),
        format!("127.0.0.1 foo\n127.0.0.1\tlocalhost\n127.0.1.1\tbox\n{}", IPV6)
    );
}

#[test]
fn new_host_line_takes_the_place_of_the_first_old_one() {
    let existing = "# top\n10.0.0.9 x\n  127.0.1.1 stale\n127.0.0.1 localhost\n";
    let out = render_hosts(existing, "fresh");
    let lines: Vec<&str> = out.lines().collect();
    assert_eq!(&lines[..4], &["# top", "10.0.0.9 x", "127.0.1.1\tfresh", "127.0.0.1 localhost"]);
}
