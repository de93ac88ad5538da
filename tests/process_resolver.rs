use vuinputd::namespace::{
    get_namespace_inodes, get_namespaces, get_requesting_process, is_compat_elf_header, parse_ns_link,
    parse_ppid, NamespaceInodes, Pid,
};

fn inodes(mnt: u64, net: u64) -> NamespaceInodes {
    NamespaceInodes { mnt: Some(mnt), net: Some(net), ..NamespaceInodes::default() }
}

#[test]
fn pid_paths() {
    assert_eq!(Pid::SelfPid.path(), "/proc/self");
    assert_eq!(Pid::Pid(4711).path(), "/proc/4711");
    assert_eq!(Pid::Pid(0).path(), "/proc/0");
}

#[test]
fn namespace_links_are_parsed() {
    assert_eq!(parse_ns_link("net:[4026531840]"), Some(4026531840));
    assert_eq!(parse_ns_link("mnt:[]"), None);
    assert_eq!(parse_ns_link("mnt:]1["), None);
    assert_eq!(parse_ns_link("mnt"), None);
    let entries = vec![
        ("net".to_string(), "net:[4026531840]".to_string()),
        ("mnt".to_string(), "mnt:[4026531841]".to_string()),
        ("bogus".to_string(), "bogus:[1]".to_string()),
        ("uts".to_string(), "uts:[x]".to_string()),
    ];
    let ns = get_namespace_inodes(&entries);
    assert_eq!(ns.net, Some(4026531840));
    assert_eq!(ns.mnt, Some(4026531841));
    assert_eq!(ns.uts, None);
}

#[test]
fn ppid_is_read_from_status() {
    assert_eq!(parse_ppid("Name:\tbash\nPPid:\t1234\nUid:\t0\n"), Some(1234));
    assert_eq!(parse_ppid("Name:\tbash\n"), None);
    assert_eq!(parse_ppid("PPid:\tx\n"), None);
}

#[test]
fn elf_class_decides_bitness() {
    assert_eq!(is_compat_elf_header(&[0x7f, b'E', b'L', b'F', 1]), Some(true));
    assert_eq!(is_compat_elf_header(&[0x7f, b'E', b'L', b'F', 2]), Some(false));
    assert_eq!(is_compat_elf_header(&[0x7f, b'E', b'L', b'F', 3]), None);
    assert_eq!(is_compat_elf_header(b"#!/bi"), None);
}

#[test]
fn container_root_is_outermost_ancestor_with_same_namespaces() {
    let own = inodes(10, 20);
    let ancestors = vec![
        (Pid::Pid(90), inodes(10, 20)),
        (Pid::Pid(80), inodes(10, 20)),
        (Pid::Pid(1), inodes(1, 2)),
    ];
    let rp = get_requesting_process(Pid::Pid(100), Some(own), inodes(1, 2), &ancestors, Some(true), false);
    assert_eq!(rp.nspath, "/proc/100/ns");
    assert_eq!(rp.nsroot, "/proc/80/ns");
    assert!(rp.is_compat);
    let alone = get_requesting_process(Pid::Pid(100), Some(own), inodes(1, 2), &vec![(Pid::Pid(1), inodes(1, 2))], None, false);
    let arm32 = get_requesting_process(Pid::Pid(100), Some(own), inodes(1, 2), &ancestors, Some(true), true);
    assert!(!arm32.is_compat);
    let unreadable = get_requesting_process(Pid::Pid(100), None, inodes(1, 2), &ancestors, Some(true), false);
    assert_eq!(unreadable.namespaces, inodes(1, 2));
    assert_eq!(unreadable.nsroot, "/proc/self/ns");
    assert_eq!(unreadable.nspath, "/proc/100/ns");
    assert_eq!(alone.nsroot, "/proc/100/ns");
    assert!(!alone.is_compat);
    let me = get_namespaces(Pid::SelfPid, inodes(1, 2), &ancestors);
    assert_eq!(me.nsroot, "/proc/self/ns");
    assert!(!me.equal_mnt_and_net(&get_namespaces(Pid::Pid(100), own, &ancestors)));
    assert!(rp.equal_mnt_and_net_ns(&own));
}
