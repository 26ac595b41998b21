use atomrootfsinit::resolve::{
    alt_uevent_path, device_node_path, eq_ignore_ascii_case, find_device_by_partuuid,
    parse_cmdline, partuuid_of, resolve_device, trim, uevent_matches, uevent_path, DeviceEntry,
};
use atomrootfsinit::vector::Vec;
use atomrootfsinit::BootError;

fn bv(s: &[u8]) -> Vec<u8> {
    Vec::new(s)
}

fn entry(name: &[u8], uevent: Option<&[u8]>) -> DeviceEntry {
    DeviceEntry { name: bv(name), uevent: uevent.map(bv) }
}

#[test]
fn cmdline_root_and_init_are_read() {
    let c = parse_cmdline(&bv(b"console=ttyS0 root=PARTUUID=ABCD-1234 quiet init=/sbin/init\n"));
    assert!(c.root.unwrap().matches(b"PARTUUID=ABCD-1234"));
    assert!(c.init.unwrap().matches(b"/sbin/init"));
}

#[test]
fn cmdline_missing_keys_yield_nothing() {
    let c = parse_cmdline(&bv(b"console=ttyS0 quiet"));
    assert!(c.root.is_none());
    assert!(c.init.is_none());
}

#[test]
fn cmdline_later_occurrence_wins() {
    let c = parse_cmdline(&bv(b"root=/dev/sda1 root=/dev/sdb2"));
    assert!(c.root.unwrap().matches(b"/dev/sdb2"));
}

#[test]
fn plain_device_path_is_returned_unchanged() {
    let root = bv(b"/dev/sda2");
    assert!(partuuid_of(&root).is_none());
}

#[test]
fn partuuid_prefix_is_stripped() {
    let root = bv(b"PARTUUID=ABCD-1234");
    assert!(partuuid_of(&root).unwrap().matches(b"ABCD-1234"));
}

#[test]
fn uevent_line_is_found_case_insensitively() {
    let content = bv(b"MAJOR=8\nMINOR=2\nDEVNAME=sda2\nPARTUUID=abcd-1234\n");
    assert!(uevent_matches(&content, &bv(b"ABCD-1234")));
    assert!(uevent_matches(&content, &bv(b"abcd-1234")));
    assert!(!uevent_matches(&content, &bv(b"ffff-0000")));
}

#[test]
fn uevent_value_is_trimmed_before_comparison() {
    let content = bv(b"PARTUUID= abcd-1234 \n");
    assert!(uevent_matches(&content, &bv(b"ABCD-1234")));
}

#[test]
fn uevent_with_empty_value_matches_nothing() {
    let content = bv(b"PARTUUID=\nPARTUUID=   \n");
    assert!(!uevent_matches(&content, &bv(b"")));
}

#[test]
fn trim_drops_both_ends_only() {
    assert!(trim(&bv(b"  a b\t\n")).matches(b"a b"));
    assert!(trim(&bv(b"abc")).matches(b"abc"));
    assert!(trim(&bv(b" \t ")).matches(b""));
}

#[test]
fn case_insensitive_compare_is_ascii_only() {
    assert!(eq_ignore_ascii_case(&bv(b"AbC-12"), &bv(b"aBc-12")));
    assert!(!eq_ignore_ascii_case(&bv(b"abc"), &bv(b"abd")));
    assert!(!eq_ignore_ascii_case(&bv(b"abc"), &bv(b"ab")));
}

#[test]
fn uevent_path_is_under_class_block() {
    let p = uevent_path(&bv(b"/sys"), &bv(b"sda2"));
    assert!(p.matches(b"/sys/class/block/sda2/uevent"));
}

#[test]
fn alt_uevent_path_goes_through_the_disk() {
    let p = alt_uevent_path(&bv(b"/sys"), &bv(b"sda2")).unwrap();
    assert!(p.matches(b"/sys/block/sda/sda2/uevent"));
}

#[test]
fn alt_uevent_path_needs_a_partition_suffix() {
    assert!(alt_uevent_path(&bv(b"/sys"), &bv(b"sda")).is_none());
    assert!(alt_uevent_path(&bv(b"/sys"), &bv(b"1234")).is_none());
    assert!(alt_uevent_path(&bv(b"/sys"), &bv(b"")).is_none());
}

#[test]
fn alt_uevent_path_cuts_all_trailing_digits() {
    let p = alt_uevent_path(&bv(b"/sys"), &bv(b"nvme0n1p3")).unwrap();
    assert!(p.matches(b"/sys/block/nvme0n1p/nvme0n1p3/uevent"));
}

#[test]
fn device_node_path_prefixes_the_dev_mount() {
    assert!(device_node_path(&bv(b"/dev"), &bv(b"sda2")).matches(b"/dev/sda2"));
    assert!(device_node_path(&bv(b"/devices/"), &bv(b"sda2")).matches(b"/devices/sda2"));
    assert!(device_node_path(&bv(b"/devices"), &bv(b"sda2")).matches(b"/devices/sda2"));
}

#[test]
fn first_matching_device_of_first_strategy_wins() {
    let mut cb: Vec<DeviceEntry> = Vec::default();
    cb.push(entry(b"sda1", Some(b"PARTUUID=1111-aaaa\n")));
    cb.push(entry(b"sda2", Some(b"PARTUUID=abcd-1234\n")));
    cb.push(entry(b"sdb2", Some(b"PARTUUID=abcd-1234\n")));
    let found = find_device_by_partuuid(&bv(b"ABCD-1234"), Some(&cb), None, None).unwrap();
    assert!(found.matches(b"sda2"));
}

#[test]
fn later_strategies_are_used_when_earlier_yield_nothing() {
    let mut cb: Vec<DeviceEntry> = Vec::default();
    cb.push(entry(b"sda1", Some(b"PARTUUID=1111-aaaa\n")));
    let mut dev: Vec<DeviceEntry> = Vec::default();
    dev.push(entry(b"sdb7", Some(b"PARTUUID=abcd-1234\n")));
    let found =
        find_device_by_partuuid(&bv(b"abcd-1234"), Some(&cb), None, Some(&dev)).unwrap();
    assert!(found.matches(b"sdb7"));
}

#[test]
fn devtmpfs_scan_skips_ram_and_loop_names() {
    let mut dev: Vec<DeviceEntry> = Vec::default();
    dev.push(entry(b"ram0", Some(b"PARTUUID=abcd-1234\n")));
    dev.push(entry(b"loop3", Some(b"PARTUUID=abcd-1234\n")));
    dev.push(entry(b"sda2", Some(b"PARTUUID=abcd-1234\n")));
    let found = find_device_by_partuuid(&bv(b"abcd-1234"), None, None, Some(&dev)).unwrap();
    assert!(found.matches(b"sda2"));
}

#[test]
fn sysfs_scans_do_not_filter_names() {
    let mut cb: Vec<DeviceEntry> = Vec::default();
    cb.push(entry(b"ram0", Some(b"PARTUUID=abcd-1234\n")));
    let found = find_device_by_partuuid(&bv(b"abcd-1234"), Some(&cb), None, None).unwrap();
    assert!(found.matches(b"ram0"));
}

#[test]
fn unknown_partuuid_fails_only_after_all_three_scans() {
    let mut cb: Vec<DeviceEntry> = Vec::default();
    cb.push(entry(b"sda1", Some(b"PARTUUID=1111-aaaa\n")));
    cb.push(entry(b"sda2", None));
    let mut bl: Vec<DeviceEntry> = Vec::default();
    bl.push(entry(b"sda", Some(b"DEVTYPE=disk\n")));
    let mut dev: Vec<DeviceEntry> = Vec::default();
    dev.push(entry(b"sdb1", Some(b"PARTUUID=2222-bbbb\n")));
    let r = resolve_device(&bv(b"ABCD-1234"), Some(&cb), Some(&bl), Some(&dev));
    assert_eq!(r.unwrap_err(), BootError::NoDevice);
}

#[test]
fn error_code_of_no_device_is_enodev() {
    assert_eq!(BootError::NoDevice.errno(), 19);
}

#[test]
fn resolution_with_no_scan_data_fails_with_no_device() {
    let r = resolve_device(&bv(b"ABCD-1234"), None, None, None);
    assert_eq!(r.unwrap_err(), BootError::NoDevice);
}
