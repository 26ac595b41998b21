use atomrootfsinit::config::Config;
use atomrootfsinit::mount::{private_remount_record, MS_PRIVATE, MS_RDONLY, MS_REC};
use atomrootfsinit::resolve::{
    device_node_path, find_device_by_partuuid, is_initramfs, parse_cmdline, partuuid_of,
    root_backing_device, DeviceEntry,
};
use atomrootfsinit::switch_root::{switch_root, SwitchStep};
use atomrootfsinit::vector::Vec;

fn bv(s: &[u8]) -> Vec<u8> {
    Vec::new(s)
}

#[test]
fn private_remount_prestep_targets_root_recursively() {
    let pre = private_remount_record();
    assert!(pre.target.matches(b"/"));
    assert!(pre.src.is_none());
    assert!(pre.fstype.is_none());
    assert!(pre.data.is_none());
    assert_eq!(pre.flags.flags(), MS_REC | MS_PRIVATE);
}

#[test]
fn proc_mounts_rootfs_line_classifies_initramfs() {
    let mounts = bv(b"rootfs / rootfs rw 0 0\nproc /proc proc rw 0 0\n");
    assert!(root_backing_device(&mounts).unwrap().matches(b"rootfs"));
    assert!(is_initramfs(&mounts));
}

#[test]
fn real_block_root_classifies_initrd() {
    let mounts = bv(b"/dev/ram0 / ext2 rw 0 0\nproc /proc proc rw 0 0\n");
    assert!(root_backing_device(&mounts).unwrap().matches(b"/dev/ram0"));
    assert!(!is_initramfs(&mounts));
}

#[test]
fn missing_root_line_classifies_initrd() {
    let mounts = bv(b"proc /proc proc rw 0 0\n");
    assert!(root_backing_device(&mounts).is_none());
    assert!(!is_initramfs(&mounts));
}

#[test]
fn end_to_end_partuuid_boot() {
    // The mount table: proc, the real root by sentinel, sysfs and devtmpfs.
    let table = bv(
        b"/proc proc proc\n/sysroot rootdev ext4 ro\n/sys sysfs sysfs\n/dev devtmpfs devtmpfs\n",
    );
    let config = Config::new(table).unwrap();
    assert_eq!(config.mounts().len(), 4);

    // sysfs and devtmpfs belong to the early phase; everything else follows.
    let early = config.mount_phase_indices(true);
    assert_eq!(early.len(), 2);
    assert_eq!(early.at(0), Some(2));
    assert_eq!(early.at(1), Some(3));
    let late = config.mount_phase_indices(false);
    assert_eq!(late.len(), 2);
    assert_eq!(late.at(0), Some(0));
    assert_eq!(late.at(1), Some(1));

    // The tracked mount points feed the resolver.
    assert!(config.sys_mount_point().unwrap().matches(b"/sys"));
    assert!(config.dev_mount_point().unwrap().matches(b"/dev"));
    assert!(config.rootfs_target().matches(b"/sysroot"));

    // The kernel command line names the root by partition identifier.
    let cmdline = parse_cmdline(&bv(b"root=PARTUUID=ABCD-1234 quiet\n"));
    let root_spec = cmdline.root.unwrap();
    let needle = partuuid_of(&root_spec).unwrap();
    assert!(needle.matches(b"ABCD-1234"));

    // The sysfs scan knows two devices; the uevent of the second matches.
    let mut class_block: Vec<DeviceEntry> = Vec::default();
    class_block.push(DeviceEntry {
        name: bv(b"sda1"),
        uevent: Some(bv(b"MAJOR=8\nMINOR=1\nPARTUUID=9999-zzzz\n")),
    });
    class_block.push(DeviceEntry {
        name: bv(b"sda2"),
        uevent: Some(bv(b"MAJOR=8\nMINOR=2\nPARTUUID=abcd-1234\n")),
    });
    let device = find_device_by_partuuid(&needle, Some(&class_block), None, None).unwrap();
    assert!(device.matches(b"sda2"));
    let device_path = device_node_path(&config.dev_mount_point().unwrap(), &device);
    assert!(device_path.matches(b"/dev/sda2"));

    // The sentinel record mounts the resolved device, read-only.
    let root_record = config.mounts().get(1);
    let call = root_record.mount_call(Some(&device_path));
    assert!(call.source.as_ref().unwrap().matches(b"/dev/sda2"));
    assert!(call.target.matches(b"/sysroot"));
    assert!(call.fstype.as_ref().unwrap().matches(b"ext4"));
    assert_eq!(call.flags, MS_RDONLY);
    assert!(call.data.is_none());

    // A literal source is never substituted.
    let proc_call = config.mounts().get(0).mount_call(Some(&device_path));
    assert!(proc_call.source.as_ref().unwrap().matches(b"proc"));
    assert_eq!(proc_call.flags, 0);

    // A real block device backs `/`, so the switch takes the initrd branch.
    let mounts_text = bv(b"/dev/ram0 / ext2 rw 0 0\n");
    assert!(!is_initramfs(&mounts_text));
    let steps = switch_root(false, &config.rootfs_target(), &bv(b"."), &bv(b"/sbin/init"));
    assert_eq!(*steps.get(0), SwitchStep::Chdir(bv(b"/sysroot")));
    assert!(matches!(*steps.get(1), SwitchStep::PivotRoot { .. }));
}

#[test]
fn rootdev_without_resolution_mounts_with_no_source() {
    let config = Config::new(bv(b"/sysroot rootdev ext4")).unwrap();
    let call = config.mounts().get(0).mount_call(None);
    assert!(call.source.is_none());
}

#[test]
fn path_constants_name_the_boot_files() {
    assert_eq!(atomrootfsinit::SYSROOT, "/mnt");
    assert_eq!(atomrootfsinit::RDTAB_PATH, "/mnt/etc/rdtab");
    assert_eq!(atomrootfsinit::RDNAME_PATH, "/etc/rdname");
}

#[test]
fn default_rootfs_target_is_the_sysroot() {
    let config = Config::new(bv(b"/proc proc proc")).unwrap();
    assert!(config.rootfs_target().matches(b"/mnt"));
}
