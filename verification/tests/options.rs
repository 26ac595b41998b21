use atomrootfsinit::config::{serialized_flags_split, Config};
use atomrootfsinit::mount::{
    MountFlag, MountpointFlags, MS_BIND, MS_LAZYTIME, MS_NOATIME, MS_NODEV, MS_NOEXEC, MS_NOSUID,
    MS_PRIVATE, MS_RDONLY, MS_REC, MS_REMOUNT, MS_SHARED, MS_SILENT,
};
use atomrootfsinit::vector::Vec;

fn bv(s: &[u8]) -> Vec<u8> {
    Vec::new(s)
}

#[test]
fn round_trip_ro_bind_overlay_options() {
    let (flags, data) = serialized_flags_split(&bv(b"ro,bind,upperdir=/x,lowerdir=/y"));
    assert!(flags.read_only);
    assert!(flags.bind);
    assert!(!flags.shared);
    assert!(!flags.private);
    assert!(!flags.recursive);
    assert!(!flags.remount);
    assert!(!flags.no_dev);
    assert!(!flags.no_exec);
    assert!(!flags.no_suid);
    assert!(!flags.no_access_time);
    assert!(!flags.lazytime);
    assert!(!flags.silent);
    assert_eq!(flags.flags(), MS_RDONLY | MS_BIND);
    assert!(data.matches(b"upperdir=/x,lowerdir=/y\0"));
}

#[test]
fn each_recognized_token_raises_exactly_its_bit() {
    let cases: [(&[u8], u64); 12] = [
        (b"ro", MS_RDONLY),
        (b"bind", MS_BIND),
        (b"recursive", MS_REC),
        (b"noatime", MS_NOATIME),
        (b"remount", MS_REMOUNT),
        (b"nodev", MS_NODEV),
        (b"noexec", MS_NOEXEC),
        (b"nosuid", MS_NOSUID),
        (b"lazytime", MS_LAZYTIME),
        (b"silent", MS_SILENT),
        (b"shared", MS_SHARED),
        (b"private", MS_PRIVATE),
    ];
    for (token, bit) in cases {
        let (flags, data) = serialized_flags_split(&bv(token));
        assert_eq!(flags.flags(), bit);
        assert!(data.empty());
    }
}

#[test]
fn rw_is_a_no_op_token() {
    let (flags, data) = serialized_flags_split(&bv(b"rw"));
    assert_eq!(flags.flags(), 0);
    assert!(data.empty());
}

#[test]
fn recognized_tokens_contribute_nothing_to_data() {
    let (flags, data) = serialized_flags_split(&bv(b"rw,nodev,nosuid,noexec"));
    assert_eq!(flags.flags(), MS_NODEV | MS_NOSUID | MS_NOEXEC);
    assert!(data.empty());
}

#[test]
fn unrecognized_tokens_joined_without_trailing_separator() {
    let (flags, data) = serialized_flags_split(&bv(b"size=64m,mode=0755"));
    assert_eq!(flags.flags(), 0);
    assert!(data.matches(b"size=64m,mode=0755\0"));
}

#[test]
fn single_unknown_token_gets_nul_and_no_comma() {
    let (_, data) = serialized_flags_split(&bv(b"errors=remount-ro"));
    assert!(data.matches(b"errors=remount-ro\0"));
}

#[test]
fn flags_and_data_interleave_independently() {
    let (flags, data) = serialized_flags_split(&bv(b"lowerdir=/a,ro,upperdir=/b,bind,workdir=/c"));
    assert_eq!(flags.flags(), MS_RDONLY | MS_BIND);
    assert!(data.matches(b"lowerdir=/a,upperdir=/b,workdir=/c\0"));
}

#[test]
fn flag_bit_values_match_the_kernel_interface() {
    assert_eq!(MS_RDONLY, 1);
    assert_eq!(MS_NOSUID, 2);
    assert_eq!(MS_NODEV, 4);
    assert_eq!(MS_NOEXEC, 8);
    assert_eq!(MS_REMOUNT, 32);
    assert_eq!(MS_NOATIME, 1024);
    assert_eq!(MS_BIND, 4096);
    assert_eq!(MS_REC, 16384);
    assert_eq!(MS_SILENT, 32768);
    assert_eq!(MS_PRIVATE, 262144);
    assert_eq!(MS_SHARED, 1048576);
    assert_eq!(MS_LAZYTIME, 33554432);
}

#[test]
fn mountpoint_flags_new_raises_the_given_options() {
    let flags = MountpointFlags::new(&[MountFlag::Recursive, MountFlag::Private]);
    assert!(flags.recursive);
    assert!(flags.private);
    assert_eq!(flags.flags(), MS_REC | MS_PRIVATE);
}

#[test]
fn mountpoint_flags_set_adds_one_option() {
    let mut flags = MountpointFlags::new(&[]);
    assert_eq!(flags.flags(), 0);
    flags.set(MountFlag::ReadOnly);
    assert!(flags.read_only);
    assert_eq!(flags.flags(), MS_RDONLY);
    flags.set(MountFlag::Bind);
    assert_eq!(flags.flags(), MS_RDONLY | MS_BIND);
}

#[test]
fn parsed_record_carries_options_data() {
    let config = Config::new(bv(b"/merged overlay overlay lowerdir=/l,upperdir=/u,ro")).unwrap();
    let m = config.mounts().get(0);
    assert_eq!(m.flags.flags(), MS_RDONLY);
    assert!(m.data.as_ref().unwrap().matches(b"lowerdir=/l,upperdir=/u\0"));
}
