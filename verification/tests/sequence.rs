use atomrootfsinit::config::Config;
use atomrootfsinit::vector::Vec;

fn bv(s: &[u8]) -> Vec<u8> {
    Vec::new(s)
}

#[test]
fn push_pop_len_and_empty() {
    let mut v: Vec<u8> = Vec::default();
    assert!(v.empty());
    assert_eq!(v.len(), 0);
    v.push(7);
    v.push(9);
    assert!(!v.empty());
    assert_eq!(v.len(), 2);
    assert_eq!(v.pop(), Some(9));
    assert_eq!(v.pop(), Some(7));
    assert_eq!(v.pop(), None);
    assert!(v.empty());
}

#[test]
fn at_reads_in_bounds_only() {
    let v = bv(b"abc");
    assert_eq!(v.at(0), Some(b'a'));
    assert_eq!(v.at(2), Some(b'c'));
    assert_eq!(v.at(3), None);
}

#[test]
fn as_slice_is_none_only_when_empty() {
    let v = bv(b"xy");
    assert_eq!(v.as_slice().unwrap(), b"xy");
    let e: Vec<u8> = Vec::default();
    assert!(e.as_slice().is_none());
}

#[test]
fn split_keeps_or_drops_empty_segments() {
    let v = bv(b",a,,b,");
    let kept = v.split(b',', true);
    assert_eq!(kept.len(), 5);
    assert!(kept.get(0).empty());
    assert!(kept.get(1).matches(b"a"));
    assert!(kept.get(2).empty());
    assert!(kept.get(3).matches(b"b"));
    assert!(kept.get(4).empty());
    let dropped = v.split(b',', false);
    assert_eq!(dropped.len(), 2);
    assert!(dropped.get(0).matches(b"a"));
    assert!(dropped.get(1).matches(b"b"));
}

#[test]
fn split_of_empty_input() {
    let v = bv(b"");
    assert_eq!(v.split(b',', true).len(), 1);
    assert_eq!(v.split(b',', false).len(), 0);
}

#[test]
fn starts_with_and_suffix() {
    let v = bv(b"root=/dev/sda1");
    assert!(v.starts_with(b"root="));
    assert!(!v.starts_with(b"init="));
    assert!(v.suffix(5).matches(b"/dev/sda1"));
}

#[test]
fn record_accessors_mirror_the_fields() {
    let config = Config::new(bv(b"/sysroot rootdev ext4 ro")).unwrap();
    let m = config.mounts().get(0);
    assert!(m.target().matches(b"/sysroot"));
    assert!(m.src().as_ref().unwrap().matches(b"rootdev"));
    assert!(m.fstype().as_ref().unwrap().matches(b"ext4"));
    assert!(m.data().is_none());
    assert!(m.wants_rootdev());
}
