use atomrootfsinit::config::Config;
use atomrootfsinit::vector::Vec;
use atomrootfsinit::BootError;

fn bv(s: &[u8]) -> Vec<u8> {
    Vec::new(s)
}

#[test]
fn parses_one_record_per_line_in_order() {
    let text = bv(b"/proc proc proc\n/sysroot rootdev ext4 ro\n/sys sysfs sysfs\n");
    let config = Config::new(text).unwrap();
    let mounts = config.mounts();
    assert_eq!(mounts.len(), 3);
    assert!(mounts.get(0).target.matches(b"/proc"));
    assert!(mounts.get(1).target.matches(b"/sysroot"));
    assert!(mounts.get(2).target.matches(b"/sys"));
}

#[test]
fn field_order_is_target_source_type() {
    let text = bv(b"/sysroot rootdev ext4 ro");
    let config = Config::new(text).unwrap();
    let m = config.mounts().get(0);
    assert!(m.target.matches(b"/sysroot"));
    assert!(m.src.as_ref().unwrap().matches(b"rootdev"));
    assert!(m.fstype.as_ref().unwrap().matches(b"ext4"));
    assert!(m.flags.read_only);
}

#[test]
fn line_with_two_fields_fails_whole_table() {
    let text = bv(b"/proc proc proc\n/sysroot rootdev\n/sys sysfs sysfs\n");
    let r = Config::new(text);
    assert_eq!(r.unwrap_err(), BootError::InvalidConfig);
}

#[test]
fn line_with_one_field_fails() {
    assert_eq!(Config::new(bv(b"lonely")).unwrap_err(), BootError::InvalidConfig);
}

#[test]
fn whitespace_only_line_fails() {
    assert_eq!(Config::new(bv(b"/proc proc proc\n   \n")).unwrap_err(), BootError::InvalidConfig);
}

#[test]
fn empty_table_parses_to_no_records() {
    let config = Config::new(bv(b"")).unwrap();
    assert_eq!(config.mounts().len(), 0);
}

#[test]
fn blank_trailing_lines_are_ignored() {
    let config = Config::new(bv(b"/proc proc proc\n\n\n")).unwrap();
    assert_eq!(config.mounts().len(), 1);
}

#[test]
fn interior_blank_lines_are_ignored() {
    let config = Config::new(bv(b"/proc proc proc\n\n/sys sysfs sysfs\n")).unwrap();
    assert_eq!(config.mounts().len(), 2);
}

#[test]
fn repeated_blanks_between_fields_are_ignored() {
    let config = Config::new(bv(b"/proc   proc  proc")).unwrap();
    let m = config.mounts().get(0);
    assert!(m.target.matches(b"/proc"));
    assert!(m.src.as_ref().unwrap().matches(b"proc"));
    assert!(m.fstype.as_ref().unwrap().matches(b"proc"));
}

#[test]
fn record_without_options_has_no_flags_and_no_data() {
    let config = Config::new(bv(b"/proc proc proc")).unwrap();
    let m = config.mounts().get(0);
    assert_eq!(m.flags.flags(), 0);
    assert!(m.data.is_none());
}

#[test]
fn fields_past_the_options_are_ignored() {
    let config = Config::new(bv(b"/home /dev/sdb1 ext4 rw 0 2")).unwrap();
    let m = config.mounts().get(0);
    assert!(m.target.matches(b"/home"));
    assert_eq!(m.flags.flags(), 0);
    assert!(m.data.is_none());
}

#[test]
fn error_code_of_invalid_config_is_einval() {
    assert_eq!(BootError::InvalidConfig.errno(), 22);
}
