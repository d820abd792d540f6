use nixos_setup::error::{Error, ErrorKind};
use nixos_setup::gpt::{Bytesize, FsType, PartitionType, SizeUnit};

#[test]
fn bytesize_parses_plain_number() {
    let b = Bytesize::from("512");
    assert_eq!(b.value, 512);
    assert!(matches!(b.unit, SizeUnit::Byte));
}

#[test]
fn bytesize_parses_unit_suffixes() {
    assert!(matches!(Bytesize::from("1K").unit, SizeUnit::Kilo));
    assert!(matches!(Bytesize::from("2M").unit, SizeUnit::Mega));
    assert!(matches!(Bytesize::from("3G").unit, SizeUnit::Giga));
    assert!(matches!(Bytesize::from("4T").unit, SizeUnit::Tera));
    assert!(matches!(Bytesize::from("5P").unit, SizeUnit::Peta));
    assert!(matches!(Bytesize::from("6B").unit, SizeUnit::Byte));
    assert_eq!(Bytesize::from("512M").value, 512);
}

#[test]
fn bytesize_rejects_malformed_sizes() {
    let b = Bytesize::from("");
    assert_eq!(b.value, 0);
    let b = Bytesize::from("M");
    assert_eq!(b.value, 0);
    let b = Bytesize::from("12x4");
    assert_eq!(b.value, 0);
    let b = Bytesize::from("99999999999999999999999999");
    assert_eq!(b.value, 0);
}

#[test]
fn bytesize_renders_value_and_unit() {
    let b = Bytesize::from("512M");
    assert_eq!(b.to_string(), "512M");
    assert_eq!(b.to_gpt_string(), "+512M");
    let zero = Bytesize::from("0");
    assert!(zero.is_null());
    assert_eq!(zero.to_string(), "0");
    assert_eq!(zero.to_gpt_string(), "0");
    assert!(!b.is_null());
}

#[test]
fn size_unit_round_trip() {
    let u = SizeUnit::from("G");
    assert!(matches!(u, SizeUnit::Giga));
    assert_eq!(u.to_string(), "G");
    assert_eq!(SizeUnit::Byte.to_string(), "");
    assert!(matches!(SizeUnit::from("unknown"), SizeUnit::Byte));
}

#[test]
fn partition_type_parses_both_spellings() {
    assert!(matches!(PartitionType::from_str("efi"), Ok(PartitionType::Efi)));
    assert!(matches!(PartitionType::from_str("ef00"), Ok(PartitionType::Efi)));
    assert!(matches!(PartitionType::from_str("linux"), Ok(PartitionType::Linux)));
    assert!(matches!(PartitionType::from_str("8300"), Ok(PartitionType::Linux)));
    let e = PartitionType::from_str("dos").unwrap_err();
    assert_eq!(e.description, "Invalid partition type");
    assert!(matches!(e.kind, ErrorKind::Generic));
}

#[test]
fn partition_type_renders_codes() {
    assert_eq!(PartitionType::Efi.to_gpt_string(), "ef00");
    assert_eq!(PartitionType::Linux.to_gpt_string(), "8300");
    assert_eq!(PartitionType::Efi.to_string(), "efi");
    assert_eq!(PartitionType::Linux.to_string(), "linux");
}

#[test]
fn fs_type_parses_known_tags() {
    assert!(matches!(FsType::from_str("ext4"), Ok(FsType::Ext4)));
    assert!(matches!(FsType::from_str("fat32"), Ok(FsType::Fat32)));
    assert!(matches!(FsType::from_str("zfs"), Ok(FsType::Zfs)));
    assert!(matches!(FsType::from_str("lvm"), Ok(FsType::Lvm)));
    assert!(matches!(FsType::from_str("swap"), Ok(FsType::Swap)));
    let e = FsType::from_str("btrfs").unwrap_err();
    assert_eq!(e.description, "Invalid enum value btrfs");
}

#[test]
fn error_constructors_record_kind_and_description() {
    let e = Error::generic("boom");
    assert_eq!(e.description, "boom");
    assert!(matches!(e.kind, ErrorKind::Generic));
    let e = Error::command("sgdisk", "missing");
    assert!(matches!(e.kind, ErrorKind::Command(ref c) if c == "sgdisk"));
    let e = Error::invalid_value("host");
    assert!(matches!(e.kind, ErrorKind::InvalidValue(ref f) if f == "host"));
    assert_eq!(e.description, "");
    let e = Error::io("reading", "denied");
    assert!(matches!(e.kind, ErrorKind::Io(ref d) if d == "denied"));
    let e = Error::json("layout", "bad token");
    assert!(matches!(e.kind, ErrorKind::Json(ref s) if s == "layout"));
    let e = Error::filesystem("/tmp/x", "missing");
    assert!(matches!(e.kind, ErrorKind::Filesystem(ref p) if p == "/tmp/x"));
    let e = Error::process(Some(2), "mount");
    assert!(matches!(e.kind, ErrorKind::Process(Some(2))));
    assert_eq!(e.description, "mount");
}

#[test]
fn string_helpers_behave() {
    assert_eq!(nixos_setup::strutil::u64_to_string(0), "0");
    assert_eq!(nixos_setup::strutil::u64_to_string(90210), "90210");
    assert_eq!(nixos_setup::strutil::u32_to_string(7), "7");
    assert!(nixos_setup::strutil::starts_with("/dev/sda", "/dev/"));
    assert!(!nixos_setup::strutil::starts_with("dev", "/dev/"));
    assert!(nixos_setup::strutil::ends_with("../../sda1", "sda1"));
    assert!(nixos_setup::strutil::contains_sub("device is active now", "is active"));
    assert!(!nixos_setup::strutil::contains_sub("inactive", "is active"));
    let lines = nixos_setup::strutil::split_lines("a\nbb\n\nccc\n");
    assert_eq!(lines, vec!["a", "bb", "", "ccc"]);
    let fields = nixos_setup::strutil::split_sep("lenovo_t480", '_');
    assert_eq!(fields, vec!["lenovo", "t480"]);
    assert_eq!(nixos_setup::strutil::find_sub("ab -> cd", " -> "), Some(2));
}
